//! Compressed message bodies.
use std::io::Read;
use vstd::prelude::*;

use crate::error::InvalidCodec;

verus! {

/// How the buffers of a body are compressed
#[derive(Debug, Clone, Copy, PartialEq, Eq, Structural)]
pub enum CompressionType {
    Lz4Frame,
    Zstd,
}

/// What a message says of the compression of its body: the tag of the codec, when
/// it can be read.
#[derive(Debug, Clone, Copy, PartialEq, Eq, Structural)]
pub struct Compression {
    pub codec: Option<i8>,
}

/// `planus::errors::UnknownEnumTagKind`: carried, never looked into.
#[verifier::external_type_specification]
#[verifier::external_body]
pub struct ExUnknownEnumTagKind(arrow_format::ipc::planus::errors::UnknownEnumTagKind);

/// `arrow_format::ipc::CompressionType::try_from`: the tag 0 is that of LZ4 frames,
/// the tag 1 that of Zstandard, and no other tag is one of a codec.
#[verifier::external_body]
fn compression_type_of_tag(tag: i8) -> (r: Result<
    CompressionType,
    arrow_format::ipc::planus::errors::UnknownEnumTagKind,
>)
    ensures
        match r {
            Ok(codec) => if codec is Lz4Frame {
                tag == 0
            } else {
                tag == 1
            },
            Err(_) => tag != 0 && tag != 1,
        },
{
    match arrow_format::ipc::CompressionType::try_from(tag)? {
        arrow_format::ipc::CompressionType::Lz4Frame => Ok(CompressionType::Lz4Frame),
        arrow_format::ipc::CompressionType::Zstd => Ok(CompressionType::Zstd),
    }
}

impl Compression {
    /// The codec, or why it is not known
    pub open spec fn spec_codec(self) -> Result<CompressionType, InvalidCodec> {
        match self.codec {
            Some(tag) => if tag == 0 {
                Ok(CompressionType::Lz4Frame)
            } else if tag == 1 {
                Ok(CompressionType::Zstd)
            } else {
                Err(InvalidCodec::UnknownTag(tag))
            },
            None => Err(InvalidCodec::Unreadable),
        }
    }

    /// The codec, or why it is not known
    pub fn codec(&self) -> (r: Result<CompressionType, InvalidCodec>)
        ensures
            r == self.spec_codec(),
    {
        match self.codec {
            Some(tag) => match compression_type_of_tag(tag) {
                Ok(codec) => Ok(codec),
                Err(_) => Err(InvalidCodec::UnknownTag(tag)),
            },
            None => Err(InvalidCodec::Unreadable),
        }
    }
}

/// The first `length` bytes that `lz4::Decoder` gives for this input; none, where
/// it gives fewer or fails.
pub uninterp spec fn lz4_decoded(input: Seq<u8>, length: nat) -> Option<Seq<u8>>;

/// The first `length` bytes that `zstd::Decoder` gives for this input; none, where
/// it gives fewer or fails.
pub uninterp spec fn zstd_decoded(input: Seq<u8>, length: nat) -> Option<Seq<u8>>;

/// The first `length` bytes that the codec gives for this input.
pub open spec fn decoded(codec: CompressionType, input: Seq<u8>, length: nat) -> Option<Seq<u8>> {
    match codec {
        CompressionType::Lz4Frame => lz4_decoded(input, length),
        CompressionType::Zstd => zstd_decoded(input, length),
    }
}

/// `lz4::Decoder`, read with `read_exact`: fills `output` with what the LZ4 frames
/// in `input` hold, and fails where they hold less or are no such frames. What a
/// failure leaves in `output` is not said.
#[verifier::external_body]
fn decompress_lz4(input: &[u8], output: &mut [u8]) -> (r: Result<(), std::io::Error>)
    ensures
        final(output)@.len() == old(output)@.len(),
        match r {
            Ok(_) => lz4_decoded(input@, old(output)@.len()) == Some(final(output)@),
            Err(_) => lz4_decoded(input@, old(output)@.len()) is None,
        },
{
    let mut decoder = lz4::Decoder::new(input)?;
    decoder.read_exact(output)
}

/// `zstd::Decoder`, read with `read_exact`: fills `output` with what the Zstandard
/// frames in `input` hold, and fails where they hold less or are no such frames.
/// What a failure leaves in `output` is not said.
#[verifier::external_body]
fn decompress_zstd(input: &[u8], output: &mut [u8]) -> (r: Result<(), std::io::Error>)
    ensures
        final(output)@.len() == old(output)@.len(),
        match r {
            Ok(_) => zstd_decoded(input@, old(output)@.len()) == Some(final(output)@),
            Err(_) => zstd_decoded(input@, old(output)@.len()) is None,
        },
{
    let mut decoder = zstd::Decoder::new(input)?;
    decoder.read_exact(output)
}

/// Fills `output` with what `input` holds, compressed with the codec.
pub fn decompress(codec: CompressionType, input: &[u8], output: &mut [u8]) -> (r: Result<
    (),
    std::io::Error,
>)
    ensures
        final(output)@.len() == old(output)@.len(),
        match r {
            Ok(_) => decoded(codec, input@, old(output)@.len()) == Some(final(output)@),
            Err(_) => decoded(codec, input@, old(output)@.len()) is None,
        },
{
    match codec {
        CompressionType::Lz4Frame => decompress_lz4(input, output),
        CompressionType::Zstd => decompress_zstd(input, output),
    }
}

} // verus!
