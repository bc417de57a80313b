//! What each read gives, in terms of the bytes of the file.
use std::collections::TryReserveError;
use vstd::prelude::*;

use crate::bitmap::Bitmap;
use crate::buffer::Buffer;
use crate::error::{Error, Failure, InvalidCodec};
use crate::ipc::compression::{Compression, CompressionType};
use crate::ipc::endianess::is_native_little_endian;
use crate::ipc::read_basic::{IpcBuffer, Node};
use crate::ipc::reader::ByteReader;
use crate::types::NativeType;

verus! {

/// The bytes from a position on are those of the file that lie there, and none past its end.
pub proof fn law_bytes_lie_in_the_file(data: Seq<u8>, position: int, k: int)
    requires
        0 <= position,
    ensures
        crate::ipc::reader::bytes_from(data, position).len() == if position <= data.len() {
            data.len() - position
        } else {
            0
        },
        0 <= k < data.len() - position ==> crate::ipc::reader::bytes_from(data, position)[k]
            == data[position + k],
{
}

/// A reader has yet to read what lies from its position on.
pub proof fn law_reader_is_at_its_position(reader: ByteReader<'_>, k: int)
    ensures
        reader.rest().len() == if reader.position <= reader.data@.len() {
            reader.data@.len() - reader.position
        } else {
            0
        },
        0 <= k < reader.data@.len() - reader.position ==> reader.rest()[k] == reader.data@[
            reader.position + k],
{
}

/// A limit takes the first bytes, and all of them where there are no more.
pub proof fn law_limit_takes_the_first(bytes: Seq<u8>, limit: nat, k: int)
    ensures
        crate::ipc::reader::at_most(bytes, limit).len() == if limit <= bytes.len() {
            limit
        } else {
            bytes.len()
        },
        0 <= k < limit && k < bytes.len() ==> crate::ipc::reader::at_most(bytes, limit)[k]
            == bytes[k],
{
}

/// Something is wrong with the front of a queue when there is none, or when its offset is
/// negative or its length is negative or more than can be counted. The front leaves the queue,
/// and nothing else does.
pub proof fn law_front_of_the_queue(buffers: Seq<IpcBuffer>, k: int)
    ensures
        buffers.len() == 0 <==> crate::ipc::read_basic::front_failure(buffers)
            == Some(Failure::ExpectedBuffer),
        buffers.len() > 0 ==> (crate::ipc::read_basic::front_failure(buffers) == Some(
            Failure::NegativeFooterLength,
        ) <==> buffers[0].offset < 0 || buffers[0].length < 0 || buffers[0].length > usize::MAX),
        crate::ipc::read_basic::front_failure(buffers) is None <==> buffers.len() > 0
            && buffers[0].offset >= 0 && 0
            <= buffers[0].length <= usize::MAX,
        crate::ipc::read_basic::without_front(buffers).len() == if buffers.len() == 0 {
            0
        } else {
            buffers.len() - 1
        },
        0 <= k < buffers.len() - 1 ==> crate::ipc::read_basic::without_front(buffers)[k]
            == buffers[k + 1],
{
}

/// The results that the contracts speak of are those of the calls.
pub proof fn law_contents_are_the_results<T>(
    values: Result<Vec<T>, Error>,
    buffer: Result<Buffer<T>, Error>,
    bitmap: Result<Bitmap, Error>,
    validity: Result<Option<Bitmap>, Error>,
)
    ensures
        match values {
            Ok(found) => crate::ipc::read_basic::contents(values) == Ok::<Seq<T>, Failure>(found@),
            Err(e) => crate::ipc::read_basic::contents(values) == Err::<Seq<T>, Failure>(e@),
        },
        match buffer {
            Ok(found) => crate::ipc::read_basic::buffer_contents(buffer)
                == Ok::<Seq<T>, Failure>(found@),
            Err(e) => crate::ipc::read_basic::buffer_contents(buffer) == Err::<Seq<T>, Failure>(e@),
        },
        match bitmap {
            Ok(found) => crate::ipc::read_basic::bitmap_contents(bitmap)
                == Ok::<Seq<bool>, Failure>(found@),
            Err(e) => crate::ipc::read_basic::bitmap_contents(bitmap)
                == Err::<Seq<bool>, Failure>(e@),
        },
        match validity {
            Ok(Some(found)) => crate::ipc::read_basic::validity_contents(validity)
                == Ok::<Option<Seq<bool>>, Failure>(
                Some(found@),
            ),
            Ok(None) => crate::ipc::read_basic::validity_contents(validity)
                == Ok::<Option<Seq<bool>>, Failure>(None),
            Err(e) => crate::ipc::read_basic::validity_contents(validity)
                == Err::<Option<Seq<bool>>, Failure>(e@),
        },
{
}

/// The byte order of the machine is what the machine says of the number one, and nothing else:
/// neither the type nor the file has a say in it.
pub proof fn law_machine_order_is_the_machines(native_little_endian: bool)
    requires
        crate::ipc::read_basic::is_machine_order(native_little_endian),
    ensures
        call_ensures(is_native_little_endian, (), native_little_endian),
        exists|one: [u8; 2]| #[trigger]
            crate::ipc::endianess::are_native_bytes_of_one(one) && native_little_endian == (
            crate::byte_order::le_value(one@) == 1),
{
}

/// Whether there is memory is what reserving it in an empty vector says, and nothing else.
pub proof fn law_memory_is_what_reserving_says(n: usize, reserved: bool)
    requires
        crate::ipc::read_basic::is_memory_had(n, reserved),
    ensures
        exists|space: &mut Vec<u8>, r: Result<(), TryReserveError>| #[trigger]
            call_ensures(Vec::<u8>::try_reserve, (space, n), r) && space@.len() == 0 && reserved
                == (r is Ok),
{
}

/// What reading an uncompressed buffer gives. It is refused, unread, where its slots take more
/// bytes than it has. Otherwise it is read where the file holds the slots: slot `i` is the
/// value of its own bytes, in the byte order of the file, whether or not that is the machine's.
/// Only a big endian machine refuses, and only a little endian file. The scratch space is left
/// alone.
pub proof fn law_uncompressed_slots<T: NativeType>(
    native_little_endian: bool,
    reserved: bool,
    rest: Seq<u8>,
    buffer_length: usize,
    length: usize,
    is_little_endian: bool,
    scratch: Seq<u8>,
    i: int,
)
    ensures
        ({
            let outcome = crate::ipc::read_basic::any_buffer::<T>(
                native_little_endian,
                reserved,
                rest,
                buffer_length,
                length,
                is_little_endian,
                None,
                scratch,
            );
            let size = T::spec_slot_size();
            let required = length * size;
            &&& outcome.scratch == scratch
            &&& if required > buffer_length {
                &&& outcome.read == 0
                &&& outcome.result == Err::<Seq<T>, Failure>(
                    Failure::InvalidBuffer {
                        length: length as int,
                        slot_type: T::spec_slot_type(),
                        required_number_of_bytes: if required <= usize::MAX {
                            required as int
                        } else {
                            usize::MAX as int
                        },
                        buffer_length: buffer_length as int,
                    },
                )
            } else if required > rest.len() {
                &&& outcome.read == 0
                &&& outcome.result == Err::<Seq<T>, Failure>(Failure::Io)
            } else if is_little_endian && !native_little_endian {
                &&& outcome.read == required
                &&& outcome.result == Err::<Seq<T>, Failure>(
                    Failure::NotYetImplemented(
                        "Reading little endian files from big endian machines"@,
                    ),
                )
            } else {
                &&& outcome.read == required
                &&& outcome.result matches Ok(values) && values.len() == length && (0 <= i < length
                    ==> values[i] == if is_little_endian {
                    T::spec_from_le(rest.subrange(i * size, i * size + size))
                } else {
                    T::spec_from_be(rest.subrange(i * size, i * size + size))
                })
            }
        }),
{
}

/// What reading a compressed buffer gives. It is refused, unread, where it is not in the byte
/// order of the machine, and where there is no memory for its bytes. Otherwise its bytes go into
/// the scratch space, as far as the file holds them; what lies behind the first eight of them
/// goes to the codec that its tag names, which gives as many bytes as the slots take; and slot
/// `i` is the value of its own bytes.
pub proof fn law_compressed_slots<T: NativeType>(
    native_little_endian: bool,
    reserved: bool,
    rest: Seq<u8>,
    buffer_length: usize,
    length: usize,
    is_little_endian: bool,
    compression: Compression,
    scratch: Seq<u8>,
    i: int,
)
    ensures
        ({
            let outcome = crate::ipc::read_basic::any_buffer::<T>(
                native_little_endian,
                reserved,
                rest,
                buffer_length,
                length,
                is_little_endian,
                Some(compression),
                scratch,
            );
            let size = T::spec_slot_size();
            let n = if buffer_length <= rest.len() {
                buffer_length as int
            } else {
                rest.len() as int
            };
            if is_little_endian != native_little_endian {
                &&& outcome.read == 0
                &&& outcome.scratch == scratch
                &&& outcome.result == Err::<Seq<T>, Failure>(
                    Failure::NotYetImplemented("Reading compressed and big endian IPC"@),
                )
            } else if !reserved {
                &&& outcome.read == 0
                &&& outcome.scratch.len() == 0
                &&& outcome.result == Err::<Seq<T>, Failure>(Failure::Overflow)
            } else {
                &&& outcome.read == n
                &&& outcome.scratch == rest.subrange(0, n)
                &&& match compression.codec {
                    None => outcome.result == Err::<Seq<T>, Failure>(
                        Failure::InvalidFlatbufferCompression(InvalidCodec::Unreadable),
                    ),
                    Some(tag) => if tag != 0 && tag != 1 {
                        outcome.result == Err::<Seq<T>, Failure>(
                            Failure::InvalidFlatbufferCompression(InvalidCodec::UnknownTag(tag)),
                        )
                    } else {
                        let given = if tag == 0 {
                            crate::ipc::compression::lz4_decoded(
                                rest.subrange(8, n),
                                (length * size) as nat,
                            )
                        } else {
                            crate::ipc::compression::zstd_decoded(
                                rest.subrange(8, n),
                                (length * size) as nat,
                            )
                        };
                        n >= 8 ==> match given {
                            None => outcome.result == Err::<Seq<T>, Failure>(Failure::Io),
                            Some(bytes) => outcome.result matches Ok(values) && values.len()
                                == length && (0 <= i < length ==> values[i]
                                == if is_little_endian {
                                T::spec_from_le(bytes.subrange(i * size, i * size + size))
                            } else {
                                T::spec_from_be(bytes.subrange(i * size, i * size + size))
                            }),
                        }
                    },
                }
            }
        }),
{
    let taken = crate::ipc::reader::at_most(rest, buffer_length as nat);
    let n = taken.len() as int;
    assert(taken =~= rest.subrange(0, n));
    if n >= 8 {
        assert(taken.subrange(8, n) =~= rest.subrange(8, n));
    }
}

/// The tags of the codecs: 0 is that of LZ4 frames and 1 that of Zstandard.
pub proof fn law_codecs_have_tags(compression: Compression)
    ensures
        compression.spec_codec() == Ok::<CompressionType, InvalidCodec>(CompressionType::Lz4Frame)
            <==> compression.codec == Some(0i8),
        compression.spec_codec() == Ok::<CompressionType, InvalidCodec>(CompressionType::Zstd)
            <==> compression.codec == Some(1i8),
        compression.spec_codec() == Err::<CompressionType, InvalidCodec>(InvalidCodec::Unreadable)
            <==> compression.codec is None,
        compression.codec matches Some(tag) ==> tag == 0 || tag == 1 || compression.spec_codec()
            == Err::<CompressionType, InvalidCodec>(InvalidCodec::UnknownTag(tag)),
        forall|input: Seq<u8>, n: nat| #[trigger]
            crate::ipc::compression::decoded(CompressionType::Lz4Frame, input, n)
                == crate::ipc::compression::lz4_decoded(input, n),
        forall|input: Seq<u8>, n: nat| #[trigger]
            crate::ipc::compression::decoded(CompressionType::Zstd, input, n)
                == crate::ipc::compression::zstd_decoded(input, n),
{
}

/// Big endian slots are read into the first slots of a buffer; what is behind them stays.
pub proof fn law_swapped_slots<T: NativeType>(
    rest: Seq<u8>,
    length: nat,
    buffer: Seq<T>,
    i: int,
)
    requires
        0 <= i < buffer.len(),
    ensures
        ({
            let size = T::spec_slot_size();
            let after = crate::ipc::read_basic::swapped_into::<T>(rest, length, buffer);
            &&& after.len() == buffer.len()
            &&& after[i] == if i < length {
                T::spec_from_be(rest.subrange(i * size, i * size + size))
            } else {
                buffer[i]
            }
        }),
{
}

/// A slot is read in the byte order that is asked for.
pub proof fn law_slot_has_a_byte_order<T: NativeType>(bytes: Seq<u8>)
    ensures
        crate::ipc::read_basic::value_of::<T>(bytes, true) == T::spec_from_le(bytes),
        crate::ipc::read_basic::value_of::<T>(bytes, false) == T::spec_from_be(bytes),
{
}

/// What reading a bitmap gives, for the bytes that the reader is at. An uncompressed one is
/// refused, unread, where its buffer has fewer bits, and without memory for its bytes; otherwise
/// its bytes are read, as far as the file holds them, and it is refused where those have fewer
/// bits. Bit `i` is bit `i % 8`, from the least significant, of byte `i / 8`.
pub proof fn law_uncompressed_bits(
    reserved: bool,
    rest: Seq<u8>,
    length: usize,
    bytes: usize,
    scratch: Seq<u8>,
    i: int,
)
    ensures
        ({
            let outcome = crate::ipc::read_basic::any_bitmap(reserved, rest, length, bytes, None,
                scratch);
            let n = if bytes <= rest.len() {
                bytes as int
            } else {
                rest.len() as int
            };
            &&& outcome.scratch == scratch
            &&& if length > bytes * 8 {
                &&& outcome.read == 0
                &&& outcome.result == Err::<Seq<bool>, Failure>(
                    Failure::InvalidBitmap { length: length as int, number_of_bits: bytes * 8 },
                )
            } else if !reserved {
                &&& outcome.read == 0
                &&& outcome.result == Err::<Seq<bool>, Failure>(Failure::Overflow)
            } else if length > n * 8 {
                &&& outcome.read == n
                &&& outcome.result == Err::<Seq<bool>, Failure>(
                    Failure::BitmapTooShort { length: length as int, number_of_bits: n * 8 },
                )
            } else {
                &&& outcome.read == n
                &&& outcome.result matches Ok(bits) && bits.len() == length && (0 <= i < length
                    ==> bits[i] == ((rest[i / 8] as int / vstd::arithmetic::power2::pow2((i % 8)
                        as nat) as int) % 2 == 1))
            }
        }),
{
    let taken = crate::ipc::reader::at_most(rest, bytes as nat);
    if 0 <= i < length && length <= taken.len() * 8 {
        crate::bitmap::law_bit_is_digit(taken, i);
        assert(taken[i / 8] == rest[i / 8]);
    }
}

/// What reading a compressed bitmap gives: the bits of what the codec gives for the bytes behind
/// the first eight, which it is asked for as many bytes of as the bits need.
pub proof fn law_compressed_bits(
    reserved: bool,
    rest: Seq<u8>,
    length: usize,
    bytes: usize,
    compression: Compression,
    scratch: Seq<u8>,
    i: int,
)
    ensures
        ({
            let outcome = crate::ipc::read_basic::any_bitmap(reserved, rest, length, bytes,
                Some(compression), scratch);
            let n = if bytes <= rest.len() {
                bytes as int
            } else {
                rest.len() as int
            };
            if !reserved {
                &&& outcome.read == 0
                &&& outcome.scratch.len() == 0
                &&& outcome.result == Err::<Seq<bool>, Failure>(Failure::Overflow)
            } else {
                &&& outcome.read == n
                &&& outcome.scratch == rest.subrange(0, n)
                &&& match compression.codec {
                    None => outcome.result == Err::<Seq<bool>, Failure>(
                        Failure::InvalidFlatbufferCompression(InvalidCodec::Unreadable),
                    ),
                    Some(tag) => if tag != 0 && tag != 1 {
                        outcome.result == Err::<Seq<bool>, Failure>(
                            Failure::InvalidFlatbufferCompression(InvalidCodec::UnknownTag(tag)),
                        )
                    } else {
                        let given = if tag == 0 {
                            crate::ipc::compression::lz4_decoded(
                                rest.subrange(8, n),
                                ((length + 7) / 8) as nat,
                            )
                        } else {
                            crate::ipc::compression::zstd_decoded(
                                rest.subrange(8, n),
                                ((length + 7) / 8) as nat,
                            )
                        };
                        n >= 8 ==> match given {
                            None => outcome.result == Err::<Seq<bool>, Failure>(Failure::Io),
                            Some(found) => if length > found.len() * 8 {
                                outcome.result == Err::<Seq<bool>, Failure>(
                                    Failure::BitmapTooShort {
                                        length: length as int,
                                        number_of_bits: (found.len() * 8) as int,
                                    },
                                )
                            } else {
                                outcome.result matches Ok(bits) && bits.len() == length && (0
                                    <= i < length ==> bits[i]
                                        == ((found[i / 8] as int /
                                            vstd::arithmetic::power2::pow2((i % 8) as nat) as int)
                                                % 2 == 1))
                            },
                        }
                    },
                }
            }
        }),
{
    let taken = crate::ipc::reader::at_most(rest, bytes as nat);
    let n = taken.len() as int;
    assert(taken =~= rest.subrange(0, n));
    if n >= 8 {
        assert(taken.subrange(8, n) =~= rest.subrange(8, n));
        if let Ok(found) = crate::ipc::read_basic::decompressed(compression, taken, ((length
            + 7) / 8) as nat) {
            if 0 <= i < length && length <= found.len() * 8 {
                crate::bitmap::law_bit_is_digit(found, i);
            }
        }
    }
}

/// The bytes of a bitmap are all that its buffer has, as far as the file holds them; those of a
/// compressed one are what its codec gives.
pub proof fn law_bitmap_bytes(
    rest: Seq<u8>,
    length: usize,
    bytes: usize,
    compression: Compression,
    scratch: Seq<u8>,
)
    ensures
        ({
            let n = if bytes <= rest.len() {
                bytes as int
            } else {
                rest.len() as int
            };
            let plain = crate::ipc::read_basic::uncompressed_bitmap(true, rest, length, bytes,
                scratch);
            let packed = crate::ipc::read_basic::compressed_bitmap(true, rest, length, bytes,
                compression);
            &&& length <= bytes * 8 ==> plain.result == Ok::<Seq<u8>, Failure>(rest.subrange(0, n))
                && plain.read == n && plain.scratch == scratch
            &&& packed.read == n && packed.scratch == rest.subrange(0, n)
            &&& n >= 8 && compression.codec == Some(0i8) ==> packed.result == (
            match crate::ipc::compression::lz4_decoded(
                rest.subrange(8, n),
                ((length + 7) / 8) as nat,
            ) {
                Some(found) => Ok::<Seq<u8>, Failure>(found),
                None => Err(Failure::Io),
            })
            &&& n >= 8 && compression.codec == Some(1i8) ==> packed.result == (
            match crate::ipc::compression::zstd_decoded(
                rest.subrange(8, n),
                ((length + 7) / 8) as nat,
            ) {
                Some(found) => Ok::<Seq<u8>, Failure>(found),
                None => Err(Failure::Io),
            })
        }),
{
    let taken = crate::ipc::reader::at_most(rest, bytes as nat);
    let n = taken.len() as int;
    assert(taken =~= rest.subrange(0, n));
    if n >= 8 {
        assert(taken.subrange(8, n) =~= rest.subrange(8, n));
    }
}

/// A bitmap is read at its place: from the byte of the file that lies `offset` behind the start
/// of the body. Nothing is read of a front that something is wrong with.
pub proof fn law_bitmap_is_read_at_its_place(
    reserved: bool,
    buffers: Seq<IpcBuffer>,
    length: usize,
    data: Seq<u8>,
    position: int,
    block_offset: u64,
    is_little_endian: bool,
    compression: Option<Compression>,
    scratch: Seq<u8>,
)
    ensures
        ({
            let read = crate::ipc::read_basic::bitmap_read(
                reserved,
                buffers,
                length,
                data,
                position,
                block_offset,
                is_little_endian,
                compression,
                scratch,
            );
            if buffers.len() == 0 {
                read == (Err::<Seq<bool>, Failure>(Failure::ExpectedBuffer), position, scratch)
            } else if buffers[0].offset < 0 || buffers[0].length < 0 || buffers[0].length
                > usize::MAX {
                read == (
                    Err::<Seq<bool>, Failure>(Failure::NegativeFooterLength),
                    position,
                    scratch,
                )
            } else {
                let start = block_offset + buffers[0].offset;
                let outcome = crate::ipc::read_basic::any_bitmap(
                    reserved,
                    if start <= data.len() {
                        data.subrange(start, data.len() as int)
                    } else {
                        Seq::empty()
                    },
                    length,
                    buffers[0].length as usize,
                    compression,
                    scratch,
                );
                read == (outcome.result, start + outcome.read, outcome.scratch)
            }
        }),
{
}

/// The validity of a field, in terms of the file. Where the field has nulls and its bitmap is
/// not compressed, and there is memory for the bytes, it is there exactly when the buffer and the
/// file have bits enough, and bit `i` is bit `i % 8` of the byte `i / 8` at its place, however
/// many nulls there are. Where it has none, there is no bitmap, and nothing is read.
pub proof fn law_validity_of_a_field(
    buffers: Seq<IpcBuffer>,
    field_node: Node,
    data: Seq<u8>,
    position: int,
    block_offset: u64,
    is_little_endian: bool,
    scratch: Seq<u8>,
    i: int,
)
    ensures
        ({
            let read = crate::ipc::read_basic::validity_read(
                true,
                buffers,
                field_node,
                data,
                position,
                block_offset,
                is_little_endian,
                None,
                scratch,
            );
            &&& read.2 == scratch
            &&& if field_node.length < 0 || field_node.length > usize::MAX {
                &&& read.0 == Err::<Option<Seq<bool>>, Failure>(Failure::NegativeFooterLength)
                &&& read.1 == position
            } else if buffers.len() == 0 {
                &&& read.0 == Err::<Option<Seq<bool>>, Failure>(Failure::ExpectedBuffer)
                &&& read.1 == position
            } else if field_node.null_count <= 0 {
                &&& read.0 == Ok::<Option<Seq<bool>>, Failure>(None)
                &&& read.1 == position
            } else if buffers[0].offset < 0 || buffers[0].length < 0 || buffers[0].length
                > usize::MAX {
                &&& read.0 == Err::<Option<Seq<bool>>, Failure>(Failure::NegativeFooterLength)
                &&& read.1 == position
            } else {
                let start = block_offset + buffers[0].offset;
                let left = if start <= data.len() {
                    data.len() - start
                } else {
                    0
                };
                &&& read.0 is Ok <==> field_node.length <= buffers[0].length * 8
                    && field_node.length <= left * 8
                &&& read.0 matches Ok(found) ==> (found matches Some(bits) && bits.len()
                    == field_node.length && (0 <= i < field_node.length ==> bits[i]
                        == ((data[start + i / 8] as int / vstd::arithmetic::power2::pow2((i % 8)
                            as nat) as int) % 2 == 1)))
            }
        }),
{
    if buffers.len() > 0 && buffers[0].offset >= 0 && 0 <= buffers[0].length <= usize::MAX {
        let start = block_offset + buffers[0].offset;
        let rest = crate::ipc::reader::bytes_from(data, start);
        law_uncompressed_bits(
            true,
            rest,
            field_node.length as usize,
            buffers[0].length as usize,
            scratch,
            i,
        );
        if 0 <= i < field_node.length && field_node.length <= rest.len() * 8 {
            assert(rest[i / 8] == data[start + i / 8]);
        }
    }
}

/// The number of slots of a field can be counted when it is not negative and fits.
pub proof fn law_fields_have_a_length(field_node: Node)
    ensures
        field_node.has_length() <==> 0 <= field_node.length <= usize::MAX,
{
}

/// What a caller owes for a buffer: that its slots, where they are read, take no more bytes than
/// memory can have; and for a compressed one in the byte order of the machine, whose codec is
/// known, also the eight bytes in front.
pub proof fn law_what_buffers_need<T: NativeType>(
    native_little_endian: bool,
    reserved: bool,
    rest: Seq<u8>,
    buffer_length: usize,
    length: usize,
    is_little_endian: bool,
    compression: Option<Compression>,
)
    ensures
        ({
            let required = length * T::spec_slot_size();
            let with_prefix = buffer_length >= 8 && rest.len() >= 8;
            let known = compression matches Some(c) && (c.codec == Some(0i8) || c.codec == Some(
                1i8,
            ));
            &&& crate::ipc::read_basic::readable::<T>(rest, buffer_length, length, compression)
                <==> if compression is Some {
                required <= isize::MAX && (known ==> with_prefix)
            } else {
                (required <= buffer_length ==> required <= isize::MAX) && (required > usize::MAX
                    ==> buffer_length < usize::MAX)
            }
            &&& crate::ipc::read_basic::readable_on::<T>(
                native_little_endian,
                reserved,
                rest,
                buffer_length,
                length,
                is_little_endian,
                compression,
            ) <==> if compression is Some {
                is_little_endian == native_little_endian ==> required <= isize::MAX && (reserved
                    && known ==> with_prefix)
            } else {
                (required <= buffer_length ==> required <= isize::MAX) && (required > usize::MAX
                    ==> buffer_length < usize::MAX)
            }
            &&& crate::ipc::read_basic::within_memory::<T>(buffer_length, length) <==> (required
                <= buffer_length
                ==> required <= isize::MAX) && (required > usize::MAX ==> buffer_length
                < usize::MAX)
        }),
{
}

/// What a caller owes for a bitmap: that its bits can be counted, and for a compressed one whose
/// codec is known also the eight bytes in front.
pub proof fn law_what_bitmaps_need(
    reserved: bool,
    rest: Seq<u8>,
    length: usize,
    bytes: usize,
    compression: Option<Compression>,
)
    ensures
        ({
            let with_prefix = bytes >= 8 && rest.len() >= 8;
            let known = compression matches Some(c) && (c.codec == Some(0i8) || c.codec == Some(
                1i8,
            ));
            &&& crate::ipc::read_basic::bitmap_readable(rest, length, bytes, compression)
                <==> if compression is Some {
                length + 7 <= usize::MAX && (known ==> with_prefix)
            } else {
                bytes * 8 <= usize::MAX
            }
            &&& crate::ipc::read_basic::bitmap_readable_on(reserved, rest, length, bytes,
                compression)
                <==> if compression is Some {
                length + 7 <= usize::MAX && (reserved && known ==> with_prefix)
            } else {
                bytes * 8 <= usize::MAX
            }
        }),
{
}

/// What a caller owes for the front of a queue: that its place can be pointed to, and what its
/// bitmap needs, where nothing is wrong with it.
pub proof fn law_what_fronts_need(
    reserved: bool,
    buffers: Seq<IpcBuffer>,
    length: usize,
    data: Seq<u8>,
    block_offset: u64,
    compression: Option<Compression>,
)
    ensures
        ({
            let sound = buffers.len() > 0 && buffers[0].offset >= 0 && 0 <= buffers[0].length
                <= usize::MAX;
            let rest = crate::ipc::reader::bytes_from(data, block_offset + buffers[0].offset);
            &&& crate::ipc::read_basic::front_in_reach(buffers, block_offset) <==> (sound
                ==> block_offset
                + buffers[0].offset <= u64::MAX)
            &&& crate::ipc::read_basic::front_bitmap_readable(buffers, length, data, block_offset,
                compression)
                <==> crate::ipc::read_basic::front_in_reach(buffers, block_offset) && (sound
                    ==> crate::ipc::read_basic::bitmap_readable(
                rest,
                length,
                buffers[0].length as usize,
                compression,
            ))
            &&& crate::ipc::read_basic::front_bitmap_readable_on(
                reserved,
                buffers,
                length,
                data,
                block_offset,
                compression,
            ) <==> crate::ipc::read_basic::front_in_reach(buffers, block_offset) && (sound
                ==> crate::ipc::read_basic::bitmap_readable_on(
                reserved,
                rest,
                length,
                buffers[0].length as usize,
                compression,
            ))
        }),
{
}

} // verus!
