//! The errors of this crate.
use vstd::prelude::*;

verus! {

/// `std::io::Error`: carried, never looked into.
#[verifier::external_type_specification]
#[verifier::external_body]
pub struct ExIoError(std::io::Error);

/// Why the codec of a compressed message body is unknown.
#[derive(Debug, Clone, Copy, PartialEq, Eq, Structural)]
pub enum InvalidCodec {
    /// The field holds a tag that names no codec.
    UnknownTag(i8),
    /// The field cannot be read from its table.
    Unreadable,
}

/// The ways in which an IPC message can be out of specification.
#[derive(Debug, Clone, Copy)]
pub enum OutOfSpecKind {
    /// The message declares fewer buffers than its fields need.
    ExpectedBuffer,
    /// An offset or a length is negative or does not fit in memory.
    NegativeFooterLength,
    /// A buffer is too short for the slots that it should hold.
    InvalidBuffer {
        /// The number of slots
        length: usize,
        /// The physical type of each slot
        slot_type: &'static str,
        /// The number of bytes that the slots need, at most `usize::MAX`
        required_number_of_bytes: usize,
        /// The number of bytes that the buffer has
        buffer_length: usize,
    },
    /// A bitmap is too short for the slots that it should hold.
    InvalidBitmap {
        /// The number of slots
        length: usize,
        /// The number of bits that the buffer has
        number_of_bits: usize,
    },
    /// The compression of the body is unknown.
    InvalidFlatbufferCompression(InvalidCodec),
}

/// An error of this crate.
#[derive(Debug)]
pub enum Error {
    /// What was asked for is not available.
    NotYetImplemented(String),
    /// The incoming data does not follow the Arrow specification.
    OutOfSpec(String),
    /// The incoming IPC message does not follow the Arrow specification.
    Ipc(OutOfSpecKind),
    /// A bitmap was asked to hold more bits than its bytes have.
    BitmapTooShort {
        /// The number of bits asked for
        length: usize,
        /// The number of bits there are
        number_of_bits: usize,
    },
    /// Reading or decompressing failed.
    Io(std::io::Error),
    /// There is no memory for what was asked for.
    Overflow,
}

/// What an error says, as a value: texts by their characters, and an error of
/// `std::io` only as such.
pub enum Failure {
    NotYetImplemented(Seq<char>),
    OutOfSpec(Seq<char>),
    ExpectedBuffer,
    NegativeFooterLength,
    InvalidBuffer {
        length: int,
        slot_type: Seq<char>,
        required_number_of_bytes: int,
        buffer_length: int,
    },
    InvalidBitmap { length: int, number_of_bits: int },
    InvalidFlatbufferCompression(InvalidCodec),
    BitmapTooShort { length: int, number_of_bits: int },
    Io,
    Overflow,
}

impl View for OutOfSpecKind {
    type V = Failure;

    open spec fn view(&self) -> Failure {
        match *self {
            OutOfSpecKind::ExpectedBuffer => Failure::ExpectedBuffer,
            OutOfSpecKind::NegativeFooterLength => Failure::NegativeFooterLength,
            OutOfSpecKind::InvalidBuffer {
                length,
                slot_type,
                required_number_of_bytes,
                buffer_length,
            } => Failure::InvalidBuffer {
                length: length as int,
                slot_type: slot_type@,
                required_number_of_bytes: required_number_of_bytes as int,
                buffer_length: buffer_length as int,
            },
            OutOfSpecKind::InvalidBitmap { length, number_of_bits } => Failure::InvalidBitmap {
                length: length as int,
                number_of_bits: number_of_bits as int,
            },
            OutOfSpecKind::InvalidFlatbufferCompression(codec) => {
                Failure::InvalidFlatbufferCompression(codec)
            },
        }
    }
}

impl View for Error {
    type V = Failure;

    open spec fn view(&self) -> Failure {
        match *self {
            Error::NotYetImplemented(message) => Failure::NotYetImplemented(message@),
            Error::OutOfSpec(message) => Failure::OutOfSpec(message@),
            Error::Ipc(kind) => kind@,
            Error::BitmapTooShort { length, number_of_bits } => Failure::BitmapTooShort {
                length: length as int,
                number_of_bits: number_of_bits as int,
            },
            Error::Io(_) => Failure::Io,
            Error::Overflow => Failure::Overflow,
        }
    }
}

impl From<OutOfSpecKind> for Error {
    fn from(kind: OutOfSpecKind) -> (r: Self) {
        Error::Ipc(kind)
    }
}

impl vstd::std_specs::convert::FromSpecImpl<OutOfSpecKind> for Error {
    open spec fn obeys_from_spec() -> bool {
        true
    }

    open spec fn from_spec(kind: OutOfSpecKind) -> Self {
        Error::Ipc(kind)
    }
}

impl Error {
    /// Whether this is an [`Error::OutOfSpec`] with the given text.
    pub open spec fn is_out_of_spec(self, message: Seq<char>) -> bool {
        self matches Error::OutOfSpec(m) && m@ == message
    }

    /// Whether this is an [`Error::NotYetImplemented`] with the given text.
    pub open spec fn is_not_yet_implemented(self, message: Seq<char>) -> bool {
        self matches Error::NotYetImplemented(m) && m@ == message
    }
}

/// What an error says is what it was made with.
pub proof fn law_errors_say_what_they_are(e: Error)
    ensures
        match e {
            Error::NotYetImplemented(message) => e@ == Failure::NotYetImplemented(message@),
            Error::OutOfSpec(message) => e@ == Failure::OutOfSpec(message@),
            Error::Ipc(OutOfSpecKind::ExpectedBuffer) => e@ == Failure::ExpectedBuffer,
            Error::Ipc(OutOfSpecKind::NegativeFooterLength) => e@ == Failure::NegativeFooterLength,
            Error::Ipc(
                OutOfSpecKind::InvalidBuffer {
                    length,
                    slot_type,
                    required_number_of_bytes,
                    buffer_length,
                },
            ) => e@ == (Failure::InvalidBuffer {
                length: length as int,
                slot_type: slot_type@,
                required_number_of_bytes: required_number_of_bytes as int,
                buffer_length: buffer_length as int,
            }),
            Error::Ipc(OutOfSpecKind::InvalidBitmap { length, number_of_bits }) => e@ == (
            Failure::InvalidBitmap {
                length: length as int,
                number_of_bits: number_of_bits as int,
            }),
            Error::Ipc(OutOfSpecKind::InvalidFlatbufferCompression(codec)) => e@
                == Failure::InvalidFlatbufferCompression(codec),
            Error::BitmapTooShort { length, number_of_bits } => e@ == (Failure::BitmapTooShort {
                length: length as int,
                number_of_bits: number_of_bits as int,
            }),
            Error::Io(_) => e@ == Failure::Io,
            Error::Overflow => e@ == Failure::Overflow,
        },
        forall|message: Seq<char>| #[trigger]
            e.is_out_of_spec(message) <==> e@ == Failure::OutOfSpec(message),
        forall|message: Seq<char>| #[trigger]
            e.is_not_yet_implemented(message) <==> e@ == Failure::NotYetImplemented(message),
{
}

} // verus!
