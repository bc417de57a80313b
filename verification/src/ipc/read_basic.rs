//! Reading the buffers that a record batch is made of.
use std::collections::{TryReserveError, VecDeque};
use vstd::prelude::*;
use vstd::slice::slice_subrange;

use crate::arith::saturating_product;
use crate::bitmap::Bitmap;
use crate::buffer::{buffer_from_vec, Buffer};
use crate::error::{Error, Failure, OutOfSpecKind};
use crate::ipc::compression::{decompress, Compression};
use crate::ipc::endianess::is_native_little_endian;
use crate::ipc::reader::ByteReader;
use crate::types::NativeType;

verus! {

/// Where a buffer lies in the body of a message.
#[derive(Debug, Clone, Copy, PartialEq, Eq, Structural)]
pub struct IpcBuffer {
    pub offset: i64,
    pub length: i64,
}

/// How many slots a field has, and how many of them are null.
#[derive(Debug, Clone, Copy, PartialEq, Eq, Structural)]
pub struct Node {
    pub length: i64,
    pub null_count: i64,
}

/// Whether this can be this machine's byte order: it is what the machine says.
pub open spec fn is_machine_order(native_little_endian: bool) -> bool {
    call_ensures(is_native_little_endian, (), native_little_endian)
}

/// Whether `reserved` can say whether there is memory for `n` bytes: it is whether
/// reserving them in an empty vector succeeds.
pub open spec fn is_memory_had(n: usize, reserved: bool) -> bool {
    exists|space: &mut Vec<u8>, r: Result<(), TryReserveError>| #[trigger]
        call_ensures(Vec::<u8>::try_reserve, (space, n), r) && space@.len() == 0 && reserved == (
        r is Ok)
}

/// The values of `length` slots, the first of which starts at the first byte.
pub open spec fn values_of<T: NativeType>(
    bytes: Seq<u8>,
    length: nat,
    is_little_endian: bool,
) -> Seq<T> {
    Seq::new(
        length,
        |i: int| value_of::<T>(crate::types::piece(bytes, T::spec_slot_size(), i), is_little_endian),
    )
}

/// The value of one slot.
pub open spec fn value_of<T: NativeType>(bytes: Seq<u8>, is_little_endian: bool) -> T {
    if is_little_endian {
        T::spec_from_le(bytes)
    } else {
        T::spec_from_be(bytes)
    }
}

/// Slots that a buffer of `buffer_length` bytes could hold fit in memory.
pub open spec fn within_memory<T: NativeType>(buffer_length: usize, length: usize) -> bool {
    let required = length * T::spec_slot_size();
    &&& required <= buffer_length ==> required <= isize::MAX
    &&& required > usize::MAX ==> buffer_length < usize::MAX
}

/// What reading `length` slots of a buffer of `buffer_length` bytes gives, when `rest`
/// is what can be read.
pub open spec fn uncompressed_values<T: NativeType>(
    native_little_endian: bool,
    rest: Seq<u8>,
    buffer_length: usize,
    length: usize,
    is_little_endian: bool,
) -> Result<Seq<T>, Failure> {
    let required = length * T::spec_slot_size();
    if required > buffer_length {
        Err(
            Failure::InvalidBuffer {
                length: length as int,
                slot_type: T::spec_slot_type(),
                required_number_of_bytes: if required <= usize::MAX {
                    required as int
                } else {
                    usize::MAX as int
                },
                buffer_length: buffer_length as int,
            },
        )
    } else if rest.len() < required {
        Err(Failure::Io)
    } else if is_little_endian && !native_little_endian {
        Err(
            Failure::NotYetImplemented(
                "Reading little endian files from big endian machines"@,
            ),
        )
    } else {
        Ok(values_of::<T>(rest, length as nat, is_little_endian))
    }
}

/// How many bytes that takes.
pub open spec fn uncompressed_read<T: NativeType>(
    rest: Seq<u8>,
    buffer_length: usize,
    length: usize,
) -> nat {
    let required = (length * T::spec_slot_size()) as nat;
    if required <= buffer_length && required <= rest.len() {
        required
    } else {
        0
    }
}

/// What a call that reads comes to: its result, how many bytes it read, and what it
/// left in the scratch space.
pub struct Outcome<V> {
    pub result: Result<V, Failure>,
    pub read: int,
    pub scratch: Seq<u8>,
}

/// The result of a call, as a value.
pub open spec fn contents<T>(r: Result<Vec<T>, Error>) -> Result<Seq<T>, Failure> {
    match r {
        Ok(values) => Ok(values@),
        Err(e) => Err(e@),
    }
}

proof fn lemma_piece_of_prefix(bytes: Seq<u8>, n: nat, size: nat, i: int)
    requires
        n * size <= bytes.len(),
        0 <= i < n,
    ensures
        crate::types::piece(bytes.subrange(0, (n * size) as int), size, i) == crate::types::piece(
            bytes,
            size,
            i,
        ),
{
    assert(0 <= i * size && i * size + size <= n * size) by (nonlinear_arith)
        requires
            0 <= i < n,
    ;
    assert(crate::types::piece(bytes.subrange(0, (n * size) as int), size, i)
        =~= crate::types::piece(bytes, size, i));
}

/// The values of the slots.
pub fn values_from_slots<T: NativeType>(slots: &Vec<T::Bytes>, is_little_endian: bool) -> (r: Vec<
    T,
>)
    ensures
        r@.len() == slots@.len(),
        forall|i: int|
            0 <= i < slots@.len() ==> #[trigger] r@[i] == value_of::<T>(
                T::spec_bytes(slots@[i]),
                is_little_endian,
            ),
{
    let mut values: Vec<T> = Vec::with_capacity(slots.len());
    while values.len() < slots.len()
        invariant
            values@.len() <= slots@.len(),
            forall|i: int|
                0 <= i < values@.len() ==> #[trigger] values@[i] == value_of::<T>(
                    T::spec_bytes(slots@[i]),
                    is_little_endian,
                ),
        decreases slots@.len() - values@.len(),
    {
        let slot = slots[values.len()];
        let value = if is_little_endian {
            T::from_le_bytes(slot)
        } else {
            T::from_be_bytes(slot)
        };
        values.push(value);
    }
    values
}

/// Reads the bytes of `length` slots.
fn read_slots<T: NativeType>(reader: &mut ByteReader<'_>, length: usize) -> (r: Result<
    Vec<T::Bytes>,
    Error,
>)
    requires
        length * T::spec_slot_size() <= isize::MAX,
    ensures
        final(reader).data == old(reader).data,
        match r {
            Ok(slots) => {
                &&& length * T::spec_slot_size() <= old(reader).rest().len()
                &&& slots@.len() == length
                &&& forall|i: int|
                    0 <= i < length ==> T::spec_bytes(#[trigger] slots@[i]) == crate::types::piece(
                        old(reader).rest(),
                        T::spec_slot_size(),
                        i,
                    )
                &&& final(reader).position == old(reader).position + length * T::spec_slot_size()
            },
            Err(e) => {
                &&& e is Io
                &&& length * T::spec_slot_size() > old(reader).rest().len()
                &&& final(reader).position == old(reader).position
            },
        },
{
    let mut slots = T::zeroed(length);
    let outcome = {
        let bytes = T::as_bytes_mut(&mut slots);
        reader.read_exact(bytes)
    };
    match outcome {
        Ok(_) => {
            proof {
                assert forall|i: int| 0 <= i < length implies T::spec_bytes(#[trigger] slots@[i])
                    == crate::types::piece(old(reader).rest(), T::spec_slot_size(), i) by {
                    lemma_piece_of_prefix(
                        old(reader).rest(),
                        length as nat,
                        T::spec_slot_size(),
                        i,
                    );
                }
            }
            Ok(slots)
        },
        Err(e) => Err(Error::Io(e)),
    }
}

/// What `buffer` holds once `length` big endian slots were read into its first slots.
pub open spec fn swapped_into<T: NativeType>(rest: Seq<u8>, length: nat, buffer: Seq<T>) -> Seq<T> {
    Seq::new(
        buffer.len(),
        |i: int|
            if i < length {
                values_of::<T>(rest, length, false)[i]
            } else {
                buffer[i]
            },
    )
}

/// Reads `length` slots whose bytes are in the order that is not this machine's, into
/// the first slots of `buffer`.
///
/// # Error
/// Errors when there are too few bytes, and when the slots are little endian, which is
/// not implemented.
pub fn read_swapped<T: NativeType>(
    reader: &mut ByteReader<'_>,
    length: usize,
    buffer: &mut Vec<T>,
    is_little_endian: bool,
) -> (r: Result<(), Error>)
    requires
        length * T::spec_slot_size() <= isize::MAX,
    ensures
        final(reader).data == old(reader).data,
        if length * T::spec_slot_size() > old(reader).rest().len() {
            &&& r matches Err(Error::Io(_))
            &&& final(reader).position == old(reader).position
            &&& final(buffer)@ == old(buffer)@
        } else if is_little_endian {
            &&& r matches Err(e) && e.is_not_yet_implemented(
                "Reading little endian files from big endian machines"@,
            )
            &&& final(reader).position == old(reader).position + length * T::spec_slot_size()
            &&& final(buffer)@ == old(buffer)@
        } else {
            &&& r is Ok
            &&& final(reader).position == old(reader).position + length * T::spec_slot_size()
            &&& final(buffer)@ == swapped_into::<T>(
                old(reader).rest(),
                length as nat,
                old(buffer)@,
            )
        },
{
    let slots = match read_slots::<T>(reader, length) {
        Ok(slots) => slots,
        Err(e) => {
            return Err(e);
        },
    };
    if is_little_endian {
        // this machine is big endian
        return Err(
            Error::NotYetImplemented(
                "Reading little endian files from big endian machines".to_owned(),
            ),
        );
    }
    // this machine is little endian
    let mut i: usize = 0;
    while i < buffer.len() && i < length
        invariant
            i <= length,
            i <= buffer@.len(),
            slots@.len() == length,
            buffer@.len() == old(buffer)@.len(),
            forall|k: int|
                0 <= k < length ==> T::spec_bytes(#[trigger] slots@[k]) == crate::types::piece(
                    old(reader).rest(),
                    T::spec_slot_size(),
                    k,
                ),
            forall|k: int|
                0 <= k < buffer@.len() ==> #[trigger] buffer@[k] == if k < i {
                    values_of::<T>(old(reader).rest(), length as nat, false)[k]
                } else {
                    old(buffer)@[k]
                },
        decreases length - i,
    {
        let value = T::from_be_bytes(slots[i]);
        buffer.set(i, value);
        i = i + 1;
    }
    assert(buffer@ =~= swapped_into::<T>(old(reader).rest(), length as nat, old(buffer)@));
    Ok(())
}

/// The number of bytes that `length` slots take of a buffer of `buffer_length` bytes.
///
/// # Error
/// Errors when the buffer has fewer.
pub fn required_bytes<T: NativeType>(buffer_length: usize, length: usize) -> (r: Result<
    usize,
    Error,
>)
    requires
        within_memory::<T>(buffer_length, length),
    ensures
        match r {
            Ok(n) => n == length * T::spec_slot_size() <= buffer_length,
            Err(e) => {
                &&& length * T::spec_slot_size() > buffer_length
                &&& e@ == (Failure::InvalidBuffer {
                    length: length as int,
                    slot_type: T::spec_slot_type(),
                    required_number_of_bytes: if length * T::spec_slot_size() <= usize::MAX {
                        length * T::spec_slot_size()
                    } else {
                        usize::MAX as int
                    },
                    buffer_length: buffer_length as int,
                })
            },
        },
{
    let required_number_of_bytes = saturating_product(length, T::slot_size());
    if required_number_of_bytes > buffer_length {
        return Err(
            Error::from(
                OutOfSpecKind::InvalidBuffer {
                    length,
                    slot_type: T::slot_type(),
                    required_number_of_bytes,
                    buffer_length,
                },
            ),
        );
    }
    Ok(required_number_of_bytes)
}

/// [`read_uncompressed_buffer`] on a machine of the given byte order.
pub fn read_uncompressed_buffer_on<T: NativeType>(
    native_little_endian: bool,
    reader: &mut ByteReader<'_>,
    buffer_length: usize,
    length: usize,
    is_little_endian: bool,
) -> (r: Result<Vec<T>, Error>)
    requires
        within_memory::<T>(buffer_length, length),
    ensures
        contents(r) == uncompressed_values::<T>(
            native_little_endian,
            old(reader).rest(),
            buffer_length,
            length,
            is_little_endian,
        ),
        final(reader).data == old(reader).data,
        final(reader).position == old(reader).position + uncompressed_read::<T>(
            old(reader).rest(),
            buffer_length,
            length,
        ),
{
    match required_bytes::<T>(buffer_length, length) {
        Ok(_) => {},
        Err(e) => {
            return Err(e);
        },
    }
    if native_little_endian == is_little_endian {
        match read_slots::<T>(reader, length) {
            Ok(slots) => {
                let values = values_from_slots::<T>(&slots, is_little_endian);
                assert(values@ =~= values_of::<T>(
                    old(reader).rest(),
                    length as nat,
                    is_little_endian,
                ));
                Ok(values)
            },
            Err(e) => Err(e),
        }
    } else {
        let mut buffer = values_from_slots::<T>(&T::zeroed(length), true);
        match read_swapped::<T>(reader, length, &mut buffer, is_little_endian) {
            Ok(_) => {
                assert(buffer@ =~= values_of::<T>(old(reader).rest(), length as nat, false));
                Ok(buffer)
            },
            Err(e) => Err(e),
        }
    }
}

/// Reads `length` slots from a buffer of `buffer_length` bytes.
///
/// # Error
/// Errors when the buffer is too short for the slots, when there are too few bytes to
/// read, and when the slots are little endian on a big endian machine.
pub fn read_uncompressed_buffer<T: NativeType>(
    reader: &mut ByteReader<'_>,
    buffer_length: usize,
    length: usize,
    is_little_endian: bool,
) -> (r: Result<Vec<T>, Error>)
    requires
        within_memory::<T>(buffer_length, length),
    ensures
        exists|native_little_endian: bool|
            {
                &&& is_machine_order(native_little_endian)
                &&& contents(r) == #[trigger] uncompressed_values::<T>(
                    native_little_endian,
                    old(reader).rest(),
                    buffer_length,
                    length,
                    is_little_endian,
                )
            },
        final(reader).data == old(reader).data,
        final(reader).position == old(reader).position + uncompressed_read::<T>(
            old(reader).rest(),
            buffer_length,
            length,
        ),
{
    let native_little_endian = is_native_little_endian();
    read_uncompressed_buffer_on(
        native_little_endian,
        reader,
        buffer_length,
        length,
        is_little_endian,
    )
}

/// What comes behind the first eight bytes, which give the length of the uncompressed
/// bytes.
pub open spec fn compressed_body(taken: Seq<u8>) -> Seq<u8> {
    taken.subrange(8, taken.len() as int)
}

/// What the bytes `taken` give, decompressed to `length` bytes.
pub open spec fn decompressed(compression: Compression, taken: Seq<u8>, length: nat) -> Result<
    Seq<u8>,
    Failure,
> {
    match compression.spec_codec() {
        Ok(codec) => match crate::ipc::compression::decoded(codec, compressed_body(taken), length) {
            Some(bytes) => Ok(bytes),
            None => Err(Failure::Io),
        },
        Err(reason) => Err(Failure::InvalidFlatbufferCompression(reason)),
    }
}

/// The bytes of a buffer hold what a codec needs of them.
pub open spec fn has_body(compression: Compression, rest: Seq<u8>, buffer_length: usize) -> bool {
    compression.spec_codec() is Ok ==> rest.len() >= 8 && buffer_length >= 8
}

/// What reading `length` slots of a compressed buffer of `buffer_length` bytes comes to;
/// `reserved` says whether there was memory for its bytes.
pub open spec fn compressed_buffer<T: NativeType>(
    native_little_endian: bool,
    reserved: bool,
    rest: Seq<u8>,
    buffer_length: usize,
    length: usize,
    is_little_endian: bool,
    compression: Compression,
    scratch: Seq<u8>,
) -> Outcome<Seq<T>> {
    if is_little_endian != native_little_endian {
        Outcome {
            result: Err(
                Failure::NotYetImplemented("Reading compressed and big endian IPC"@),
            ),
            read: 0,
            scratch,
        }
    } else if !reserved {
        Outcome {
            result: Err(Failure::Overflow),
            read: 0,
            scratch: Seq::empty(),
        }
    } else {
        let taken = crate::ipc::reader::at_most(rest, buffer_length as nat);
        Outcome {
            result: match decompressed(
                compression,
                taken,
                (length * T::spec_slot_size()) as nat,
            ) {
                Ok(bytes) => Ok(values_of::<T>(bytes, length as nat, is_little_endian)),
                Err(failure) => Err(failure),
            },
            read: taken.len() as int,
            scratch: taken,
        }
    }
}

/// Decompresses what comes behind the first eight bytes of `taken` into `out`.
///
/// # Error
/// Errors when the codec is unknown, and when the codec does.
fn decompress_taken(compression: Compression, taken: &Vec<u8>, out: &mut [u8]) -> (r: Result<
    (),
    Error,
>)
    requires
        compression.spec_codec() is Ok ==> taken@.len() >= 8,
    ensures
        final(out)@.len() == old(out)@.len(),
        match r {
            Ok(_) => decompressed(compression, taken@, old(out)@.len()) == Ok::<
                Seq<u8>,
                Failure,
            >(final(out)@),
            Err(e) => decompressed(compression, taken@, old(out)@.len()) == Err::<
                Seq<u8>,
                Failure,
            >(e@),
        },
{
    match compression.codec() {
        Ok(codec) => {
            let body = slice_subrange(taken.as_slice(), 8, taken.len());
            match decompress(codec, body, out) {
                Ok(_) => Ok(()),
                Err(e) => Err(Error::Io(e)),
            }
        },
        Err(reason) => Err(Error::from(OutOfSpecKind::InvalidFlatbufferCompression(reason))),
    }
}

/// [`read_compressed_buffer`] on a machine of the given byte order, with or without
/// memory for the bytes of the buffer.
pub fn read_compressed_buffer_on<T: NativeType>(
    native_little_endian: bool,
    reserved: bool,
    reader: &mut ByteReader<'_>,
    buffer_length: usize,
    length: usize,
    is_little_endian: bool,
    compression: Compression,
    scratch: &mut Vec<u8>,
) -> (r: Result<Vec<T>, Error>)
    requires
        is_little_endian == native_little_endian ==> length * T::spec_slot_size() <= isize::MAX,
        is_little_endian == native_little_endian && reserved ==> has_body(
            compression,
            old(reader).rest(),
            buffer_length,
        ),
    ensures
        (Outcome {
            result: contents(r),
            read: final(reader).position - old(reader).position,
            scratch: final(scratch)@,
        }) == compressed_buffer::<T>(
            native_little_endian,
            reserved,
            old(reader).rest(),
            buffer_length,
            length,
            is_little_endian,
            compression,
            old(scratch)@,
        ),
        final(reader).data == old(reader).data,
{
    if is_little_endian != native_little_endian {
        return Err(
            Error::NotYetImplemented("Reading compressed and big endian IPC".to_owned()),
        );
    }
    let mut slots = T::zeroed(length);

    scratch.clear();
    if !reserved {
        return Err(Error::Overflow);
    }
    reader.read_at_most(buffer_length, scratch);
    assert(scratch@ =~= crate::ipc::reader::at_most(old(reader).rest(), buffer_length as nat));

    let ghost mut out_bytes: Seq<u8> = Seq::empty();
    let outcome = {
        let out = T::as_bytes_mut(&mut slots);
        let outcome = decompress_taken(compression, scratch, out);
        proof {
            out_bytes = out@;
        }
        outcome
    };
    match outcome {
        Ok(_) => {
            let values = values_from_slots::<T>(&slots, is_little_endian);
            assert(values@ =~= values_of::<T>(out_bytes, length as nat, is_little_endian));
            Ok(values)
        },
        Err(e) => Err(e),
    }
}

/// Empties the scratch space and reserves it for the bytes of a compressed buffer in this
/// machine's byte order; no other buffer uses it. Says whether there was memory.
fn reserve_scratch(
    native_little_endian: bool,
    buffer_length: usize,
    is_little_endian: bool,
    compression: Option<Compression>,
    scratch: &mut Vec<u8>,
) -> (r: bool)
    ensures
        final(scratch)@ == if compression is Some && is_little_endian == native_little_endian {
            Seq::empty()
        } else {
            old(scratch)@
        },
        compression is Some && is_little_endian == native_little_endian ==> is_memory_had(
            buffer_length,
            r,
        ),
{
    if compression.is_some() && is_little_endian == native_little_endian {
        scratch.clear();
        scratch.try_reserve(buffer_length).is_ok()
    } else {
        false
    }
}

/// Reads `length` slots from a compressed buffer of `buffer_length` bytes, of which
/// `scratch` then holds what was read.
///
/// # Error
/// Errors when the slots are not in this machine's byte order, when there is no memory
/// for the bytes, when the codec is unknown, and when it cannot give the slots.
pub fn read_compressed_buffer<T: NativeType>(
    reader: &mut ByteReader<'_>,
    buffer_length: usize,
    length: usize,
    is_little_endian: bool,
    compression: Compression,
    scratch: &mut Vec<u8>,
) -> (r: Result<Vec<T>, Error>)
    requires
        length * T::spec_slot_size() <= isize::MAX,
        has_body(compression, old(reader).rest(), buffer_length),
    ensures
        final(reader).data == old(reader).data,
        exists|native_little_endian: bool, reserved: bool|
            {
                &&& is_machine_order(native_little_endian)
                &&& is_little_endian == native_little_endian ==> is_memory_had(buffer_length, reserved)
                &&& (Outcome {
                    result: contents(r),
                    read: final(reader).position - old(reader).position,
                    scratch: final(scratch)@,
                }) == #[trigger] compressed_buffer::<T>(
                    native_little_endian,
                    reserved,
                    old(reader).rest(),
                    buffer_length,
                    length,
                    is_little_endian,
                    compression,
                    old(scratch)@,
                )
            },
{
    let native_little_endian = is_native_little_endian();
    let reserved = reserve_scratch(
        native_little_endian,
        buffer_length,
        is_little_endian,
        Some(compression),
        scratch,
    );
    assert(compressed_buffer::<T>(
        native_little_endian,
        reserved,
        reader.rest(),
        buffer_length,
        length,
        is_little_endian,
        compression,
        scratch@,
    ) == compressed_buffer::<T>(
        native_little_endian,
        reserved,
        reader.rest(),
        buffer_length,
        length,
        is_little_endian,
        compression,
        old(scratch)@,
    ));
    read_compressed_buffer_on(
        native_little_endian,
        reserved,
        reader,
        buffer_length,
        length,
        is_little_endian,
        compression,
        scratch,
    )
}

/// The front of a queue of buffers, with what may be wrong with it.
pub open spec fn front_failure(buffers: Seq<IpcBuffer>) -> Option<Failure> {
    if buffers.len() == 0 {
        Some(Failure::ExpectedBuffer)
    } else if buffers[0].offset < 0 || buffers[0].length < 0 || buffers[0].length > usize::MAX {
        Some(Failure::NegativeFooterLength)
    } else {
        None
    }
}

/// A queue of buffers without its front.
pub open spec fn without_front(buffers: Seq<IpcBuffer>) -> Seq<IpcBuffer> {
    if buffers.len() == 0 {
        buffers
    } else {
        buffers.subrange(1, buffers.len() as int)
    }
}

/// The front of a queue of buffers, if nothing is wrong with it, lies where a `u64` can
/// point to.
pub open spec fn front_in_reach(buffers: Seq<IpcBuffer>, block_offset: u64) -> bool {
    front_failure(buffers) is None ==> block_offset + buffers[0].offset <= u64::MAX
}

/// A stretch of bytes
#[derive(Debug, Clone, Copy, PartialEq, Eq, Structural)]
pub struct Block {
    pub position: u64,
    pub length: usize,
}

/// Takes the front of the queue and says where it lies, for a body at `block_offset`.
///
/// # Error
/// Errors when the queue is empty, and when the offset is negative or the length is
/// negative or does not fit in memory.
pub fn next_block(buffers: &mut VecDeque<IpcBuffer>, block_offset: u64) -> (r: Result<Block, Error>)
    requires
        front_in_reach(old(buffers)@, block_offset),
    ensures
        final(buffers)@ == without_front(old(buffers)@),
        match r {
            Ok(block) => {
                &&& front_failure(old(buffers)@) is None
                &&& block.position == block_offset + old(buffers)@[0].offset
                &&& block.length == old(buffers)@[0].length
            },
            Err(e) => front_failure(old(buffers)@) == Some(e@),
        },
{
    let buffer = match buffers.pop_front() {
        Some(buffer) => buffer,
        None => {
            return Err(Error::from(OutOfSpecKind::ExpectedBuffer));
        },
    };
    let offset = match u64::try_from(buffer.offset) {
        Ok(offset) => offset,
        Err(_) => {
            return Err(Error::from(OutOfSpecKind::NegativeFooterLength));
        },
    };
    let length = match usize::try_from(buffer.length) {
        Ok(length) => length,
        Err(_) => {
            return Err(Error::from(OutOfSpecKind::NegativeFooterLength));
        },
    };
    Ok(Block { position: block_offset + offset, length })
}

/// What reading `length` slots of a buffer of `buffer_length` bytes comes to.
pub open spec fn any_buffer<T: NativeType>(
    native_little_endian: bool,
    reserved: bool,
    rest: Seq<u8>,
    buffer_length: usize,
    length: usize,
    is_little_endian: bool,
    compression: Option<Compression>,
    scratch: Seq<u8>,
) -> Outcome<Seq<T>> {
    match compression {
        Some(compression) => compressed_buffer::<T>(
            native_little_endian,
            reserved,
            rest,
            buffer_length,
            length,
            is_little_endian,
            compression,
            scratch,
        ),
        None => Outcome {
            result: uncompressed_values::<T>(
                native_little_endian,
                rest,
                buffer_length,
                length,
                is_little_endian,
            ),
            read: uncompressed_read::<T>(rest, buffer_length, length) as int,
            scratch,
        },
    }
}

/// A buffer can be read without running out of memory or short of its first bytes.
pub open spec fn readable<T: NativeType>(
    rest: Seq<u8>,
    buffer_length: usize,
    length: usize,
    compression: Option<Compression>,
) -> bool {
    match compression {
        Some(compression) => {
            &&& length * T::spec_slot_size() <= isize::MAX
            &&& has_body(compression, rest, buffer_length)
        },
        None => within_memory::<T>(buffer_length, length),
    }
}

/// A buffer can be read on a machine of the given byte order, with or without memory for
/// its bytes.
pub open spec fn readable_on<T: NativeType>(
    native_little_endian: bool,
    reserved: bool,
    rest: Seq<u8>,
    buffer_length: usize,
    length: usize,
    is_little_endian: bool,
    compression: Option<Compression>,
) -> bool {
    match compression {
        Some(compression) => is_little_endian == native_little_endian ==> {
            &&& length * T::spec_slot_size() <= isize::MAX
            &&& reserved ==> has_body(compression, rest, buffer_length)
        },
        None => within_memory::<T>(buffer_length, length),
    }
}

/// The result of [`read_buffer`], as a value.
pub open spec fn buffer_contents<T>(r: Result<Buffer<T>, Error>) -> Result<
    Seq<T>,
    Failure,
> {
    match r {
        Ok(buffer) => Ok(buffer@),
        Err(e) => Err(e@),
    }
}

/// [`read_buffer_here`] on a machine of the given byte order, with or without memory for
/// the bytes of a compressed buffer.
pub fn read_buffer_here_on<T: NativeType>(
    native_little_endian: bool,
    reserved: bool,
    reader: &mut ByteReader<'_>,
    buffer_length: usize,
    length: usize,
    is_little_endian: bool,
    compression: Option<Compression>,
    scratch: &mut Vec<u8>,
) -> (r: Result<Buffer<T>, Error>)
    requires
        readable_on::<T>(
            native_little_endian,
            reserved,
            old(reader).rest(),
            buffer_length,
            length,
            is_little_endian,
            compression,
        ),
    ensures
        r matches Ok(buffer) ==> buffer.wf() && buffer.offset == 0 && buffer.length == length,
        (Outcome {
            result: buffer_contents(r),
            read: final(reader).position - old(reader).position,
            scratch: final(scratch)@,
        }) == any_buffer::<T>(
            native_little_endian,
            reserved,
            old(reader).rest(),
            buffer_length,
            length,
            is_little_endian,
            compression,
            old(scratch)@,
        ),
        final(reader).data == old(reader).data,
{
    let values = if let Some(compression) = compression {
        read_compressed_buffer_on::<T>(
            native_little_endian,
            reserved,
            reader,
            buffer_length,
            length,
            is_little_endian,
            compression,
            scratch,
        )
    } else {
        read_uncompressed_buffer_on::<T>(
            native_little_endian,
            reader,
            buffer_length,
            length,
            is_little_endian,
        )
    };
    match values {
        Ok(values) => Ok(buffer_from_vec(values)),
        Err(e) => Err(e),
    }
}

/// Reads `length` slots from the buffer of `buffer_length` bytes that the reader is at.
///
/// # Error
/// As [`read_compressed_buffer`] and [`read_uncompressed_buffer`]
pub fn read_buffer_here<T: NativeType>(
    reader: &mut ByteReader<'_>,
    buffer_length: usize,
    length: usize,
    is_little_endian: bool,
    compression: Option<Compression>,
    scratch: &mut Vec<u8>,
) -> (r: Result<Buffer<T>, Error>)
    requires
        readable::<T>(old(reader).rest(), buffer_length, length, compression),
    ensures
        r matches Ok(buffer) ==> buffer.wf() && buffer.offset == 0 && buffer.length == length,
        exists|native_little_endian: bool, reserved: bool|
            {
                &&& is_machine_order(native_little_endian)
                &&& compression is Some && is_little_endian == native_little_endian
                    ==> is_memory_had(buffer_length, reserved)
                &&& (Outcome {
                    result: buffer_contents(r),
                    read: final(reader).position - old(reader).position,
                    scratch: final(scratch)@,
                }) == #[trigger] any_buffer::<T>(
                    native_little_endian,
                    reserved,
                    old(reader).rest(),
                    buffer_length,
                    length,
                    is_little_endian,
                    compression,
                    old(scratch)@,
                )
            },
        final(reader).data == old(reader).data,
{
    let native_little_endian = is_native_little_endian();
    let reserved = reserve_scratch(
        native_little_endian,
        buffer_length,
        is_little_endian,
        compression,
        scratch,
    );
    assert(any_buffer::<T>(
        native_little_endian,
        reserved,
        reader.rest(),
        buffer_length,
        length,
        is_little_endian,
        compression,
        scratch@,
    ) == any_buffer::<T>(
        native_little_endian,
        reserved,
        reader.rest(),
        buffer_length,
        length,
        is_little_endian,
        compression,
        old(scratch)@,
    ));
    read_buffer_here_on(
        native_little_endian,
        reserved,
        reader,
        buffer_length,
        length,
        is_little_endian,
        compression,
        scratch,
    )
}

/// The number of bytes of the front of the queue, if nothing is wrong with it.
fn front_length(buffers: &VecDeque<IpcBuffer>) -> (r: Option<usize>)
    ensures
        match r {
            Some(length) => front_failure(buffers@) is None && length == buffers@[0].length,
            None => front_failure(buffers@) is Some,
        },
{
    if buffers.len() == 0 || buffers[0].offset < 0 {
        return None;
    }
    match usize::try_from(buffers[0].length) {
        Ok(length) => Some(length),
        Err(_) => None,
    }
}

/// [`read_buffer`] on a machine of the given byte order, with or without memory for the
/// bytes of a compressed buffer.
pub fn read_buffer_on<T: NativeType>(
    native_little_endian: bool,
    reserved: bool,
    buffers: &mut VecDeque<IpcBuffer>,
    length: usize,
    reader: &mut ByteReader<'_>,
    block_offset: u64,
    is_little_endian: bool,
    compression: Option<Compression>,
    scratch: &mut Vec<u8>,
) -> (r: Result<Buffer<T>, Error>)
    requires
        front_in_reach(old(buffers)@, block_offset),
        front_failure(old(buffers)@) is None ==> readable_on::<T>(
            native_little_endian,
            reserved,
            crate::ipc::reader::bytes_from(
                old(reader).data@,
                block_offset + old(buffers)@[0].offset,
            ),
            old(buffers)@[0].length as usize,
            length,
            is_little_endian,
            compression,
        ),
    ensures
        final(buffers)@ == without_front(old(buffers)@),
        final(reader).data == old(reader).data,
        r matches Ok(buffer) ==> buffer.wf() && buffer.offset == 0 && buffer.length == length,
        match front_failure(old(buffers)@) {
            Some(failure) => {
                &&& buffer_contents(r) == Err::<Seq<T>, Failure>(failure)
                &&& final(reader).position == old(reader).position
                &&& final(scratch)@ == old(scratch)@
            },
            None => (Outcome {
                result: buffer_contents(r),
                read: final(reader).position - (block_offset + old(buffers)@[0].offset),
                scratch: final(scratch)@,
            }) == any_buffer::<T>(
                native_little_endian,
                reserved,
                crate::ipc::reader::bytes_from(
                    old(reader).data@,
                    block_offset + old(buffers)@[0].offset,
                ),
                old(buffers)@[0].length as usize,
                length,
                is_little_endian,
                compression,
                old(scratch)@,
            ),
        },
{
    let block = match next_block(buffers, block_offset) {
        Ok(block) => block,
        Err(e) => {
            return Err(e);
        },
    };
    reader.seek(block.position);
    read_buffer_here_on(
        native_little_endian,
        reserved,
        reader,
        block.length,
        length,
        is_little_endian,
        compression,
        scratch,
    )
}

/// Reads `length` slots from the buffer at the front of the queue, which it takes.
///
/// # Error
/// As [`next_block`], and for the buffer itself as [`read_buffer_here`]
pub fn read_buffer<T: NativeType>(
    buffers: &mut VecDeque<IpcBuffer>,
    length: usize,
    reader: &mut ByteReader<'_>,
    block_offset: u64,
    is_little_endian: bool,
    compression: Option<Compression>,
    scratch: &mut Vec<u8>,
) -> (r: Result<Buffer<T>, Error>)
    requires
        front_in_reach(old(buffers)@, block_offset),
        front_failure(old(buffers)@) is None ==> readable::<T>(
            crate::ipc::reader::bytes_from(
                old(reader).data@,
                block_offset + old(buffers)@[0].offset,
            ),
            old(buffers)@[0].length as usize,
            length,
            compression,
        ),
    ensures
        final(buffers)@ == without_front(old(buffers)@),
        final(reader).data == old(reader).data,
        r matches Ok(buffer) ==> buffer.wf() && buffer.offset == 0 && buffer.length == length,
        match front_failure(old(buffers)@) {
            Some(failure) => {
                &&& buffer_contents(r) == Err::<Seq<T>, Failure>(failure)
                &&& final(reader).position == old(reader).position
                &&& final(scratch)@ == old(scratch)@
            },
            None => exists|native_little_endian: bool, reserved: bool|
                {
                    &&& is_machine_order(native_little_endian)
                    &&& compression is Some && is_little_endian == native_little_endian
                        ==> is_memory_had(old(buffers)@[0].length as usize, reserved)
                    &&& (Outcome {
                        result: buffer_contents(r),
                        read: final(reader).position - (block_offset + old(buffers)@[0].offset),
                        scratch: final(scratch)@,
                    }) == #[trigger] any_buffer::<T>(
                        native_little_endian,
                        reserved,
                        crate::ipc::reader::bytes_from(
                            old(reader).data@,
                            block_offset + old(buffers)@[0].offset,
                        ),
                        old(buffers)@[0].length as usize,
                        length,
                        is_little_endian,
                        compression,
                        old(scratch)@,
                    )
                },
        },
{
    let native_little_endian = is_native_little_endian();
    let reserved = match front_length(buffers) {
        Some(buffer_length) => reserve_scratch(
            native_little_endian,
            buffer_length,
            is_little_endian,
            compression,
            scratch,
        ),
        None => false,
    };
    proof {
        if front_failure(buffers@) is None {
            let rest = crate::ipc::reader::bytes_from(
                reader.data@,
                block_offset + buffers@[0].offset,
            );
            assert(any_buffer::<T>(
                native_little_endian,
                reserved,
                rest,
                buffers@[0].length as usize,
                length,
                is_little_endian,
                compression,
                scratch@,
            ) == any_buffer::<T>(
                native_little_endian,
                reserved,
                rest,
                buffers@[0].length as usize,
                length,
                is_little_endian,
                compression,
                old(scratch)@,
            ));
        }
    }
    read_buffer_on(
        native_little_endian,
        reserved,
        buffers,
        length,
        reader,
        block_offset,
        is_little_endian,
        compression,
        scratch,
    )
}

/// What reading the bytes of a bitmap of `length` bits from a buffer of `bytes` bytes
/// comes to; `reserved` says whether there was memory for them.
pub open spec fn uncompressed_bitmap(
    reserved: bool,
    rest: Seq<u8>,
    length: usize,
    bytes: usize,
    scratch: Seq<u8>,
) -> Outcome<Seq<u8>> {
    if length > bytes * 8 {
        Outcome {
            result: Err(
                Failure::InvalidBitmap {
                    length: length as int,
                    number_of_bits: bytes * 8,
                },
            ),
            read: 0,
            scratch,
        }
    } else if !reserved {
        Outcome { result: Err(Failure::Overflow), read: 0, scratch }
    } else {
        let taken = crate::ipc::reader::at_most(rest, bytes as nat);
        Outcome { result: Ok(taken), read: taken.len() as int, scratch }
    }
}

/// Reserves memory for the bytes of a bitmap: those of a compressed one in the scratch
/// space, which it empties, and others in what it gives back. It gives nothing where there
/// is no memory, and where the buffer is too short for the bits.
fn reserve_bitmap(
    length: usize,
    bytes: usize,
    compression: Option<Compression>,
    scratch: &mut Vec<u8>,
) -> (r: Option<Vec<u8>>)
    requires
        compression is None ==> bytes * 8 <= usize::MAX,
    ensures
        r matches Some(empty) ==> empty@.len() == 0,
        compression is Some || length <= bytes * 8 ==> is_memory_had(bytes, r is Some),
        final(scratch)@ == if compression is Some {
            Seq::empty()
        } else {
            old(scratch)@
        },
{
    let mut buffer: Vec<u8> = Vec::new();
    let reserved = if compression.is_some() {
        scratch.clear();
        scratch.try_reserve(bytes).is_ok()
    } else {
        length <= bytes * 8 && buffer.try_reserve(bytes).is_ok()
    };
    if reserved {
        Some(buffer)
    } else {
        None
    }
}

/// [`read_uncompressed_bitmap`] with or without space for the bytes of the buffer.
pub fn read_uncompressed_bitmap_on(
    space: Option<Vec<u8>>,
    length: usize,
    bytes: usize,
    reader: &mut ByteReader<'_>,
) -> (r: Result<Vec<u8>, Error>)
    requires
        bytes * 8 <= usize::MAX,
        space matches Some(empty) ==> empty@.len() == 0,
    ensures
        (Outcome {
            result: contents(r),
            read: final(reader).position - old(reader).position,
            scratch: Seq::<u8>::empty(),
        }) == uncompressed_bitmap(
            space is Some,
            old(reader).rest(),
            length,
            bytes,
            Seq::empty(),
        ),
        final(reader).data == old(reader).data,
{
    if length > bytes * 8 {
        return Err(
            Error::from(OutOfSpecKind::InvalidBitmap { length, number_of_bits: bytes * 8 }),
        );
    }
    let mut buffer = match space {
        Some(empty) => empty,
        None => {
            return Err(Error::Overflow);
        },
    };
    reader.read_at_most(bytes, &mut buffer);
    assert(buffer@ =~= crate::ipc::reader::at_most(old(reader).rest(), bytes as nat));
    Ok(buffer)
}

/// Reads the bytes of a bitmap of `length` bits from a buffer of `bytes` bytes.
///
/// # Error
/// Errors when the buffer is too short for the bits, and when there is no memory for
/// its bytes.
pub fn read_uncompressed_bitmap(length: usize, bytes: usize, reader: &mut ByteReader<'_>) -> (r:
    Result<Vec<u8>, Error>)
    requires
        bytes * 8 <= usize::MAX,
    ensures
        exists|reserved: bool|
            {
                &&& length <= bytes * 8 ==> is_memory_had(bytes, reserved)
                &&& (Outcome {
                    result: contents(r),
                    read: final(reader).position - old(reader).position,
                    scratch: Seq::<u8>::empty(),
                }) == #[trigger] uncompressed_bitmap(
                    reserved,
                    old(reader).rest(),
                    length,
                    bytes,
                    Seq::empty(),
                )
            },
        final(reader).data == old(reader).data,
{
    let space = reserve_bitmap(length, bytes, None, &mut Vec::new());
    read_uncompressed_bitmap_on(space, length, bytes, reader)
}

/// What reading the bytes of a bitmap of `length` bits from a compressed buffer of
/// `bytes` bytes comes to; `reserved` says whether there was memory for its bytes.
pub open spec fn compressed_bitmap(
    reserved: bool,
    rest: Seq<u8>,
    length: usize,
    bytes: usize,
    compression: Compression,
) -> Outcome<Seq<u8>> {
    if !reserved {
        Outcome {
            result: Err(Failure::Overflow),
            read: 0,
            scratch: Seq::empty(),
        }
    } else {
        let taken = crate::ipc::reader::at_most(rest, bytes as nat);
        Outcome {
            result: decompressed(compression, taken, ((length + 7) / 8) as nat),
            read: taken.len() as int,
            scratch: taken,
        }
    }
}

/// [`read_compressed_bitmap`] with or without memory for the bytes of the buffer.
pub fn read_compressed_bitmap_on(
    reserved: bool,
    length: usize,
    bytes: usize,
    compression: Compression,
    reader: &mut ByteReader<'_>,
    scratch: &mut Vec<u8>,
) -> (r: Result<Vec<u8>, Error>)
    requires
        length + 7 <= usize::MAX,
        reserved ==> has_body(compression, old(reader).rest(), bytes),
    ensures
        (Outcome {
            result: contents(r),
            read: final(reader).position - old(reader).position,
            scratch: final(scratch)@,
        }) == compressed_bitmap(reserved, old(reader).rest(), length, bytes, compression),
        r matches Ok(buffer) ==> buffer@.len() == (length + 7) / 8,
        final(reader).data == old(reader).data,
{
    scratch.clear();
    if !reserved {
        return Err(Error::Overflow);
    }
    reader.read_at_most(bytes, scratch);
    assert(scratch@ =~= crate::ipc::reader::at_most(old(reader).rest(), bytes as nat));

    let mut buffer: Vec<u8> = vec![0; (length + 7) / 8];
    match decompress_taken(compression, scratch, buffer.as_mut_slice()) {
        Ok(_) => Ok(buffer),
        Err(e) => Err(e),
    }
}

/// Reads the bytes of a bitmap of `length` bits from a compressed buffer of `bytes`
/// bytes, of which `scratch` then holds what was read.
///
/// # Error
/// Errors when there is no memory for the bytes, when the codec is unknown, and when it
/// cannot give the bits.
pub fn read_compressed_bitmap(
    length: usize,
    bytes: usize,
    compression: Compression,
    reader: &mut ByteReader<'_>,
    scratch: &mut Vec<u8>,
) -> (r: Result<Vec<u8>, Error>)
    requires
        length + 7 <= usize::MAX,
        has_body(compression, old(reader).rest(), bytes),
    ensures
        exists|reserved: bool|
            {
                &&& is_memory_had(bytes, reserved)
                &&& (Outcome {
                    result: contents(r),
                    read: final(reader).position - old(reader).position,
                    scratch: final(scratch)@,
                }) == #[trigger] compressed_bitmap(
                    reserved,
                    old(reader).rest(),
                    length,
                    bytes,
                    compression,
                )
            },
        r matches Ok(buffer) ==> buffer@.len() == (length + 7) / 8,
        final(reader).data == old(reader).data,
{
    let space = reserve_bitmap(length, bytes, Some(compression), scratch);
    read_compressed_bitmap_on(space.is_some(), length, bytes, compression, reader, scratch)
}

/// The bitmap of the first `length` bits of the bytes, if there are as many.
pub open spec fn bitmap_of(
    bytes: Result<Seq<u8>, Failure>,
    length: usize,
) -> Result<Seq<bool>, Failure> {
    match bytes {
        Ok(bytes) => if length <= bytes.len() * 8 {
            Ok(crate::bitmap::bits_of(bytes, length as nat))
        } else {
            Err(
                Failure::BitmapTooShort {
                    length: length as int,
                    number_of_bits: (bytes.len() * 8) as int,
                },
            )
        },
        Err(failure) => Err(failure),
    }
}

/// What reading a bitmap of `length` bits from a buffer of `bytes` bytes comes to.
pub open spec fn any_bitmap(
    reserved: bool,
    rest: Seq<u8>,
    length: usize,
    bytes: usize,
    compression: Option<Compression>,
    scratch: Seq<u8>,
) -> Outcome<Seq<bool>> {
    let outcome = match compression {
        Some(compression) => compressed_bitmap(reserved, rest, length, bytes, compression),
        None => uncompressed_bitmap(reserved, rest, length, bytes, scratch),
    };
    Outcome {
        result: bitmap_of(outcome.result, length),
        read: outcome.read,
        scratch: outcome.scratch,
    }
}

/// A bitmap can be read without running out of numbers or short of its first bytes.
pub open spec fn bitmap_readable(
    rest: Seq<u8>,
    length: usize,
    bytes: usize,
    compression: Option<Compression>,
) -> bool {
    match compression {
        Some(compression) => {
            &&& length + 7 <= usize::MAX
            &&& has_body(compression, rest, bytes)
        },
        None => bytes * 8 <= usize::MAX,
    }
}

/// A bitmap can be read, with or without memory for its bytes.
pub open spec fn bitmap_readable_on(
    reserved: bool,
    rest: Seq<u8>,
    length: usize,
    bytes: usize,
    compression: Option<Compression>,
) -> bool {
    match compression {
        Some(compression) => {
            &&& length + 7 <= usize::MAX
            &&& reserved ==> has_body(compression, rest, bytes)
        },
        None => bytes * 8 <= usize::MAX,
    }
}

/// The result of [`read_bitmap`], as a value.
pub open spec fn bitmap_contents(r: Result<Bitmap, Error>) -> Result<
    Seq<bool>,
    Failure,
> {
    match r {
        Ok(bitmap) => Ok(bitmap@),
        Err(e) => Err(e@),
    }
}

/// [`read_bitmap_here`] with or without memory for the bytes of the buffer: `space` is
/// empty, and is where those of an uncompressed one go; it is absent where there was no
/// memory.
pub fn read_bitmap_here_on(
    space: Option<Vec<u8>>,
    reader: &mut ByteReader<'_>,
    length: usize,
    bytes: usize,
    compression: Option<Compression>,
    scratch: &mut Vec<u8>,
) -> (r: Result<Bitmap, Error>)
    requires
        bitmap_readable_on(space is Some, old(reader).rest(), length, bytes, compression),
        space matches Some(empty) ==> empty@.len() == 0,
    ensures
        r matches Ok(bitmap) ==> bitmap.wf() && bitmap.offset == 0 && bitmap.length == length,
        (Outcome {
            result: bitmap_contents(r),
            read: final(reader).position - old(reader).position,
            scratch: final(scratch)@,
        }) == any_bitmap(
            space is Some,
            old(reader).rest(),
            length,
            bytes,
            compression,
            old(scratch)@,
        ),
        final(reader).data == old(reader).data,
{
    let buffer = if let Some(compression) = compression {
        read_compressed_bitmap_on(space.is_some(), length, bytes, compression, reader, scratch)
    } else {
        read_uncompressed_bitmap_on(space, length, bytes, reader)
    };
    match buffer {
        Ok(buffer) => Bitmap::try_new(buffer, length),
        Err(e) => Err(e),
    }
}

/// Reads a bitmap of `length` bits from the buffer of `bytes` bytes that the reader is
/// at.
///
/// # Error
/// As [`read_compressed_bitmap`] and [`read_uncompressed_bitmap`], and when fewer bytes
/// could be read than the bits need
pub fn read_bitmap_here(
    reader: &mut ByteReader<'_>,
    length: usize,
    bytes: usize,
    compression: Option<Compression>,
    scratch: &mut Vec<u8>,
) -> (r: Result<Bitmap, Error>)
    requires
        bitmap_readable(old(reader).rest(), length, bytes, compression),
    ensures
        r matches Ok(bitmap) ==> bitmap.wf() && bitmap.offset == 0 && bitmap.length == length,
        exists|reserved: bool|
            {
                &&& compression is Some || length <= bytes * 8 ==> is_memory_had(bytes, reserved)
                &&& (Outcome {
                    result: bitmap_contents(r),
                    read: final(reader).position - old(reader).position,
                    scratch: final(scratch)@,
                }) == #[trigger] any_bitmap(
                    reserved,
                    old(reader).rest(),
                    length,
                    bytes,
                    compression,
                    old(scratch)@,
                )
            },
        final(reader).data == old(reader).data,
{
    let space = reserve_bitmap(length, bytes, compression, scratch);
    assert(any_bitmap(space is Some, reader.rest(), length, bytes, compression, scratch@)
        == any_bitmap(space is Some, reader.rest(), length, bytes, compression, old(scratch)@));
    read_bitmap_here_on(space, reader, length, bytes, compression, scratch)
}

/// What [`read_bitmap`] comes to on this queue, for a body at `block_offset` of `data`:
/// its result, where the reader is then, and what is then in the scratch space.
pub open spec fn bitmap_read(
    reserved: bool,
    buffers: Seq<IpcBuffer>,
    length: usize,
    data: Seq<u8>,
    position: int,
    block_offset: u64,
    is_little_endian: bool,
    compression: Option<Compression>,
    scratch: Seq<u8>,
) -> (Result<Seq<bool>, Failure>, int, Seq<u8>) {
    match front_failure(buffers) {
        Some(failure) => (Err(failure), position, scratch),
        None => {
            let start = block_offset + buffers[0].offset;
            let outcome = any_bitmap(
                reserved,
                crate::ipc::reader::bytes_from(data, start),
                length,
                buffers[0].length as usize,
                compression,
                scratch,
            );
            (outcome.result, start + outcome.read, outcome.scratch)
        },
    }
}

/// The front of a queue of buffers, if nothing is wrong with it, is in reach and can be
/// read as a bitmap.
pub open spec fn front_bitmap_readable(
    buffers: Seq<IpcBuffer>,
    length: usize,
    data: Seq<u8>,
    block_offset: u64,
    compression: Option<Compression>,
) -> bool {
    &&& front_in_reach(buffers, block_offset)
    &&& front_failure(buffers) is None ==> bitmap_readable(
        crate::ipc::reader::bytes_from(data, block_offset + buffers[0].offset),
        length,
        buffers[0].length as usize,
        compression,
    )
}

/// The front of a queue of buffers, if nothing is wrong with it, is in reach and can be
/// read as a bitmap, with or without memory for its bytes.
pub open spec fn front_bitmap_readable_on(
    reserved: bool,
    buffers: Seq<IpcBuffer>,
    length: usize,
    data: Seq<u8>,
    block_offset: u64,
    compression: Option<Compression>,
) -> bool {
    &&& front_in_reach(buffers, block_offset)
    &&& front_failure(buffers) is None ==> bitmap_readable_on(
        reserved,
        crate::ipc::reader::bytes_from(data, block_offset + buffers[0].offset),
        length,
        buffers[0].length as usize,
        compression,
    )
}

/// [`read_bitmap`] with or without memory for the bytes of the buffer, as
/// [`read_bitmap_here_on`].
pub fn read_bitmap_on(
    space: Option<Vec<u8>>,
    buffers: &mut VecDeque<IpcBuffer>,
    length: usize,
    reader: &mut ByteReader<'_>,
    block_offset: u64,
    _is_little_endian: bool,
    compression: Option<Compression>,
    scratch: &mut Vec<u8>,
) -> (r: Result<Bitmap, Error>)
    requires
        front_bitmap_readable_on(
            space is Some,
            old(buffers)@,
            length,
            old(reader).data@,
            block_offset,
            compression,
        ),
        space matches Some(empty) ==> empty@.len() == 0,
    ensures
        final(buffers)@ == without_front(old(buffers)@),
        final(reader).data == old(reader).data,
        r matches Ok(bitmap) ==> bitmap.wf() && bitmap.offset == 0 && bitmap.length == length,
        (bitmap_contents(r), final(reader).position as int, final(scratch)@) == bitmap_read(
            space is Some,
            old(buffers)@,
            length,
            old(reader).data@,
            old(reader).position as int,
            block_offset,
            _is_little_endian,
            compression,
            old(scratch)@,
        ),
{
    let block = match next_block(buffers, block_offset) {
        Ok(block) => block,
        Err(e) => {
            return Err(e);
        },
    };
    reader.seek(block.position);
    read_bitmap_here_on(space, reader, length, block.length, compression, scratch)
}

/// Reserves memory for the bytes of the bitmap at the front of the queue, if nothing is
/// wrong with it, as [`reserve_bitmap`].
fn reserve_front_bitmap(
    buffers: &VecDeque<IpcBuffer>,
    length: usize,
    compression: Option<Compression>,
    scratch: &mut Vec<u8>,
) -> (r: Option<Vec<u8>>)
    requires
        front_failure(buffers@) is None && compression is None ==> buffers@[0].length * 8
            <= usize::MAX,
    ensures
        r matches Some(empty) ==> empty@.len() == 0,
        front_failure(buffers@) is None && (compression is Some || length <= buffers@[0].length
            * 8) ==> is_memory_had(buffers@[0].length as usize, r is Some),
        final(scratch)@ == if front_failure(buffers@) is None && compression is Some {
            Seq::empty()
        } else {
            old(scratch)@
        },
{
    match front_length(buffers) {
        Some(bytes) => reserve_bitmap(length, bytes, compression, scratch),
        None => None,
    }
}

/// Reads a bitmap of `length` bits from the buffer at the front of the queue, which it
/// takes.
///
/// # Error
/// As [`next_block`], and for the buffer itself as [`read_bitmap_here`]
pub fn read_bitmap(
    buffers: &mut VecDeque<IpcBuffer>,
    length: usize,
    reader: &mut ByteReader<'_>,
    block_offset: u64,
    _is_little_endian: bool,
    compression: Option<Compression>,
    scratch: &mut Vec<u8>,
) -> (r: Result<Bitmap, Error>)
    requires
        front_bitmap_readable(
            old(buffers)@,
            length,
            old(reader).data@,
            block_offset,
            compression,
        ),
    ensures
        final(buffers)@ == without_front(old(buffers)@),
        final(reader).data == old(reader).data,
        r matches Ok(bitmap) ==> bitmap.wf() && bitmap.offset == 0 && bitmap.length == length,
        exists|reserved: bool|
            {
                &&& front_failure(old(buffers)@) is None && (compression is Some || length
                    <= old(buffers)@[0].length * 8) ==> is_memory_had(
                    old(buffers)@[0].length as usize,
                    reserved,
                )
                &&& (bitmap_contents(r), final(reader).position as int, final(scratch)@)
                    == #[trigger] bitmap_read(
                    reserved,
                    old(buffers)@,
                    length,
                    old(reader).data@,
                    old(reader).position as int,
                    block_offset,
                    _is_little_endian,
                    compression,
                    old(scratch)@,
                )
            },
{
    let space = reserve_front_bitmap(buffers, length, compression, scratch);
    assert(bitmap_read(
        space is Some,
        buffers@,
        length,
        reader.data@,
        reader.position as int,
        block_offset,
        _is_little_endian,
        compression,
        scratch@,
    ) == bitmap_read(
        space is Some,
        buffers@,
        length,
        reader.data@,
        reader.position as int,
        block_offset,
        _is_little_endian,
        compression,
        old(scratch)@,
    ));
    read_bitmap_on(
        space,
        buffers,
        length,
        reader,
        block_offset,
        _is_little_endian,
        compression,
        scratch,
    )
}

/// The result of [`read_validity`], as a value.
pub open spec fn validity_contents(r: Result<Option<Bitmap>, Error>) -> Result<
    Option<Seq<bool>>,
    Failure,
> {
    match r {
        Ok(Some(bitmap)) => Ok(Some(bitmap@)),
        Ok(None) => Ok(None),
        Err(e) => Err(e@),
    }
}

impl Node {
    /// The number of slots is one.
    pub open spec fn has_length(self) -> bool {
        0 <= self.length <= usize::MAX
    }
}

/// What [`read_validity`] comes to, as [`bitmap_read`] for [`read_bitmap`].
pub open spec fn validity_read(
    reserved: bool,
    buffers: Seq<IpcBuffer>,
    field_node: Node,
    data: Seq<u8>,
    position: int,
    block_offset: u64,
    is_little_endian: bool,
    compression: Option<Compression>,
    scratch: Seq<u8>,
) -> (Result<Option<Seq<bool>>, Failure>, int, Seq<u8>) {
    if !field_node.has_length() {
        (Err(Failure::NegativeFooterLength), position, scratch)
    } else if field_node.null_count > 0 {
        let read = bitmap_read(
            reserved,
            buffers,
            field_node.length as usize,
            data,
            position,
            block_offset,
            is_little_endian,
            compression,
            scratch,
        );
        (
            match read.0 {
                Ok(bits) => Ok(Some(bits)),
                Err(failure) => Err(failure),
            },
            read.1,
            read.2,
        )
    } else if buffers.len() == 0 {
        (Err(Failure::ExpectedBuffer), position, scratch)
    } else {
        (Ok(None), position, scratch)
    }
}

/// [`read_validity`] with or without memory for the bytes of the buffer, as
/// [`read_bitmap_here_on`].
pub fn read_validity_on(
    space: Option<Vec<u8>>,
    buffers: &mut VecDeque<IpcBuffer>,
    field_node: Node,
    reader: &mut ByteReader<'_>,
    block_offset: u64,
    is_little_endian: bool,
    compression: Option<Compression>,
    scratch: &mut Vec<u8>,
) -> (r: Result<Option<Bitmap>, Error>)
    requires
        field_node.has_length() && field_node.null_count > 0 ==> front_bitmap_readable_on(
            space is Some,
            old(buffers)@,
            field_node.length as usize,
            old(reader).data@,
            block_offset,
            compression,
        ),
        space matches Some(empty) ==> empty@.len() == 0,
    ensures
        final(buffers)@ == if field_node.has_length() {
            without_front(old(buffers)@)
        } else {
            old(buffers)@
        },
        final(reader).data == old(reader).data,
        r matches Ok(Some(bitmap)) ==> bitmap.wf() && bitmap.offset == 0 && bitmap.length
            == field_node.length,
        (validity_contents(r), final(reader).position as int, final(scratch)@) == validity_read(
            space is Some,
            old(buffers)@,
            field_node,
            old(reader).data@,
            old(reader).position as int,
            block_offset,
            is_little_endian,
            compression,
            old(scratch)@,
        ),
{
    let length = match usize::try_from(field_node.length) {
        Ok(length) => length,
        Err(_) => {
            return Err(Error::from(OutOfSpecKind::NegativeFooterLength));
        },
    };
    if field_node.null_count > 0 {
        match read_bitmap_on(
            space,
            buffers,
            length,
            reader,
            block_offset,
            is_little_endian,
            compression,
            scratch,
        ) {
            Ok(bitmap) => Ok(Some(bitmap)),
            Err(e) => Err(e),
        }
    } else {
        match buffers.pop_front() {
            Some(_) => Ok(None),
            None => Err(Error::from(OutOfSpecKind::ExpectedBuffer)),
        }
    }
}

/// Reads which slots of a field are valid from the buffer at the front of the queue,
/// which it takes. A field without nulls has such a buffer too, which says nothing.
///
/// # Error
/// Errors when the length of the field is negative or does not fit in memory, when the
/// queue is empty, and where the field has nulls as [`read_bitmap`]
pub fn read_validity(
    buffers: &mut VecDeque<IpcBuffer>,
    field_node: Node,
    reader: &mut ByteReader<'_>,
    block_offset: u64,
    is_little_endian: bool,
    compression: Option<Compression>,
    scratch: &mut Vec<u8>,
) -> (r: Result<Option<Bitmap>, Error>)
    requires
        field_node.has_length() && field_node.null_count > 0 ==> front_bitmap_readable(
            old(buffers)@,
            field_node.length as usize,
            old(reader).data@,
            block_offset,
            compression,
        ),
    ensures
        final(buffers)@ == if field_node.has_length() {
            without_front(old(buffers)@)
        } else {
            old(buffers)@
        },
        final(reader).data == old(reader).data,
        r matches Ok(Some(bitmap)) ==> bitmap.wf() && bitmap.offset == 0 && bitmap.length
            == field_node.length,
        exists|reserved: bool|
            {
                &&& field_node.has_length() && field_node.null_count > 0 && front_failure(
                    old(buffers)@,
                ) is None && (compression is Some || field_node.length <= old(buffers)@[0].length
                    * 8) ==> is_memory_had(old(buffers)@[0].length as usize, reserved)
                &&& (validity_contents(r), final(reader).position as int, final(scratch)@)
                    == #[trigger] validity_read(
                    reserved,
                    old(buffers)@,
                    field_node,
                    old(reader).data@,
                    old(reader).position as int,
                    block_offset,
                    is_little_endian,
                    compression,
                    old(scratch)@,
                )
            },
{
    let space = match usize::try_from(field_node.length) {
        Ok(length) if field_node.null_count > 0 => reserve_front_bitmap(
            buffers,
            length,
            compression,
            scratch,
        ),
        _ => None,
    };
    assert(validity_read(
        space is Some,
        buffers@,
        field_node,
        reader.data@,
        reader.position as int,
        block_offset,
        is_little_endian,
        compression,
        scratch@,
    ) == validity_read(
        space is Some,
        buffers@,
        field_node,
        reader.data@,
        reader.position as int,
        block_offset,
        is_little_endian,
        compression,
        old(scratch)@,
    ));
    read_validity_on(
        space,
        buffers,
        field_node,
        reader,
        block_offset,
        is_little_endian,
        compression,
        scratch,
    )
}

} // verus!
