//! What holds of the reads of this module as a whole.
use vstd::prelude::*;

use crate::error::Failure;
use crate::ipc::compression::Compression;
use crate::ipc::read_basic::{IpcBuffer, Node};
use crate::types::NativeType;

verus! {

/// A buffer that holds the slots asked for can hold more, and more can follow it: what
/// comes behind the slots does not change what is read.
pub proof fn law_padding_is_not_read<T: NativeType>(
    native_little_endian: bool,
    slots: Seq<u8>,
    padding: Seq<u8>,
    buffer_length: usize,
    length: usize,
    is_little_endian: bool,
)
    requires
        length * T::spec_slot_size() == slots.len() <= buffer_length,
    ensures
        crate::ipc::read_basic::uncompressed_values::<T>(
            native_little_endian,
            slots + padding,
            buffer_length,
            length,
            is_little_endian,
        ) == crate::ipc::read_basic::uncompressed_values::<T>(
            native_little_endian,
            slots,
            slots.len() as usize,
            length,
            is_little_endian,
        ),
        crate::ipc::read_basic::uncompressed_read::<T>(slots + padding, buffer_length, length)
            == slots.len(),
{
    assert forall|i: int| 0 <= i < length implies #[trigger] crate::types::piece(
        slots + padding,
        T::spec_slot_size(),
        i,
    ) == crate::types::piece(slots, T::spec_slot_size(), i) by {
        let size = T::spec_slot_size();
        assert(0 <= i * size && i * size + size <= length * size) by (nonlinear_arith)
            requires
                0 <= i < length,
        ;
        assert(crate::types::piece(slots + padding, size, i) =~= crate::types::piece(
            slots,
            size,
            i,
        ));
    }
    assert(crate::ipc::read_basic::values_of::<T>(slots + padding, length as nat, is_little_endian)
        =~= crate::ipc::read_basic::values_of::<T>(slots, length as nat, is_little_endian));
}

/// A little endian machine reads the same values from a file of either byte order, when
/// the slots of the one hold the bytes of the slots of the other, swapped.
pub proof fn law_byte_orders_agree<T: NativeType>(
    little: Seq<u8>,
    big: Seq<u8>,
    buffer_length: usize,
    length: usize,
)
    requires
        little.len() == big.len(),
        forall|i: int|
            0 <= i < length && i * T::spec_slot_size() + T::spec_slot_size() <= little.len()
                ==> #[trigger] crate::types::piece(big, T::spec_slot_size(), i)
                == T::spec_swapped(crate::types::piece(little, T::spec_slot_size(), i)),
    ensures
        crate::ipc::read_basic::uncompressed_values::<T>(
            true,
            big,
            buffer_length,
            length,
            false,
        ) == crate::ipc::read_basic::uncompressed_values::<T>(
            true,
            little,
            buffer_length,
            length,
            true,
        ),
        length * T::spec_slot_size() <= buffer_length && length * T::spec_slot_size()
            <= little.len() ==> crate::ipc::read_basic::uncompressed_values::<T>(
            true,
            little,
            buffer_length,
            length,
            true,
        ) is Ok,
{
    let size = T::spec_slot_size();
    if length * size <= little.len() {
        assert forall|i: int| 0 <= i < length implies #[trigger] T::spec_from_be(
            crate::types::piece(big, size, i),
        ) == T::spec_from_le(crate::types::piece(little, size, i)) by {
            assert(0 <= i * size && i * size + size <= length * size) by (nonlinear_arith)
                requires
                    0 <= i < length,
            ;
            T::law_swapped(crate::types::piece(little, size, i));
        }
        assert(crate::ipc::read_basic::values_of::<T>(big, length as nat, false)
            =~= crate::ipc::read_basic::values_of::<T>(little, length as nat, true));
    }
}

/// The bytes of a value in the given order.
pub open spec fn bytes_of<T: NativeType>(value: T, is_little_endian: bool) -> Seq<u8> {
    if is_little_endian {
        value.spec_to_le()
    } else {
        T::spec_swapped(value.spec_to_le())
    }
}

/// The bytes of the values, one after the other.
pub open spec fn stored<T: NativeType>(values: Seq<T>, is_little_endian: bool) -> Seq<u8> {
    let size = T::spec_slot_size();
    Seq::new(
        values.len() * size,
        |k: int| bytes_of(values[k / (size as int)], is_little_endian)[k % (size as int)],
    )
}

proof fn lemma_piece_of_stored<T: NativeType>(
    values: Seq<T>,
    is_little_endian: bool,
    size: nat,
    i: int,
)
    requires
        size == T::spec_slot_size(),
        0 <= i < values.len(),
    ensures
        crate::types::piece(stored(values, is_little_endian), size, i) == bytes_of(
            values[i],
            is_little_endian,
        ),
        bytes_of(values[i], is_little_endian).len() == size,
        crate::ipc::read_basic::value_of::<T>(bytes_of(values[i], is_little_endian), is_little_endian)
            == values[i],
{
    let bytes = bytes_of(values[i], is_little_endian);
    values[i].law_to_le();
    T::law_swapped(values[i].spec_to_le());
    let all = stored(values, is_little_endian);
    assert(0 <= i * size && i * size + size <= values.len() * size) by (nonlinear_arith)
        requires
            0 <= i < values.len(),
    ;
    assert forall|j: int| 0 <= j < size implies #[trigger] crate::types::piece(all, size, i)[j]
        == bytes[j] by {
        vstd::arithmetic::div_mod::lemma_fundamental_div_mod_converse(
            i * size + j,
            size as int,
            i,
            j,
        );
    }
    assert(crate::types::piece(all, size, i) =~= bytes);
}

/// What was stored is read: from a buffer that holds the bytes of the values in the byte
/// order of the file, with or without padding, a machine that can read that order reads
/// the values.
pub proof fn law_stored_values_are_read<T: NativeType>(
    native_little_endian: bool,
    reserved: bool,
    values: Seq<T>,
    padding: Seq<u8>,
    buffer_length: usize,
    length: usize,
    is_little_endian: bool,
    scratch: Seq<u8>,
)
    requires
        length == values.len(),
        length * T::spec_slot_size() <= buffer_length,
        is_little_endian ==> native_little_endian,
    ensures
        crate::ipc::read_basic::uncompressed_values::<T>(
            native_little_endian,
            stored(values, is_little_endian) + padding,
            buffer_length,
            length,
            is_little_endian,
        ) == Ok::<Seq<T>, Failure>(values),
        crate::ipc::read_basic::any_buffer::<T>(
            native_little_endian,
            reserved,
            stored(values, is_little_endian) + padding,
            buffer_length,
            length,
            is_little_endian,
            None,
            scratch,
        ).result == Ok::<Seq<T>, Failure>(values),
{
    let all = stored(values, is_little_endian);
    law_padding_is_not_read::<T>(
        native_little_endian,
        all,
        padding,
        buffer_length,
        length,
        is_little_endian,
    );
    assert forall|i: int| 0 <= i < length implies #[trigger] crate::ipc::read_basic::values_of::<T>(
        all,
        length as nat,
        is_little_endian,
    )[i] == values[i] by {
        lemma_piece_of_stored(values, is_little_endian, T::spec_slot_size(), i);
    }
    assert(crate::ipc::read_basic::values_of::<T>(all, length as nat, is_little_endian) =~= values);
}

/// Big endian values that are read into a buffer of as many slots replace what it held.
pub proof fn law_stored_values_are_swapped<T: NativeType>(
    values: Seq<T>,
    more: Seq<u8>,
    buffer: Seq<T>,
)
    requires
        buffer.len() == values.len(),
    ensures
        stored(values, false).len() == values.len() * T::spec_slot_size(),
        crate::ipc::read_basic::swapped_into::<T>(stored(values, false) + more, values.len(), buffer)
            == values,
{
    let all = stored(values, false);
    let size = T::spec_slot_size();
    assert forall|i: int| 0 <= i < values.len() implies #[trigger] crate::types::piece(
        all + more,
        size,
        i,
    ) == bytes_of(values[i], false) by {
        lemma_piece_of_stored(values, false, size, i);
        assert(0 <= i * size && i * size + size <= values.len() * size) by (nonlinear_arith)
            requires
                0 <= i < values.len(),
        ;
        assert(crate::types::piece(all + more, size, i) =~= crate::types::piece(all, size, i));
    }
    assert forall|i: int| 0 <= i < values.len() implies #[trigger] crate::ipc::read_basic::swapped_into::<
        T,
    >(all + more, values.len(), buffer)[i] == values[i] by {
        lemma_piece_of_stored(values, false, size, i);
    }
    assert(crate::ipc::read_basic::swapped_into::<T>(all + more, values.len(), buffer) =~= values);
}

/// What was stored and compressed is read: where the codec gives back the bytes of the
/// values, in the byte order of this machine, the values are read.
pub proof fn law_compressed_values_are_read<T: NativeType>(
    native_little_endian: bool,
    values: Seq<T>,
    rest: Seq<u8>,
    buffer_length: usize,
    length: usize,
    compression: Compression,
    scratch: Seq<u8>,
)
    requires
        length == values.len(),
        crate::ipc::read_basic::decompressed(
            compression,
            crate::ipc::reader::at_most(rest, buffer_length as nat),
            (length * T::spec_slot_size()) as nat,
        ) == Ok::<Seq<u8>, Failure>(stored(values, native_little_endian)),
    ensures
        crate::ipc::read_basic::any_buffer::<T>(
            native_little_endian,
            true,
            rest,
            buffer_length,
            length,
            native_little_endian,
            Some(compression),
            scratch,
        ).result == Ok::<Seq<T>, Failure>(values),
{
    let all = stored(values, native_little_endian);
    assert forall|i: int| 0 <= i < length implies #[trigger] crate::ipc::read_basic::values_of::<T>(
        all,
        length as nat,
        native_little_endian,
    )[i] == values[i] by {
        lemma_piece_of_stored(values, native_little_endian, T::spec_slot_size(), i);
    }
    assert(crate::ipc::read_basic::values_of::<T>(all, length as nat, native_little_endian)
        =~= values);
}

/// A machine that can read the byte order of the file reads an uncompressed buffer exactly
/// when its slots fit into it and the file holds them. It leaves the scratch space alone.
pub proof fn law_uncompressed_buffer_is_read<T: NativeType>(
    native_little_endian: bool,
    reserved: bool,
    rest: Seq<u8>,
    buffer_length: usize,
    length: usize,
    is_little_endian: bool,
    scratch: Seq<u8>,
)
    requires
        is_little_endian ==> native_little_endian,
    ensures
        ({
            let outcome = crate::ipc::read_basic::any_buffer::<T>(
                native_little_endian,
                reserved,
                rest,
                buffer_length,
                length,
                is_little_endian,
                None,
                scratch,
            );
            let required = length * T::spec_slot_size();
            &&& outcome.result is Ok <==> required <= buffer_length && required <= rest.len()
            &&& outcome.result matches Ok(values) ==> values
                == crate::ipc::read_basic::values_of::<T>(rest, length as nat, is_little_endian)
            &&& outcome.scratch == scratch
        }),
{
}

/// With memory for its bytes, an uncompressed bitmap is read exactly when both the buffer
/// and the file have bytes enough for its bits. It leaves the scratch space alone.
pub proof fn law_uncompressed_bitmap_is_read(
    rest: Seq<u8>,
    length: usize,
    bytes: usize,
    scratch: Seq<u8>,
)
    ensures
        ({
            let outcome = crate::ipc::read_basic::any_bitmap(
                true,
                rest,
                length,
                bytes,
                None,
                scratch,
            );
            &&& outcome.result is Ok <==> length <= bytes * 8 && length <= rest.len() * 8
            &&& outcome.result matches Ok(bits) ==> bits == crate::bitmap::bits_of(
                rest,
                length as nat,
            )
            &&& outcome.scratch == scratch
        }),
{
    let taken = crate::ipc::reader::at_most(rest, bytes as nat);
    if length <= taken.len() * 8 {
        assert(crate::bitmap::bits_of(taken, length as nat) =~= crate::bitmap::bits_of(
            rest,
            length as nat,
        ));
    }
}

/// A buffer that is read holds as many values as were asked for.
pub proof fn law_buffer_has_its_length<T: NativeType>(
    native_little_endian: bool,
    reserved: bool,
    rest: Seq<u8>,
    buffer_length: usize,
    length: usize,
    is_little_endian: bool,
    compression: Option<Compression>,
    scratch: Seq<u8>,
)
    ensures
        crate::ipc::read_basic::any_buffer::<T>(
            native_little_endian,
            reserved,
            rest,
            buffer_length,
            length,
            is_little_endian,
            compression,
            scratch,
        ).result matches Ok(values) ==> values.len() == length,
{
}

/// A bitmap is read from as many bytes as its bits need: neither the rest of the buffer
/// nor what follows it changes which bits are read.
pub proof fn law_bitmap_padding_is_not_read(
    bits: Seq<u8>,
    padding: Seq<u8>,
    length: usize,
    bytes: usize,
    scratch: Seq<u8>,
)
    requires
        length <= bits.len() * 8,
        bits.len() <= bytes,
    ensures
        crate::ipc::read_basic::any_bitmap(
            true,
            bits + padding,
            length,
            bytes,
            None,
            scratch,
        ).result == Ok::<Seq<bool>, Failure>(crate::bitmap::bits_of(bits, length as nat)),
{
    let taken = crate::ipc::reader::at_most(bits + padding, bytes as nat);
    assert(crate::bitmap::bits_of(taken, length as nat) =~= crate::bitmap::bits_of(
        bits,
        length as nat,
    ));
}

/// A field whose validity is read has a bitmap if and only if it has nulls, and the bitmap
/// has a bit for each of its slots. Where it has nulls, reading its validity is reading
/// that bitmap: with the same result, leaving the same reader and the same scratch space.
pub proof fn law_validity_is_there_for_nulls(
    reserved: bool,
    buffers: Seq<IpcBuffer>,
    field_node: Node,
    data: Seq<u8>,
    position: int,
    block_offset: u64,
    is_little_endian: bool,
    compression: Option<Compression>,
    scratch: Seq<u8>,
)
    ensures
        ({
            let validity = crate::ipc::read_basic::validity_read(
                reserved,
                buffers,
                field_node,
                data,
                position,
                block_offset,
                is_little_endian,
                compression,
                scratch,
            );
            let bitmap = crate::ipc::read_basic::bitmap_read(
                reserved,
                buffers,
                field_node.length as usize,
                data,
                position,
                block_offset,
                is_little_endian,
                compression,
                scratch,
            );
            &&& validity.0 matches Ok(found) ==> match found {
                Some(bits) => field_node.null_count > 0 && bits.len() == field_node.length,
                None => field_node.null_count <= 0,
            }
            &&& field_node.has_length() && field_node.null_count > 0 ==> {
                &&& validity.0 == match bitmap.0 {
                    Ok(bits) => Ok::<Option<Seq<bool>>, Failure>(Some(bits)),
                    Err(failure) => Err(failure),
                }
                &&& validity.1 == bitmap.1
                &&& validity.2 == bitmap.2
            }
        }),
{
}

/// The byte order of the file has no influence on a bitmap, compressed or not: neither on
/// what is read, nor on where the reader is then, nor on the scratch space. No bitmap is
/// refused for its byte order.
pub proof fn law_bitmap_has_no_byte_order(
    reserved: bool,
    buffers: Seq<IpcBuffer>,
    length: usize,
    data: Seq<u8>,
    position: int,
    block_offset: u64,
    compression: Option<Compression>,
    scratch: Seq<u8>,
)
    ensures
        crate::ipc::read_basic::bitmap_read(
            reserved,
            buffers,
            length,
            data,
            position,
            block_offset,
            true,
            compression,
            scratch,
        ) == crate::ipc::read_basic::bitmap_read(
            reserved,
            buffers,
            length,
            data,
            position,
            block_offset,
            false,
            compression,
            scratch,
        ),
        forall|is_little_endian: bool| #[trigger]
            crate::ipc::read_basic::bitmap_read(
                reserved,
                buffers,
                length,
                data,
                position,
                block_offset,
                is_little_endian,
                compression,
                scratch,
            ).0 matches Err(failure) ==> !(failure is NotYetImplemented),
{
}

/// A compressed read depends on the body behind the first eight bytes alone: the same body
/// gives the same result, whatever the scratch space held.
pub proof fn law_compressed_reads_its_body<T: NativeType>(
    native_little_endian: bool,
    reserved: bool,
    one: Seq<u8>,
    other: Seq<u8>,
    buffer_length: usize,
    length: usize,
    is_little_endian: bool,
    compression: Compression,
    one_scratch: Seq<u8>,
    other_scratch: Seq<u8>,
)
    requires
        crate::ipc::read_basic::compressed_body(
            crate::ipc::reader::at_most(one, buffer_length as nat),
        ) == crate::ipc::read_basic::compressed_body(
            crate::ipc::reader::at_most(other, buffer_length as nat),
        ),
    ensures
        crate::ipc::read_basic::compressed_buffer::<T>(
            native_little_endian,
            reserved,
            one,
            buffer_length,
            length,
            is_little_endian,
            compression,
            one_scratch,
        ).result == crate::ipc::read_basic::compressed_buffer::<T>(
            native_little_endian,
            reserved,
            other,
            buffer_length,
            length,
            is_little_endian,
            compression,
            other_scratch,
        ).result,
        crate::ipc::read_basic::any_bitmap(
            reserved,
            one,
            length,
            buffer_length,
            Some(compression),
            one_scratch,
        ).result == crate::ipc::read_basic::any_bitmap(
            reserved,
            other,
            length,
            buffer_length,
            Some(compression),
            other_scratch,
        ).result,
{
}

/// The eight bytes in front of a compressed buffer, the bytes behind it and what the
/// scratch space held have no influence on what is read.
pub proof fn law_compressed_prefix_is_not_read<T: NativeType>(
    native_little_endian: bool,
    reserved: bool,
    one: Seq<u8>,
    other: Seq<u8>,
    buffer_length: usize,
    length: usize,
    is_little_endian: bool,
    compression: Compression,
    one_scratch: Seq<u8>,
    other_scratch: Seq<u8>,
)
    requires
        buffer_length >= 8,
        one.len() >= 8,
        other.len() >= 8,
        one.len() >= buffer_length && other.len() >= buffer_length || one.len() == other.len(),
        forall|i: int|
            8 <= i < buffer_length && i < one.len() ==> #[trigger] one[i] == #[trigger] other[i],
    ensures
        crate::ipc::read_basic::compressed_buffer::<T>(
            native_little_endian,
            reserved,
            one,
            buffer_length,
            length,
            is_little_endian,
            compression,
            one_scratch,
        ).result == crate::ipc::read_basic::compressed_buffer::<T>(
            native_little_endian,
            reserved,
            other,
            buffer_length,
            length,
            is_little_endian,
            compression,
            other_scratch,
        ).result,
        crate::ipc::read_basic::any_bitmap(
            reserved,
            one,
            length,
            buffer_length,
            Some(compression),
            one_scratch,
        ).result == crate::ipc::read_basic::any_bitmap(
            reserved,
            other,
            length,
            buffer_length,
            Some(compression),
            other_scratch,
        ).result,
{
    assert(crate::ipc::read_basic::compressed_body(
        crate::ipc::reader::at_most(one, buffer_length as nat),
    ) =~= crate::ipc::read_basic::compressed_body(
        crate::ipc::reader::at_most(other, buffer_length as nat),
    ));
    law_compressed_reads_its_body::<T>(
        native_little_endian,
        reserved,
        one,
        other,
        buffer_length,
        length,
        is_little_endian,
        compression,
        one_scratch,
        other_scratch,
    );
}

/// Bytes that no codec is known for are not decompressed, whatever they hold, and the
/// error says why.
pub proof fn law_unknown_codec_is_refused<T: NativeType>(
    native_little_endian: bool,
    rest: Seq<u8>,
    buffer_length: usize,
    length: usize,
    compression: Compression,
    scratch: Seq<u8>,
)
    requires
        compression.codec != Some(0i8),
        compression.codec != Some(1i8),
    ensures
        crate::ipc::read_basic::any_buffer::<T>(
            native_little_endian,
            true,
            rest,
            buffer_length,
            length,
            native_little_endian,
            Some(compression),
            scratch,
        ).result == Err::<Seq<T>, Failure>(
            Failure::InvalidFlatbufferCompression(
                match compression.codec {
                    Some(tag) => crate::error::InvalidCodec::UnknownTag(tag),
                    None => crate::error::InvalidCodec::Unreadable,
                },
            ),
        ),
        crate::ipc::read_basic::any_bitmap(
            true,
            rest,
            length,
            buffer_length,
            Some(compression),
            scratch,
        ).result == Err::<Seq<bool>, Failure>(
            Failure::InvalidFlatbufferCompression(
                match compression.codec {
                    Some(tag) => crate::error::InvalidCodec::UnknownTag(tag),
                    None => crate::error::InvalidCodec::Unreadable,
                },
            ),
        ),
{
}

} // verus!
