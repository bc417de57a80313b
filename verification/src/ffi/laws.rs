//! What holds of arrays on the C data interface.
use vstd::prelude::*;

use crate::datatypes::{DataType, PhysicalType};
use crate::ffi::array::ArrowArray;
use crate::types::NativeType;

verus! {

/// An array is released once: dropping it again changes nothing, and what has been
/// dropped has no callback left.
pub proof fn law_dropped_once(array: ArrowArray)
    ensures
        array.dropped().dropped() == array.dropped(),
        !array.dropped().release,
{
}

/// Releasing an array gives up all that it points to and its callback; dropping it does so
/// exactly where it has a callback.
pub proof fn law_released_gives_up(array: ArrowArray)
    ensures
        array.released().buffers is None,
        array.released().children is None,
        array.released().dictionary is None,
        !array.released().release,
        array.release ==> array.dropped() == array.released(),
        !array.release ==> array.dropped() == array,
{
}

/// Releasing an array gives up its memory and leaves the numbers that describe it.
pub proof fn law_released_keeps_numbers(array: ArrowArray)
    ensures
        array.released().length == array.length,
        array.released().null_count == array.null_count,
        array.released().offset == array.offset,
        array.released().n_buffers == array.n_buffers,
        array.released().n_children == array.n_children,
{
}

/// The slots that a buffer has of the array's own: as many as the array is long, one more
/// where they are offsets, and for each as many bytes as the type says where they are
/// bytes of a fixed number.
pub proof fn law_own_slots(array: ArrowArray, data_type: DataType, i: int)
    requires
        !(i == 2 && (crate::ffi::array::has_bytes(data_type.physical())
            || crate::ffi::array::has_large_bytes(data_type.physical()))),
        !(i == 1 && data_type.physical() is FixedSizeList),
    ensures
        crate::ffi::array::spec_buffer_len(array, data_type, i)
            - crate::ffi::array::spec_buffer_offset(array, data_type, i) == if i == 1
            && crate::ffi::array::has_offsets(data_type.physical()) {
            (array.length as usize) + 1
        } else if i == 1 && data_type.physical() is FixedSizeBinary {
            data_type.fixed_size() * (array.length as usize)
        } else {
            (array.length as usize) as int
        },
{
    let size = data_type.fixed_size() as int;
    let offset = (array.offset as usize) as int;
    let length = (array.length as usize) as int;
    assert(size * (offset + length) - offset * size == size * length) by (nonlinear_arith);
}

/// Bytes that offsets point into are read from their start, whatever the offset of the
/// array, up to where the last offset points.
pub proof fn law_bytes_are_whole(array: ArrowArray, data_type: DataType)
    ensures
        crate::ffi::array::has_bytes(data_type.physical()) ==> {
            &&& crate::ffi::array::spec_buffer_offset(array, data_type, 2) == 0
            &&& crate::ffi::array::spec_buffer_len(array, data_type, 2)
                == crate::ffi::array::last_offset::<i32>(array) as usize
        },
        crate::ffi::array::has_large_bytes(data_type.physical()) ==> {
            &&& crate::ffi::array::spec_buffer_offset(array, data_type, 2) == 0
            &&& crate::ffi::array::spec_buffer_len(array, data_type, 2)
                == crate::ffi::array::last_offset::<i64>(array) as usize
        },
{
}

/// An array that is read has the type, the offset and the length that the interface says,
/// and a validity of as many slots, if it has one; and it has none where the interface
/// counts no nulls.
pub proof fn law_import_keeps_slots(array: ArrowArray, data_type: DataType)
    ensures
        crate::ffi::import::import(array, data_type) matches Ok(model) ==> {
            &&& model.data_type == data_type
            &&& model.offset == array.offset
            &&& model.length == array.length
            &&& model.validity matches Some(bits) ==> bits.len() == model.length
            &&& array.null_count == 0 ==> model.validity is None
        },
{
}

/// The buffers of an array that is read hold what its layout says: its validity where it
/// counts nulls, the offsets of a union where it is dense, and every other buffer.
pub proof fn law_import_reads_slots(array: ArrowArray, data_type: DataType, i: int)
    requires
        crate::ffi::import::import(array, data_type) is Ok,
        crate::ffi::import::spec_slots_of(data_type.physical(), i) is Some,
        i == 0 ==> data_type.physical() is Union || array.null_count as usize != 0,
        i == 1 && data_type.physical() is Union ==> data_type.is_dense(),
    ensures
        array.has_buffer(i),
        array.region(i) matches Some(region) && crate::ffi::import::spec_slots_of(
            data_type.physical(),
            i,
        )->0.are_in(region),
{
    assert(crate::ffi::import::import_values(array, data_type) is Ok);
    assert(crate::ffi::import::import_validity(array, data_type) is Ok);
}

/// Without buffers and children, such as the empty array is, there is nothing to read but
/// nulls and structs, and the structs have no fields.
pub proof fn law_without_buffers(array: ArrowArray, data_type: DataType)
    requires
        array.buffers is None,
        array.children is None,
        crate::ffi::import::import(array, data_type) is Ok,
    ensures
        data_type.physical() is Null || data_type.physical() is Struct
            && data_type.fields().len() == 0,
{
    let n = data_type.fields().len();
    assert(crate::ffi::import::import_values(array, data_type) is Ok);
    if n > 0 {
        assert(crate::ffi::import::import_child(array, data_type, n - 1) is Err);
        assert(crate::ffi::import::import_children(array, data_type, n) is Err);
    }
}

/// The pointers of an array: a buffer or a child is there when the array counts it and its
/// pointer is among the pointers.
pub proof fn law_pointers(array: ArrowArray, i: int)
    ensures
        array.has_buffer(i) <==> 0 <= i < array.n_buffers as usize && array.buffers is Some && i
            < array.buffers->0@.len(),
        array.has_buffer(i) ==> array.region(i) == array.buffers->0@[i],
        0 <= i < array.n_children as usize && array.children is Some && i
            < array.children->0@.len() ==> array.child(i) == array.children->0@[i],
        !(0 <= i < array.n_children as usize && array.children is Some && i
            < array.children->0@.len()) ==> array.child(i) is None,
        array.end() == (array.offset as usize) + (array.length as usize),
{
}

/// The slices that are the array's own: those of its memory that start where its slots do and
/// end where they do.
pub proof fn law_own_slices<T: NativeType>(array: ArrowArray, data_type: DataType, i: int)
    ensures
        ({
            let buffer = crate::ffi::array::own_buffer::<T>(array, data_type, i);
            let bitmap = crate::ffi::array::own_bitmap(array, i);
            let from = crate::ffi::array::spec_buffer_offset(array, data_type, i);
            let to = crate::ffi::array::spec_buffer_len(array, data_type, i);
            &&& Some(buffer.data) == T::spec_values(array.buffers->0@[i]->0) || T::spec_values(
                array.buffers->0@[i]->0,
            ) is None
            &&& 0 <= from <= to <= usize::MAX ==> buffer.offset == from && buffer.length
                == to - from
            &&& Some(bitmap.bytes) == u8::spec_values(array.buffers->0@[i]->0) || u8::spec_values(
                array.buffers->0@[i]->0,
            ) is None
            &&& bitmap.offset == array.offset as usize
            &&& bitmap.length == array.length as usize
        }),
{
}

/// What it takes to read a buffer: that there is a pointer to it, that its slots can be counted,
/// and that what the pointer points to, if anything, holds as many values of the type.
pub proof fn law_what_buffers_need<T: NativeType>(array: ArrowArray, data_type: DataType, i: int)
    ensures
        ({
            let from = crate::ffi::array::spec_buffer_offset(array, data_type, i);
            let to = crate::ffi::array::spec_buffer_len(array, data_type, i);
            crate::ffi::array::buffer_readable::<T>(array, data_type, i) <==> {
                &&& 0 <= i < array.n_buffers as usize && array.buffers is Some && i
                    < array.buffers->0@.len()
                &&& crate::ffi::array::len_defined(array, data_type, i)
                &&& from <= to
                &&& array.buffers->0@[i] matches Some(region) ==> T::spec_values(region) is Some
                    && to <= T::spec_values(region)->0@.len()
            }
        }),
{
}

/// What it takes to read a bitmap: that there is a pointer to it, that its bits can be counted,
/// and that what the pointer points to, if anything, holds bytes enough.
pub proof fn law_what_bitmaps_need(array: ArrowArray, i: int)
    ensures
        ({
            let end = (array.offset as usize) + (array.length as usize);
            crate::ffi::array::bitmap_readable(array, i) <==> {
                &&& 0 <= i < array.n_buffers as usize && array.buffers is Some && i
                    < array.buffers->0@.len()
                &&& end + 7 <= usize::MAX
                &&& array.buffers->0@[i] matches Some(region) ==> u8::spec_values(region) is Some
                    && (end + 7) / 8 <= u8::spec_values(region)->0@.len()
            }
        }),
{
}

/// When the slots of a buffer can be counted: when their number fits, and, where it is the last
/// of some offsets, when those are there.
pub proof fn law_what_lengths_need(array: ArrowArray, data_type: DataType, i: int)
    ensures
        ({
            let end = (array.offset as usize) + (array.length as usize);
            let layout = data_type.physical();
            let with_offsets = layout is Utf8 || layout is LargeUtf8 || layout is Binary || layout
                is LargeBinary || layout is List || layout is LargeList || layout is Mapping;
            let held = array.buffers is Some && 1 < array.buffers->0@.len()
                && array.buffers->0@[1] is Some;
            crate::ffi::array::len_defined(array, data_type, i) <==> {
                &&& end <= usize::MAX
                &&& i == 1 && (layout is FixedSizeBinary || layout is FixedSizeList)
                    ==> data_type.fixed_size() * end <= usize::MAX
                &&& i == 1 && with_offsets ==> end < usize::MAX
                &&& i == 2 && (layout is Utf8 || layout is Binary) ==> {
                    &&& end < usize::MAX && held
                    &&& i32::spec_values(array.buffers->0@[1]->0) matches Some(offsets) && end
                        < offsets@.len()
                }
                &&& i == 2 && (layout is LargeUtf8 || layout is LargeBinary) ==> {
                    &&& end < usize::MAX && held
                    &&& i64::spec_values(array.buffers->0@[1]->0) matches Some(offsets) && end
                        < offsets@.len()
                }
            }
        }),
{
}

/// What it takes to read a child: that a struct or a union has such a field, and that the pointer
/// of a child that the type has is there.
pub proof fn law_what_children_need(array: ArrowArray, data_type: DataType, i: int)
    ensures
        crate::ffi::schema::beyond_fields(data_type, i) <==> (data_type.logical() is Struct
            || data_type.logical() is Union) && i >= data_type.fields().len(),
        crate::ffi::array::child_readable(array, data_type, i)
            <==> !crate::ffi::schema::beyond_fields(data_type, i) && (data_type.child(i) is Some
            ==> array.child(i) is Some),
{
}

/// The layouts with offsets, and those of them whose offsets point into bytes.
pub proof fn law_layouts_with_offsets(layout: PhysicalType, i: int)
    ensures
        crate::ffi::array::has_offsets(layout) <==> layout is Utf8 || layout is LargeUtf8 || layout
            is Binary || layout is LargeBinary || layout is List || layout is LargeList || layout
            is Mapping,
        crate::ffi::array::has_bytes(layout) <==> layout is Utf8 || layout is Binary,
        crate::ffi::array::has_large_bytes(layout) <==> layout is LargeUtf8
            || layout is LargeBinary,
        crate::ffi::array::is_fixed_size(layout, i) <==> i == 1 && (layout is FixedSizeBinary
            || layout is FixedSizeList),
{
}

/// What the errors say.
pub proof fn law_messages(i: nat)
    ensures
        crate::ffi::array::null_buffers_message() == "The array buffers are null"@,
        crate::ffi::array::null_buffer_message(i) == crate::text::around(
            "The buffer at position "@,
            i,
            " is null"@,
        ),
        crate::ffi::array::null_bitmap_message(i) == crate::text::around(
            "The buffer "@,
            i,
            " is a null pointer and cannot be interpreted as a bitmap"@,
        ),
        crate::ffi::import::short_buffer_message(i) == crate::text::around(
            "The buffer at position "@,
            i,
            " does not hold the slots of the array"@,
        ),
        crate::ffi::import::missing_child_message(i) == crate::text::around(
            "The child at position "@,
            i,
            " is not there"@,
        ),
        crate::ffi::schema::no_child_message(i) == crate::text::around(
            "Requested child "@,
            i,
            " of a type that has no such child"@,
        ),
{
}

} // verus!
