//! From the C data interface to arrays.
use vstd::prelude::*;

use crate::array::{Array, ArrayModel, PrimitiveModel, PrimitiveValues, Values, ValuesModel};
use crate::bitmap::{bytes_for, Bitmap};
use crate::buffer::Buffer;
use crate::datatypes::{DataType, PhysicalType, PrimitiveType, UnionMode};
use crate::error::Error;
use crate::ffi::array::{
    buffer_len, buffer_offset, create_dictionary, ArrowArray, ArrowArrayChild, ArrowArrayRef,
};
use crate::text::write_around;
use crate::types::{DaysMs, MonthsDaysNs, NativeType, Region};

verus! {

/// The text of the error for a buffer that does not hold what the array needs.
pub open spec fn short_buffer_message(i: nat) -> Seq<char> {
    crate::text::around("The buffer at position "@, i, " does not hold the slots of the array"@)
}

/// The text of the error for a child whose pointer is missing or null.
pub open spec fn missing_child_message(i: nat) -> Seq<char> {
    crate::text::around("The child at position "@, i, " is not there"@)
}

/// The values that buffer `i` holds for the array's own slots, or why it cannot be
/// read as values of this type.
pub open spec fn buffer_values<T: NativeType>(
    array: ArrowArray,
    data_type: DataType,
    i: int,
) -> Result<Seq<T>, Seq<char>> {
    if array.buffers is None {
        Err(crate::ffi::array::null_buffers_message())
    } else if !crate::ffi::array::buffer_readable::<T>(array, data_type, i) {
        Err(short_buffer_message(i as nat))
    } else if array.region(i) is None {
        Err(crate::ffi::array::null_buffer_message(i as nat))
    } else {
        Ok(crate::ffi::array::own_buffer::<T>(array, data_type, i)@)
    }
}

/// The bits that buffer `i` holds for the array's own slots, or why it cannot be read
/// as bits.
pub open spec fn bitmap_values(array: ArrowArray, i: int) -> Result<Seq<bool>, Seq<char>> {
    if array.buffers is None {
        Err(crate::ffi::array::null_buffers_message())
    } else if !crate::ffi::array::bitmap_readable(array, i) {
        Err(short_buffer_message(i as nat))
    } else if array.region(i) is None {
        Err(crate::ffi::array::null_bitmap_message(i as nat))
    } else {
        Ok(crate::ffi::array::own_bitmap(array, i)@)
    }
}

/// The slots that buffer 1 holds, where their type is `kind`.
pub open spec fn primitive_values(
    array: ArrowArray,
    data_type: DataType,
    kind: PrimitiveType,
) -> Result<PrimitiveModel, Seq<char>> {
    match kind {
        PrimitiveType::Int8 => match buffer_values::<i8>(array, data_type, 1) {
            Ok(values) => Ok(PrimitiveModel::Int8(values)),
            Err(message) => Err(message),
        },
        PrimitiveType::Int16 => match buffer_values::<i16>(array, data_type, 1) {
            Ok(values) => Ok(PrimitiveModel::Int16(values)),
            Err(message) => Err(message),
        },
        PrimitiveType::Int32 => match buffer_values::<i32>(array, data_type, 1) {
            Ok(values) => Ok(PrimitiveModel::Int32(values)),
            Err(message) => Err(message),
        },
        PrimitiveType::Int64 => match buffer_values::<i64>(array, data_type, 1) {
            Ok(values) => Ok(PrimitiveModel::Int64(values)),
            Err(message) => Err(message),
        },
        PrimitiveType::Int128 => match buffer_values::<i128>(array, data_type, 1) {
            Ok(values) => Ok(PrimitiveModel::Int128(values)),
            Err(message) => Err(message),
        },
        PrimitiveType::UInt8 => match buffer_values::<u8>(array, data_type, 1) {
            Ok(values) => Ok(PrimitiveModel::UInt8(values)),
            Err(message) => Err(message),
        },
        PrimitiveType::UInt16 => match buffer_values::<u16>(array, data_type, 1) {
            Ok(values) => Ok(PrimitiveModel::UInt16(values)),
            Err(message) => Err(message),
        },
        PrimitiveType::UInt32 => match buffer_values::<u32>(array, data_type, 1) {
            Ok(values) => Ok(PrimitiveModel::UInt32(values)),
            Err(message) => Err(message),
        },
        PrimitiveType::UInt64 => match buffer_values::<u64>(array, data_type, 1) {
            Ok(values) => Ok(PrimitiveModel::UInt64(values)),
            Err(message) => Err(message),
        },
        PrimitiveType::Float16 => match buffer_values::<u16>(array, data_type, 1) {
            Ok(values) => Ok(PrimitiveModel::Float16(values)),
            Err(message) => Err(message),
        },
        PrimitiveType::Float32 => match buffer_values::<u32>(array, data_type, 1) {
            Ok(values) => Ok(PrimitiveModel::Float32(values)),
            Err(message) => Err(message),
        },
        PrimitiveType::Float64 => match buffer_values::<u64>(array, data_type, 1) {
            Ok(values) => Ok(PrimitiveModel::Float64(values)),
            Err(message) => Err(message),
        },
        PrimitiveType::DaysMs => match buffer_values::<DaysMs>(array, data_type, 1) {
            Ok(values) => Ok(PrimitiveModel::DaysMs(values)),
            Err(message) => Err(message),
        },
        PrimitiveType::MonthDayNano => match buffer_values::<MonthsDaysNs>(array, data_type, 1) {
            Ok(values) => Ok(PrimitiveModel::MonthDayNano(values)),
            Err(message) => Err(message),
        },
    }
}

/// Whether the array counts its slots with numbers that fit in memory.
pub open spec fn valid_slots(array: ArrowArray) -> bool {
    0 <= array.offset && 0 <= array.length && array.offset + array.length <= usize::MAX
}

/// The validity that the array says its slots have, or why it cannot be read.
pub open spec fn import_validity(array: ArrowArray, data_type: DataType) -> Result<
    Option<Seq<bool>>,
    Seq<char>,
> {
    let layout = data_type.physical();
    if layout is Null || layout is Union || array.null_count as usize == 0 {
        Ok(None)
    } else {
        match bitmap_values(array, 0) {
            Ok(bits) => Ok(Some(bits)),
            Err(message) => Err(message),
        }
    }
}

/// The array of type `data_type` that the C data interface describes as `array`, or
/// why it is not valid.
pub open spec fn import(array: ArrowArray, data_type: DataType) -> Result<ArrayModel, Seq<char>>
    decreases array, 3nat, 0nat,
{
    if !valid_slots(array) {
        Err("The array has no valid number of slots"@)
    } else {
        match import_validity(array, data_type) {
            Ok(validity) => match import_values(array, data_type) {
                Ok(values) => Ok(
                    ArrayModel {
                        data_type,
                        offset: array.offset as nat,
                        length: array.length as nat,
                        validity,
                        values,
                    },
                ),
                Err(message) => Err(message),
            },
            Err(message) => Err(message),
        }
    }
}

/// The child `i` of the array.
pub open spec fn import_child(array: ArrowArray, data_type: DataType, i: int) -> Result<
    ArrayModel,
    Seq<char>,
>
    decreases array, 0nat, 0nat,
{
    match array.children {
        Some(children) => if 0 <= i < children@.len() && i < array.n_children as usize
            && !crate::ffi::schema::beyond_fields(data_type, i) {
            match children@[i] {
                Some(child) => match data_type.child(i) {
                    Some(t) => import(*child, t),
                    None => Err(crate::ffi::schema::no_child_message(i as nat)),
                },
                None => Err(missing_child_message(i as nat)),
            }
        } else {
            Err(missing_child_message(i as nat))
        },
        None => Err(missing_child_message(i as nat)),
    }
}

/// The first `n` children of the array.
pub open spec fn import_children(array: ArrowArray, data_type: DataType, n: nat) -> Result<
    Seq<ArrayModel>,
    Seq<char>,
>
    decreases array, 1nat, n,
{
    if n == 0 {
        Ok(Seq::empty())
    } else {
        match import_children(array, data_type, (n - 1) as nat) {
            Ok(before) => match import_child(array, data_type, n - 1) {
                Ok(last) => Ok(before.push(last)),
                Err(message) => Err(message),
            },
            Err(message) => Err(message),
        }
    }
}

/// The dictionary of the array.
pub open spec fn import_dictionary(array: ArrowArray, data_type: DataType) -> Result<
    ArrayModel,
    Seq<char>,
>
    decreases array, 0nat, 0nat,
{
    match array.dictionary {
        Some(dictionary) => match data_type.logical() {
            DataType::Dictionary(_, t, _) => import(*dictionary, *t),
            _ => Err("The type has no dictionary"@),
        },
        None => Err("The dictionary is not there"@),
    }
}

/// The values that the array holds, as its layout says.
pub open spec fn import_values(array: ArrowArray, data_type: DataType) -> Result<
    ValuesModel,
    Seq<char>,
>
    decreases array, 2nat, 0nat,
{
    match data_type.physical() {
        PhysicalType::Null => Ok(ValuesModel::Null),
        PhysicalType::Boolean => match bitmap_values(array, 1) {
            Ok(bits) => Ok(ValuesModel::Boolean(bits)),
            Err(message) => Err(message),
        },
        PhysicalType::Primitive(kind) => match primitive_values(array, data_type, kind) {
            Ok(values) => Ok(ValuesModel::Primitive(values)),
            Err(message) => Err(message),
        },
        PhysicalType::Utf8 => match buffer_values::<i32>(array, data_type, 1) {
            Ok(first) => match buffer_values::<u8>(array, data_type, 2) {
                Ok(second) => Ok(ValuesModel::Utf8(first, second)),
                Err(message) => Err(message),
            },
            Err(message) => Err(message),
        },
        PhysicalType::LargeUtf8 => match buffer_values::<i64>(array, data_type, 1) {
            Ok(first) => match buffer_values::<u8>(array, data_type, 2) {
                Ok(second) => Ok(ValuesModel::LargeUtf8(first, second)),
                Err(message) => Err(message),
            },
            Err(message) => Err(message),
        },
        PhysicalType::Binary => match buffer_values::<i32>(array, data_type, 1) {
            Ok(first) => match buffer_values::<u8>(array, data_type, 2) {
                Ok(second) => Ok(ValuesModel::Binary(first, second)),
                Err(message) => Err(message),
            },
            Err(message) => Err(message),
        },
        PhysicalType::LargeBinary => match buffer_values::<i64>(array, data_type, 1) {
            Ok(first) => match buffer_values::<u8>(array, data_type, 2) {
                Ok(second) => Ok(ValuesModel::LargeBinary(first, second)),
                Err(message) => Err(message),
            },
            Err(message) => Err(message),
        },
        PhysicalType::List => match buffer_values::<i32>(array, data_type, 1) {
            Ok(first) => match import_child(array, data_type, 0) {
                Ok(second) => Ok(ValuesModel::List(first, Box::new(second))),
                Err(message) => Err(message),
            },
            Err(message) => Err(message),
        },
        PhysicalType::LargeList => match buffer_values::<i64>(array, data_type, 1) {
            Ok(first) => match import_child(array, data_type, 0) {
                Ok(second) => Ok(ValuesModel::LargeList(first, Box::new(second))),
                Err(message) => Err(message),
            },
            Err(message) => Err(message),
        },
        PhysicalType::Mapping => match buffer_values::<i32>(array, data_type, 1) {
            Ok(first) => match import_child(array, data_type, 0) {
                Ok(second) => Ok(ValuesModel::Mapping(first, Box::new(second))),
                Err(message) => Err(message),
            },
            Err(message) => Err(message),
        },
        PhysicalType::FixedSizeBinary => match buffer_values::<u8>(array, data_type, 1) {
            Ok(values) => Ok(ValuesModel::FixedSizeBinary(values)),
            Err(message) => Err(message),
        },
        PhysicalType::FixedSizeList => match import_child(array, data_type, 0) {
            Ok(items) => Ok(ValuesModel::FixedSizeList(Box::new(items))),
            Err(message) => Err(message),
        },
        PhysicalType::Struct => match import_children(
            array,
            data_type,
            data_type.fields().len(),
        ) {
            Ok(fields) => Ok(ValuesModel::Struct(fields)),
            Err(message) => Err(message),
        },
        PhysicalType::Dictionary(key) => match primitive_values(
            array,
            data_type,
            key.primitive(),
        ) {
            Ok(keys) => match import_dictionary(array, data_type) {
                Ok(values) => Ok(ValuesModel::Dictionary(keys, Box::new(values))),
                Err(message) => Err(message),
            },
            Err(message) => Err(message),
        },
        PhysicalType::Union => match buffer_values::<i8>(array, data_type, 0) {
            Ok(types) => match import_union_offsets(array, data_type) {
                Ok(offsets) => match import_children(array, data_type, data_type.fields().len()) {
                    Ok(fields) => Ok(ValuesModel::Union(types, offsets, fields)),
                    Err(message) => Err(message),
                },
                Err(message) => Err(message),
            },
            Err(message) => Err(message),
        },
    }
}

/// The offsets of a union: there are some when it is dense.
pub open spec fn import_union_offsets(array: ArrowArray, data_type: DataType) -> Result<
    Option<Seq<i32>>,
    Seq<char>,
> {
    if data_type.is_dense() {
        match buffer_values::<i32>(array, data_type, 1) {
            Ok(offsets) => Ok(Some(offsets)),
            Err(message) => Err(message),
        }
    } else {
        Ok(None)
    }
}

/// What a buffer holds for the slots of an array
#[derive(Debug, Clone, Copy, PartialEq, Eq, Structural)]
pub enum Slots {
    Bits,
    Values(PrimitiveType),
}

impl Slots {
    /// Whether a region can hold such slots.
    pub open spec fn are_in(self, region: Region) -> bool {
        match self {
            Slots::Bits => u8::spec_values(region) is Some,
            Slots::Values(PrimitiveType::Int8) => i8::spec_values(region) is Some,
            Slots::Values(PrimitiveType::Int16) => i16::spec_values(region) is Some,
            Slots::Values(PrimitiveType::Int32) => i32::spec_values(region) is Some,
            Slots::Values(PrimitiveType::Int64) => i64::spec_values(region) is Some,
            Slots::Values(PrimitiveType::Int128) => i128::spec_values(region) is Some,
            Slots::Values(PrimitiveType::UInt8) => u8::spec_values(region) is Some,
            Slots::Values(PrimitiveType::UInt16) => u16::spec_values(region) is Some,
            Slots::Values(PrimitiveType::UInt32) => u32::spec_values(region) is Some,
            Slots::Values(PrimitiveType::UInt64) => u64::spec_values(region) is Some,
            Slots::Values(PrimitiveType::Float16) => u16::spec_values(region) is Some,
            Slots::Values(PrimitiveType::Float32) => u32::spec_values(region) is Some,
            Slots::Values(PrimitiveType::Float64) => u64::spec_values(region) is Some,
            Slots::Values(PrimitiveType::DaysMs) => DaysMs::spec_values(region) is Some,
            Slots::Values(PrimitiveType::MonthDayNano) => MonthsDaysNs::spec_values(region) is Some,
        }
    }
}

/// What buffer `i` of an array of this layout holds; none, where it has no such buffer.
/// The second buffer of a union is there when it is dense.
pub open spec fn spec_slots_of(layout: PhysicalType, i: int) -> Option<Slots> {
    if layout is Null {
        None
    } else if layout is Union {
        if i == 0 {
            Some(Slots::Values(PrimitiveType::Int8))
        } else if i == 1 {
            Some(Slots::Values(PrimitiveType::Int32))
        } else {
            None
        }
    } else if i == 0 {
        Some(Slots::Bits)
    } else if i == 1 {
        match layout {
            PhysicalType::Boolean => Some(Slots::Bits),
            PhysicalType::Primitive(kind) => Some(Slots::Values(kind)),
            PhysicalType::Dictionary(key) => Some(Slots::Values(key.primitive())),
            PhysicalType::FixedSizeBinary => Some(Slots::Values(PrimitiveType::UInt8)),
            PhysicalType::LargeUtf8 | PhysicalType::LargeBinary | PhysicalType::LargeList => Some(
                Slots::Values(PrimitiveType::Int64),
            ),
            PhysicalType::Utf8 | PhysicalType::Binary | PhysicalType::List
            | PhysicalType::Mapping => Some(Slots::Values(PrimitiveType::Int32)),
            _ => None,
        }
    } else if i == 2 && (crate::ffi::array::has_bytes(layout)
        || crate::ffi::array::has_large_bytes(layout)) {
        Some(Slots::Values(PrimitiveType::UInt8))
    } else {
        None
    }
}

/// What buffer `i` of an array of this layout holds.
pub fn slots_of(layout: PhysicalType, i: usize) -> (r: Option<Slots>)
    ensures
        r == spec_slots_of(layout, i as int),
{
    match (layout, i) {
        (PhysicalType::Null, _) => None,
        (PhysicalType::Union, 0) => Some(Slots::Values(PrimitiveType::Int8)),
        (PhysicalType::Union, 1) => Some(Slots::Values(PrimitiveType::Int32)),
        (PhysicalType::Union, _) => None,
        (_, 0) | (PhysicalType::Boolean, 1) => Some(Slots::Bits),
        (PhysicalType::Primitive(kind), 1) => Some(Slots::Values(kind)),
        (PhysicalType::Dictionary(key), 1) => Some(Slots::Values(key.to_primitive_type())),
        (PhysicalType::FixedSizeBinary, 1) => Some(Slots::Values(PrimitiveType::UInt8)),
        (PhysicalType::LargeUtf8, 1)
        | (PhysicalType::LargeBinary, 1)
        | (PhysicalType::LargeList, 1) => Some(Slots::Values(PrimitiveType::Int64)),
        (PhysicalType::Utf8, 1)
        | (PhysicalType::Binary, 1)
        | (PhysicalType::List, 1)
        | (PhysicalType::Mapping, 1) => Some(Slots::Values(PrimitiveType::Int32)),
        (PhysicalType::Utf8, 2)
        | (PhysicalType::Binary, 2)
        | (PhysicalType::LargeUtf8, 2)
        | (PhysicalType::LargeBinary, 2) => Some(Slots::Values(PrimitiveType::UInt8)),
        _ => None,
    }
}

/// Whether the number of slots of buffer `i` is defined, and it then.
fn checked_len(array: &ArrowArray, data_type: &DataType, i: usize) -> (r: Option<usize>)
    ensures
        match r {
            Some(n) => crate::ffi::array::len_defined(*array, *data_type, i as int) && n
                == crate::ffi::array::spec_buffer_len(*array, *data_type, i as int),
            None => !crate::ffi::array::len_defined(*array, *data_type, i as int),
        },
{
    let end = match (array.offset as usize).checked_add(array.length as usize) {
        Some(end) => end,
        None => {
            return None;
        },
    };
    let fits = match (data_type.to_physical_type(), i) {
        (PhysicalType::FixedSizeBinary, 1) | (PhysicalType::FixedSizeList, 1) => {
            match data_type.to_logical_type() {
                DataType::FixedSizeBinary(size) => size.checked_mul(end).is_some(),
                DataType::FixedSizeList(_, size) => size.checked_mul(end).is_some(),
                _ => {
                    assert(false);
                    false
                },
            }
        },
        (PhysicalType::Utf8, 1)
        | (PhysicalType::LargeUtf8, 1)
        | (PhysicalType::Binary, 1)
        | (PhysicalType::LargeBinary, 1)
        | (PhysicalType::List, 1)
        | (PhysicalType::LargeList, 1)
        | (PhysicalType::Mapping, 1) => end < usize::MAX,
        (PhysicalType::Utf8, 2) | (PhysicalType::Binary, 2) => end < usize::MAX
            && has_last_offset::<i32>(array, end),
        (PhysicalType::LargeUtf8, 2) | (PhysicalType::LargeBinary, 2) => end < usize::MAX
            && has_last_offset::<i64>(array, end),
        _ => true,
    };
    if fits {
        match buffer_len(array, data_type, i) {
            Ok(n) => Some(n),
            Err(_) => None,
        }
    } else {
        None
    }
}

/// Whether buffer 1 holds an offset for the slot `end`.
fn has_last_offset<T: NativeType>(array: &ArrowArray, end: usize) -> (r: bool)
    requires
        end == array.end(),
    ensures
        r == crate::ffi::array::offsets_readable::<T>(*array),
{
    if let Some(buffers) = &array.buffers {
        if buffers.len() > 1 {
            if let Some(region) = &buffers[1] {
                if let Some(values) = T::values(region) {
                    return end < values.len();
                }
            }
        }
    }
    false
}

/// Whether the pointer to buffer `i` exists.
fn has_buffer(array: &ArrowArray, i: usize) -> (r: bool)
    ensures
        r == array.has_buffer(i as int),
{
    match &array.buffers {
        Some(buffers) => i < array.n_buffers as usize && i < buffers.len(),
        None => false,
    }
}

/// Whether buffer `i` can be read as values of type `T`.
fn is_buffer_readable<T: NativeType>(
    array: &ArrowArray,
    data_type: &DataType,
    i: usize,
) -> (r: bool)
    ensures
        r == crate::ffi::array::buffer_readable::<T>(*array, *data_type, i as int),
{
    if !has_buffer(array, i) {
        return false;
    }
    let len = match checked_len(array, data_type, i) {
        Some(len) => len,
        None => {
            return false;
        },
    };
    if !is_offset_defined(array, data_type, i, len) {
        return false;
    }
    match &array.buffers {
        Some(buffers) => match &buffers[i] {
            Some(region) => match T::values(region) {
                Some(values) => len <= values.len(),
                None => false,
            },
            None => true,
        },
        None => false,
    }
}

/// Whether the first of the array's own slots in buffer `i` is at most `len`.
fn is_offset_defined(
    array: &ArrowArray,
    data_type: &DataType,
    i: usize,
    len: usize,
) -> (r: bool)
    ensures
        r == (crate::ffi::array::spec_buffer_offset(*array, *data_type, i as int) <= len),
{
    if let DataType::FixedSizeBinary(size) = data_type.to_logical_type() {
        if i == 1 && (array.offset as usize).checked_mul(*size).is_none() {
            return false;
        }
    }
    buffer_offset(array, data_type, i) <= len
}

/// Whether buffer `i` can be read as bits.
fn is_bitmap_readable(array: &ArrowArray, i: usize) -> (r: bool)
    ensures
        r == crate::ffi::array::bitmap_readable(*array, i as int),
{
    if !has_buffer(array, i) {
        return false;
    }
    let end = match (array.offset as usize).checked_add(array.length as usize) {
        Some(end) => end,
        None => {
            return false;
        },
    };
    if end > usize::MAX - 7 {
        return false;
    }
    match &array.buffers {
        Some(buffers) => match &buffers[i] {
            Some(region) => match u8::values(region) {
                Some(bytes) => bytes_for(end) <= bytes.len(),
                None => false,
            },
            None => true,
        },
        None => false,
    }
}

/// Buffer `index`, as values of type `T`.
fn import_buffer<T: NativeType>(array: &ArrowArrayChild<'_>, index: usize) -> (r: Result<
    Buffer<T>,
    Error,
>)
    ensures
        match buffer_values::<T>(*array.array, array.data_type, index as int) {
            Ok(values) => {
                &&& r matches Ok(buffer) && buffer@ == values && buffer.wf()
                &&& r->Ok_0 == crate::ffi::array::own_buffer::<T>(
                    *array.array,
                    array.data_type,
                    index as int,
                )
            },
            Err(message) => r matches Err(e) && e.is_out_of_spec(message),
        },
{
    if array.array.buffers.is_some() && !is_buffer_readable::<T>(
        array.array,
        &array.data_type,
        index,
    ) {
        return Err(
            Error::OutOfSpec(
                write_around(
                    "The buffer at position ",
                    index,
                    " does not hold the slots of the array",
                ),
            ),
        );
    }
    array.buffer::<T>(index)
}

/// Buffer `index`, as bits.
fn import_bitmap(array: &ArrowArrayChild<'_>, index: usize) -> (r: Result<Bitmap, Error>)
    ensures
        match bitmap_values(*array.array, index as int) {
            Ok(bits) => {
                &&& r matches Ok(bitmap) && bitmap@ == bits && bitmap.wf()
                &&& r->Ok_0 == crate::ffi::array::own_bitmap(*array.array, index as int)
            },
            Err(message) => r matches Err(e) && e.is_out_of_spec(message),
        },
{
    if array.array.buffers.is_none() {
        return Err(Error::OutOfSpec("The array buffers are null".to_owned()));
    }
    if !is_bitmap_readable(array.array, index) {
        return Err(
            Error::OutOfSpec(
                write_around(
                    "The buffer at position ",
                    index,
                    " does not hold the slots of the array",
                ),
            ),
        );
    }
    array.bitmap(index)
}

/// Which slots are valid, where the layout has a bitmap for it.
fn read_validity(array: &ArrowArrayChild<'_>) -> (r: Result<Option<Bitmap>, Error>)
    ensures
        match import_validity(*array.array, array.data_type) {
            Ok(None) => r matches Ok(None),
            Ok(Some(bits)) => {
                &&& r matches Ok(Some(bitmap)) && bitmap@ == bits && bitmap.wf()
                &&& r->Ok_0->0 == crate::ffi::array::own_bitmap(*array.array, 0)
            },
            Err(message) => r matches Err(e) && e.is_out_of_spec(message),
        },
{
    match array.data_type.to_physical_type() {
        PhysicalType::Null | PhysicalType::Union => Ok(None),
        _ => {
            if array.array.null_count() != 0 && array.array.buffers.is_none() {
                return Err(Error::OutOfSpec("The array buffers are null".to_owned()));
            }
            if array.array.null_count() != 0 && !is_bitmap_readable(array.array, 0) {
                return Err(
                    Error::OutOfSpec(
                        write_around(
                            "The buffer at position ",
                            0,
                            " does not hold the slots of the array",
                        ),
                    ),
                );
            }
            array.validity()
        },
    }
}

/// The slots of buffer 1, whose type is `kind`.
fn import_primitive(array: &ArrowArrayChild<'_>, kind: PrimitiveType) -> (r: Result<
    PrimitiveValues,
    Error,
>)
    ensures
        match primitive_values(*array.array, array.data_type, kind) {
            Ok(model) => {
                &&& r matches Ok(values) && values.model() == model && values.kind() == kind
                &&& array.data_type.physical() is Primitive || array.data_type.physical()
                    is Dictionary ==> r->Ok_0.aligned(
                    (array.array.offset as usize) as int,
                    (array.array.length as usize) as int,
                )
            },
            Err(message) => r matches Err(e) && e.is_out_of_spec(message),
        },
{
    Ok(
        match kind {
            PrimitiveType::Int8 => PrimitiveValues::Int8(import_buffer::<i8>(array, 1)?),
            PrimitiveType::Int16 => PrimitiveValues::Int16(import_buffer::<i16>(array, 1)?),
            PrimitiveType::Int32 => PrimitiveValues::Int32(import_buffer::<i32>(array, 1)?),
            PrimitiveType::Int64 => PrimitiveValues::Int64(import_buffer::<i64>(array, 1)?),
            PrimitiveType::Int128 => PrimitiveValues::Int128(import_buffer::<i128>(array, 1)?),
            PrimitiveType::UInt8 => PrimitiveValues::UInt8(import_buffer::<u8>(array, 1)?),
            PrimitiveType::UInt16 => PrimitiveValues::UInt16(import_buffer::<u16>(array, 1)?),
            PrimitiveType::UInt32 => PrimitiveValues::UInt32(import_buffer::<u32>(array, 1)?),
            PrimitiveType::UInt64 => PrimitiveValues::UInt64(import_buffer::<u64>(array, 1)?),
            PrimitiveType::Float16 => PrimitiveValues::Float16(import_buffer::<u16>(array, 1)?),
            PrimitiveType::Float32 => PrimitiveValues::Float32(import_buffer::<u32>(array, 1)?),
            PrimitiveType::Float64 => PrimitiveValues::Float64(import_buffer::<u64>(array, 1)?),
            PrimitiveType::DaysMs => PrimitiveValues::DaysMs(import_buffer::<DaysMs>(array, 1)?),
            PrimitiveType::MonthDayNano => PrimitiveValues::MonthDayNano(import_buffer::<MonthsDaysNs>(array, 1)?),
        },
    )
}

/// The child `index`.
fn read_child(array: &ArrowArrayChild<'_>, index: usize) -> (r: Result<Array, Error>)
    ensures
        match import_child(*array.array, array.data_type, index as int) {
            Ok(model) => {
                &&& r matches Ok(a) && a.model() == model && a.laid_out() && a.typed()
                &&& Some(r->Ok_0.data_type) == array.data_type.child(index as int)
            },
            Err(message) => r matches Err(e) && e.is_out_of_spec(message),
        },
    decreases *array.array, 0nat,
{
    let missing = match &array.array.children {
        Some(children) => index >= children.len() || index >= array.array.n_children as usize
            || children[index].is_none(),
        None => true,
    };
    if missing || is_beyond_fields(&array.data_type, index) {
        return Err(
            Error::OutOfSpec(write_around("The child at position ", index, " is not there")),
        );
    }
    let child = array.child(index)?;
    import_array(&child)
}

/// Whether the type is a struct or a union with no field `index`.
fn is_beyond_fields(data_type: &DataType, index: usize) -> (r: bool)
    ensures
        r == crate::ffi::schema::beyond_fields(*data_type, index as int),
{
    match data_type.to_logical_type() {
        DataType::Struct(fields) => index >= fields.len(),
        DataType::Union(fields, _, _) => index >= fields.len(),
        _ => false,
    }
}

/// The first `n` children.
fn read_children(array: &ArrowArrayChild<'_>, n: usize) -> (r: Result<Vec<Array>, Error>)
    ensures
        match import_children(*array.array, array.data_type, n as nat) {
            Ok(models) => {
                &&& r matches Ok(fields) && fields@.len() == n
                &&& models.len() == n
                &&& forall|i: int|
                    0 <= i < n ==> {
                        &&& models[i] == (#[trigger] r->Ok_0@[i]).model()
                        &&& r->Ok_0@[i].laid_out()
                        &&& r->Ok_0@[i].typed()
                        &&& Some(r->Ok_0@[i].data_type) == array.data_type.child(i)
                    }
            },
            Err(message) => r matches Err(e) && e.is_out_of_spec(message),
        },
    decreases *array.array, 1nat,
{
    let mut fields: Vec<Array> = Vec::new();
    let mut i: usize = 0;
    while i < n
        invariant
            i <= n,
            fields@.len() == i,
            import_children(*array.array, array.data_type, i as nat) is Ok,
            import_children(*array.array, array.data_type, i as nat)->Ok_0.len() == i,
            forall|k: int|
                0 <= k < i ==> {
                    &&& import_children(*array.array, array.data_type, i as nat)->Ok_0[k]
                        == (#[trigger] fields@[k]).model()
                    &&& fields@[k].laid_out()
                    &&& fields@[k].typed()
                    &&& Some(fields@[k].data_type) == array.data_type.child(k)
                },
        decreases n - i,
    {
        match read_child(array, i) {
            Ok(field) => {
                fields.push(field);
            },
            Err(e) => {
                proof {
                    lemma_import_children_err(
                        *array.array,
                        array.data_type,
                        (i + 1) as nat,
                        n as nat,
                    );
                }
                return Err(e);
            },
        }
        i = i + 1;
    }
    Ok(fields)
}

proof fn lemma_import_children_err(array: ArrowArray, data_type: DataType, m: nat, n: nat)
    requires
        m <= n,
        import_children(array, data_type, m) is Err,
    ensures
        import_children(array, data_type, n) == import_children(array, data_type, m),
    decreases n,
{
    if m < n {
        lemma_import_children_err(array, data_type, m, (n - 1) as nat);
    }
}

/// The dictionary.
fn read_dictionary(array: &ArrowArrayChild<'_>) -> (r: Result<Array, Error>)
    ensures
        match import_dictionary(*array.array, array.data_type) {
            Ok(model) => {
                &&& r matches Ok(a) && a.model() == model && a.laid_out() && a.typed()
                &&& array.data_type.logical() matches DataType::Dictionary(_, t, _)
                    && r->Ok_0.data_type == *t
            },
            Err(message) => r matches Err(e) && e.is_out_of_spec(message),
        },
    decreases *array.array, 0nat,
{
    if array.array.dictionary.is_none() {
        return Err(Error::OutOfSpec("The dictionary is not there".to_owned()));
    }
    // an extension of a dictionary is stored as that dictionary
    match create_dictionary(array.array, array.data_type.to_logical_type(), array.owner())? {
        Some(dictionary) => import_array(&dictionary),
        None => Err(Error::OutOfSpec("The type has no dictionary".to_owned())),
    }
}

/// The offsets of a union
fn read_union_offsets(array: &ArrowArrayChild<'_>) -> (r: Result<Option<Buffer<i32>>, Error>)
    ensures
        match import_union_offsets(*array.array, array.data_type) {
            Ok(None) => r matches Ok(None),
            Ok(Some(values)) => {
                &&& r matches Ok(Some(offsets)) && offsets@ == values && offsets.wf()
                &&& r->Ok_0->0 == crate::ffi::array::own_buffer::<i32>(
                    *array.array,
                    array.data_type,
                    1,
                )
            },
            Err(message) => r matches Err(e) && e.is_out_of_spec(message),
        },
{
    match array.data_type.to_logical_type() {
        DataType::Union(_, _, UnionMode::Dense) => Ok(Some(import_buffer::<i32>(array, 1)?)),
        _ => Ok(None),
    }
}

/// The values, as the layout says.
fn read_values(array: &ArrowArrayChild<'_>) -> (r: Result<Values, Error>)
    requires
        valid_slots(*array.array),
    ensures
        match import_values(*array.array, array.data_type) {
            Ok(model) => {
                &&& r matches Ok(values) && values.model() == model
                &&& r->Ok_0.laid_out(
                    array.data_type,
                    array.array.offset as int,
                    array.array.length as int,
                )
                &&& r->Ok_0.typed(array.data_type)
            },
            Err(message) => r matches Err(e) && e.is_out_of_spec(message),
        },
    decreases *array.array, 2nat,
{
    Ok(
        match array.data_type.to_physical_type() {
            PhysicalType::Null => Values::Null,
            PhysicalType::Boolean => Values::Boolean(import_bitmap(array, 1)?),
            PhysicalType::Primitive(kind) => Values::Primitive(import_primitive(array, kind)?),
            PhysicalType::Utf8 => {
                let offsets = import_buffer::<i32>(array, 1)?;
                let values = import_buffer::<u8>(array, 2)?;
                assert(offsets@[array.array.length as int] == crate::ffi::array::last_offset::<
                    i32,
                >(*array.array));
                Values::Utf8(offsets, values)
            },
            PhysicalType::LargeUtf8 => {
                let offsets = import_buffer::<i64>(array, 1)?;
                let values = import_buffer::<u8>(array, 2)?;
                assert(offsets@[array.array.length as int] == crate::ffi::array::last_offset::<
                    i64,
                >(*array.array));
                Values::LargeUtf8(offsets, values)
            },
            PhysicalType::Binary => {
                let offsets = import_buffer::<i32>(array, 1)?;
                let values = import_buffer::<u8>(array, 2)?;
                assert(offsets@[array.array.length as int] == crate::ffi::array::last_offset::<
                    i32,
                >(*array.array));
                Values::Binary(offsets, values)
            },
            PhysicalType::LargeBinary => {
                let offsets = import_buffer::<i64>(array, 1)?;
                let values = import_buffer::<u8>(array, 2)?;
                assert(offsets@[array.array.length as int] == crate::ffi::array::last_offset::<
                    i64,
                >(*array.array));
                Values::LargeBinary(offsets, values)
            },
            PhysicalType::FixedSizeBinary => {
                let values = import_buffer::<u8>(array, 1)?;
                proof {
                    crate::datatypes::lemma_logical_is_no_extension(&array.data_type);
                    let size = array.data_type.fixed_size();
                    let from = array.array.offset as int;
                    let n = array.array.length as int;
                    assert(size * from + size * n == size * (from + n)) by (nonlinear_arith);
                    assert(size * from == from * size) by (nonlinear_arith);
                    assert(0 <= size * from && 0 <= size * n) by (nonlinear_arith)
                        requires
                            0 <= size,
                            0 <= from,
                            0 <= n,
                    ;
                }
                Values::FixedSizeBinary(values)
            },
            PhysicalType::List => Values::List(
                import_buffer::<i32>(array, 1)?,
                Box::new(read_child(array, 0)?),
            ),
            PhysicalType::LargeList => Values::LargeList(
                import_buffer::<i64>(array, 1)?,
                Box::new(read_child(array, 0)?),
            ),
            PhysicalType::FixedSizeList => Values::FixedSizeList(Box::new(read_child(array, 0)?)),
            PhysicalType::Struct => {
                let fields = read_children(array, array.data_type.field_count())?;
                let values = Values::Struct(fields);
                assert(values.model()->Struct_0 =~= import_children(
                    *array.array,
                    array.data_type,
                    array.data_type.fields().len(),
                )->Ok_0);
                values
            },
            PhysicalType::Dictionary(key) => Values::Dictionary(
                import_primitive(array, key.to_primitive_type())?,
                Box::new(read_dictionary(array)?),
            ),
            PhysicalType::Union => {
                let types = import_buffer::<i8>(array, 0)?;
                let offsets = read_union_offsets(array)?;
                let fields = read_children(array, array.data_type.field_count())?;
                let values = Values::Union(types, offsets, fields);
                assert(values.model()->Union_2 =~= import_children(
                    *array.array,
                    array.data_type,
                    array.data_type.fields().len(),
                )->Ok_0);
                values
            },
            PhysicalType::Mapping => Values::Mapping(
                import_buffer::<i32>(array, 1)?,
                Box::new(read_child(array, 0)?),
            ),
        },
    )
}

/// The array that the interface describes.
fn import_array(array: &ArrowArrayChild<'_>) -> (r: Result<Array, Error>)
    ensures
        match import(*array.array, array.data_type) {
            Ok(model) => {
                &&& r matches Ok(a) && a.model() == model && a.laid_out() && a.typed()
                &&& r->Ok_0.data_type == array.data_type
            },
            Err(message) => r matches Err(e) && e.is_out_of_spec(message),
        },
    decreases *array.array, 3nat,
{
    if array.array.offset < 0 || array.array.length < 0 || usize::try_from(
        array.array.offset,
    ).is_err() || usize::try_from(array.array.length).is_err() {
        return Err(Error::OutOfSpec("The array has no valid number of slots".to_owned()));
    }
    let offset = array.array.offset();
    let length = array.array.len();
    if length > usize::MAX - offset {
        return Err(Error::OutOfSpec("The array has no valid number of slots".to_owned()));
    }
    let validity = read_validity(array)?;
    let values = read_values(array)?;
    Ok(Array { data_type: array.data_type.clone(), offset, length, validity, values })
}

/// Reads a valid interface into an [`Array`].
///
/// # Errors
/// If and only if the interface is not valid (e.g. a null pointer).
pub fn try_from<A: ArrowArrayRef>(array: A) -> (r: Result<Box<Array>, Error>)
    ensures
        match import(array.spec_array(), array.spec_data_type()) {
            Ok(model) => r matches Ok(a) && a.model() == model && a.laid_out() && a.typed(),
            Err(message) => r matches Err(e) && e.is_out_of_spec(message),
        },
{
    let whole = ArrowArrayChild::from_raw(array.array(), array.data_type().clone(), array.owner());
    match import_array(&whole) {
        Ok(a) => Ok(Box::new(a)),
        Err(e) => Err(e),
    }
}

} // verus!
