//! What an array hands over to the C data interface, and what it holds.
use vstd::prelude::*;

use crate::array::{Array, PrimitiveModel, PrimitiveValues, Values, ValuesModel};
use crate::datatypes::{DataType, PhysicalType, PrimitiveType};
use crate::ffi::array::ArrowArray;
use crate::types::Region;

verus! {

/// The numbers of an exported array: its length and its offset, and how many of its slots are
/// null, which for an array of the null layout are all of them, and for another are as many as
/// there are positions whose bit of the validity is not set.
pub proof fn law_export_numbers(array: Array, c: ArrowArray)
    requires
        crate::ffi::export::is_export(array, c),
    ensures
        c.length == array.length,
        c.offset == array.offset,
        c.release,
        array.values is Null ==> c.null_count == array.length,
        !(array.values is Null) ==> c.null_count == match array.validity {
            Some(bits) => Set::new(|i: int| 0 <= i < bits@.len() && !bits@[i]).len(),
            None => 0,
        },
{
    if let Some(bits) = array.validity {
        crate::bitmap::law_unset_bits_are_counted(bits@);
        assert(crate::bitmap::unset_positions(bits@) =~= Set::new(
            |i: int| 0 <= i < bits@.len() && !bits@[i],
        ));
    }
}

/// The buffers of an exported array: the validity, where the layout has one, and then its
/// values. Each is the memory of the array itself.
pub proof fn law_export_buffers(array: Array, c: ArrowArray)
    requires
        crate::ffi::export::is_export(array, c),
    ensures
        ({
            let validity = match array.validity {
                Some(bits) => Some(Region::U8(bits.bytes)),
                None => None,
            };
            &&& c.buffers matches Some(buffers) && c.n_buffers == buffers@.len()
            &&& match array.values {
                Values::Null => c.n_buffers == 1 && c.buffers->0@[0] is None,
                Values::Boolean(bits) => {
                    &&& c.n_buffers == 2 && c.buffers->0@[0] == validity
                    &&& c.buffers->0@[1] == Some(Region::U8(bits.bytes))
                },
                Values::Primitive(values) => {
                    &&& c.n_buffers == 2 && c.buffers->0@[0] == validity
                    &&& match values {
                        PrimitiveValues::Int8(b) => c.buffers->0@[1] == Some(Region::I8(b.data)),
                        PrimitiveValues::Int16(b) => c.buffers->0@[1] == Some(Region::I16(b.data)),
                        PrimitiveValues::Int32(b) => c.buffers->0@[1] == Some(Region::I32(b.data)),
                        PrimitiveValues::Int64(b) => c.buffers->0@[1] == Some(Region::I64(b.data)),
                        PrimitiveValues::Int128(b) => c.buffers->0@[1]
                            == Some(Region::I128(b.data)),
                        PrimitiveValues::UInt8(b) => c.buffers->0@[1] == Some(Region::U8(b.data)),
                        PrimitiveValues::UInt16(b) => c.buffers->0@[1] == Some(Region::U16(b.data)),
                        PrimitiveValues::UInt32(b) => c.buffers->0@[1] == Some(Region::U32(b.data)),
                        PrimitiveValues::UInt64(b) => c.buffers->0@[1] == Some(Region::U64(b.data)),
                        PrimitiveValues::Float16(b) => c.buffers->0@[1]
                            == Some(Region::U16(b.data)),
                        PrimitiveValues::Float32(b) => c.buffers->0@[1]
                            == Some(Region::U32(b.data)),
                        PrimitiveValues::Float64(b) => c.buffers->0@[1]
                            == Some(Region::U64(b.data)),
                        PrimitiveValues::DaysMs(b) => c.buffers->0@[1]
                            == Some(Region::DaysMs(b.data)),
                        PrimitiveValues::MonthDayNano(b) => c.buffers->0@[1]
                            == Some(Region::MonthsDaysNs(b.data)),
                    }
                },
                Values::Dictionary(keys, _) => {
                    &&& c.n_buffers == 2 && c.buffers->0@[0] == validity
                    &&& match keys {
                        PrimitiveValues::Int8(b) => c.buffers->0@[1] == Some(Region::I8(b.data)),
                        PrimitiveValues::Int16(b) => c.buffers->0@[1] == Some(Region::I16(b.data)),
                        PrimitiveValues::Int32(b) => c.buffers->0@[1] == Some(Region::I32(b.data)),
                        PrimitiveValues::Int64(b) => c.buffers->0@[1] == Some(Region::I64(b.data)),
                        PrimitiveValues::Int128(b) => c.buffers->0@[1]
                            == Some(Region::I128(b.data)),
                        PrimitiveValues::UInt8(b) => c.buffers->0@[1] == Some(Region::U8(b.data)),
                        PrimitiveValues::UInt16(b) => c.buffers->0@[1] == Some(Region::U16(b.data)),
                        PrimitiveValues::UInt32(b) => c.buffers->0@[1] == Some(Region::U32(b.data)),
                        PrimitiveValues::UInt64(b) => c.buffers->0@[1] == Some(Region::U64(b.data)),
                        PrimitiveValues::Float16(b) => c.buffers->0@[1]
                            == Some(Region::U16(b.data)),
                        PrimitiveValues::Float32(b) => c.buffers->0@[1]
                            == Some(Region::U32(b.data)),
                        PrimitiveValues::Float64(b) => c.buffers->0@[1]
                            == Some(Region::U64(b.data)),
                        PrimitiveValues::DaysMs(b) => c.buffers->0@[1]
                            == Some(Region::DaysMs(b.data)),
                        PrimitiveValues::MonthDayNano(b) => c.buffers->0@[1]
                            == Some(Region::MonthsDaysNs(b.data)),
                    }
                },
                Values::Utf8(offsets, values) => {
                    &&& c.n_buffers == 3 && c.buffers->0@[0] == validity
                    &&& c.buffers->0@[1] == Some(Region::I32(offsets.data))
                    &&& c.buffers->0@[2] == Some(Region::U8(values.data))
                },
                Values::LargeUtf8(offsets, values) => {
                    &&& c.n_buffers == 3 && c.buffers->0@[0] == validity
                    &&& c.buffers->0@[1] == Some(Region::I64(offsets.data))
                    &&& c.buffers->0@[2] == Some(Region::U8(values.data))
                },
                Values::Binary(offsets, values) => {
                    &&& c.n_buffers == 3 && c.buffers->0@[0] == validity
                    &&& c.buffers->0@[1] == Some(Region::I32(offsets.data))
                    &&& c.buffers->0@[2] == Some(Region::U8(values.data))
                },
                Values::LargeBinary(offsets, values) => {
                    &&& c.n_buffers == 3 && c.buffers->0@[0] == validity
                    &&& c.buffers->0@[1] == Some(Region::I64(offsets.data))
                    &&& c.buffers->0@[2] == Some(Region::U8(values.data))
                },
                Values::FixedSizeBinary(values) => {
                    &&& c.n_buffers == 2 && c.buffers->0@[0] == validity
                    &&& c.buffers->0@[1] == Some(Region::U8(values.data))
                },
                Values::List(offsets, _) => {
                    &&& c.n_buffers == 2 && c.buffers->0@[0] == validity
                    &&& c.buffers->0@[1] == Some(Region::I32(offsets.data))
                },
                Values::LargeList(offsets, _) => {
                    &&& c.n_buffers == 2 && c.buffers->0@[0] == validity
                    &&& c.buffers->0@[1] == Some(Region::I64(offsets.data))
                },
                Values::Mapping(offsets, _) => {
                    &&& c.n_buffers == 2 && c.buffers->0@[0] == validity
                    &&& c.buffers->0@[1] == Some(Region::I32(offsets.data))
                },
                Values::FixedSizeList(_) => c.n_buffers == 1 && c.buffers->0@[0] == validity,
                Values::Struct(_) => c.n_buffers == 1 && c.buffers->0@[0] == validity,
                Values::Union(types, None, _) => {
                    &&& c.n_buffers == 1
                    &&& c.buffers->0@[0] == Some(Region::I8(types.data))
                },
                Values::Union(types, Some(offsets), _) => {
                    &&& c.n_buffers == 2
                    &&& c.buffers->0@[0] == Some(Region::I8(types.data))
                    &&& c.buffers->0@[1] == Some(Region::I32(offsets.data))
                },
            }
        }),
{
}

/// The children and the dictionary of an exported array are its own, exported, in order.
pub proof fn law_export_children(array: Array, c: ArrowArray, k: int)
    requires
        crate::ffi::export::is_export(array, c),
    ensures
        c.children matches Some(children) && c.n_children == children@.len(),
        match array.values {
            Values::List(_, items) => c.n_children == 1 && (c.children->0@[0] matches Some(child)
                && crate::ffi::export::is_export(*items, *child)),
            Values::LargeList(_, items) => c.n_children == 1
                && (c.children->0@[0] matches Some(child)
                && crate::ffi::export::is_export(*items, *child)),
            Values::FixedSizeList(items) => c.n_children == 1
                && (c.children->0@[0] matches Some(child)
                && crate::ffi::export::is_export(*items, *child)),
            Values::Mapping(_, items) => c.n_children == 1 && (c.children->0@[0] matches Some(child)
                && crate::ffi::export::is_export(*items, *child)),
            Values::Struct(fields) => c.n_children == fields@.len() && (0 <= k < fields@.len() ==> (
            c.children->0@[k] matches Some(child) && crate::ffi::export::is_export(
                fields@[k],
                *child,
            ))),
            Values::Union(_, _, fields) => c.n_children == fields@.len() && (0
                <= k < fields@.len() ==> (
            c.children->0@[k] matches Some(child) && crate::ffi::export::is_export(
                fields@[k],
                *child,
            ))),
            _ => c.n_children == 0,
        },
        match array.values {
            Values::Dictionary(_, values) => c.dictionary matches Some(dictionary)
                && crate::ffi::export::is_export(*values, *dictionary),
            _ => c.dictionary is None,
        },
{
}

/// What an array holds is what its memory holds: its bits and its values, and what the arrays
/// that it is made of hold.
pub proof fn law_model_is_what_is_held(array: Array, k: int)
    ensures
        array.model().data_type == array.data_type,
        array.model().offset == array.offset,
        array.model().length == array.length,
        array.model().validity == match array.validity {
            Some(bits) => Some(bits@),
            None => None,
        },
        match array.values {
            Values::Null => array.model().values is Null,
            Values::Boolean(bits) => array.model().values == ValuesModel::Boolean(bits@),
            Values::Primitive(values) => match values {
                PrimitiveValues::Int8(b) => array.model().values == ValuesModel::Primitive(
                    PrimitiveModel::Int8(b@),
                ),
                PrimitiveValues::Int16(b) => array.model().values == ValuesModel::Primitive(
                    PrimitiveModel::Int16(b@),
                ),
                PrimitiveValues::Int32(b) => array.model().values == ValuesModel::Primitive(
                    PrimitiveModel::Int32(b@),
                ),
                PrimitiveValues::Int64(b) => array.model().values == ValuesModel::Primitive(
                    PrimitiveModel::Int64(b@),
                ),
                PrimitiveValues::Int128(b) => array.model().values == ValuesModel::Primitive(
                    PrimitiveModel::Int128(b@),
                ),
                PrimitiveValues::UInt8(b) => array.model().values == ValuesModel::Primitive(
                    PrimitiveModel::UInt8(b@),
                ),
                PrimitiveValues::UInt16(b) => array.model().values == ValuesModel::Primitive(
                    PrimitiveModel::UInt16(b@),
                ),
                PrimitiveValues::UInt32(b) => array.model().values == ValuesModel::Primitive(
                    PrimitiveModel::UInt32(b@),
                ),
                PrimitiveValues::UInt64(b) => array.model().values == ValuesModel::Primitive(
                    PrimitiveModel::UInt64(b@),
                ),
                PrimitiveValues::Float16(b) => array.model().values == ValuesModel::Primitive(
                    PrimitiveModel::Float16(b@),
                ),
                PrimitiveValues::Float32(b) => array.model().values == ValuesModel::Primitive(
                    PrimitiveModel::Float32(b@),
                ),
                PrimitiveValues::Float64(b) => array.model().values == ValuesModel::Primitive(
                    PrimitiveModel::Float64(b@),
                ),
                PrimitiveValues::DaysMs(b) => array.model().values == ValuesModel::Primitive(
                    PrimitiveModel::DaysMs(b@),
                ),
                PrimitiveValues::MonthDayNano(b) => array.model().values == ValuesModel::Primitive(
                    PrimitiveModel::MonthDayNano(b@),
                ),
            },
            Values::Dictionary(keys, items) => match keys {
                PrimitiveValues::Int8(b) => array.model().values == ValuesModel::Dictionary(
                    PrimitiveModel::Int8(b@),
                    Box::new(items.model()),
                ),
                PrimitiveValues::Int16(b) => array.model().values == ValuesModel::Dictionary(
                    PrimitiveModel::Int16(b@),
                    Box::new(items.model()),
                ),
                PrimitiveValues::Int32(b) => array.model().values == ValuesModel::Dictionary(
                    PrimitiveModel::Int32(b@),
                    Box::new(items.model()),
                ),
                PrimitiveValues::Int64(b) => array.model().values == ValuesModel::Dictionary(
                    PrimitiveModel::Int64(b@),
                    Box::new(items.model()),
                ),
                PrimitiveValues::Int128(b) => array.model().values == ValuesModel::Dictionary(
                    PrimitiveModel::Int128(b@),
                    Box::new(items.model()),
                ),
                PrimitiveValues::UInt8(b) => array.model().values == ValuesModel::Dictionary(
                    PrimitiveModel::UInt8(b@),
                    Box::new(items.model()),
                ),
                PrimitiveValues::UInt16(b) => array.model().values == ValuesModel::Dictionary(
                    PrimitiveModel::UInt16(b@),
                    Box::new(items.model()),
                ),
                PrimitiveValues::UInt32(b) => array.model().values == ValuesModel::Dictionary(
                    PrimitiveModel::UInt32(b@),
                    Box::new(items.model()),
                ),
                PrimitiveValues::UInt64(b) => array.model().values == ValuesModel::Dictionary(
                    PrimitiveModel::UInt64(b@),
                    Box::new(items.model()),
                ),
                PrimitiveValues::Float16(b) => array.model().values == ValuesModel::Dictionary(
                    PrimitiveModel::Float16(b@),
                    Box::new(items.model()),
                ),
                PrimitiveValues::Float32(b) => array.model().values == ValuesModel::Dictionary(
                    PrimitiveModel::Float32(b@),
                    Box::new(items.model()),
                ),
                PrimitiveValues::Float64(b) => array.model().values == ValuesModel::Dictionary(
                    PrimitiveModel::Float64(b@),
                    Box::new(items.model()),
                ),
                PrimitiveValues::DaysMs(b) => array.model().values == ValuesModel::Dictionary(
                    PrimitiveModel::DaysMs(b@),
                    Box::new(items.model()),
                ),
                PrimitiveValues::MonthDayNano(b) => array.model().values == ValuesModel::Dictionary(
                    PrimitiveModel::MonthDayNano(b@),
                    Box::new(items.model()),
                ),
            },
            Values::Utf8(offsets, bytes) => array.model().values == ValuesModel::Utf8(
                offsets@,
                bytes@,
            ),
            Values::LargeUtf8(offsets, bytes) => array.model().values == ValuesModel::LargeUtf8(
                offsets@,
                bytes@,
            ),
            Values::Binary(offsets, bytes) => array.model().values == ValuesModel::Binary(
                offsets@,
                bytes@,
            ),
            Values::LargeBinary(offsets, bytes) => array.model().values == ValuesModel::LargeBinary(
                offsets@,
                bytes@,
            ),
            Values::FixedSizeBinary(bytes) => array.model().values == ValuesModel::FixedSizeBinary(
                bytes@,
            ),
            Values::List(offsets, items) => array.model().values == ValuesModel::List(
                offsets@,
                Box::new(items.model()),
            ),
            Values::LargeList(offsets, items) => array.model().values == ValuesModel::LargeList(
                offsets@,
                Box::new(items.model()),
            ),
            Values::Mapping(offsets, items) => array.model().values == ValuesModel::Mapping(
                offsets@,
                Box::new(items.model()),
            ),
            Values::FixedSizeList(items) => array.model().values == ValuesModel::FixedSizeList(
                Box::new(items.model()),
            ),
            Values::Struct(fields) => array.model().values matches ValuesModel::Struct(models)
                && models.len() == fields@.len() && (0 <= k < fields@.len() ==> models[k]
                == fields@[k].model()),
            Values::Union(types, offsets, fields) => {
                &&& array.model().values matches ValuesModel::Union(held, held_offsets, models)
                    && held == types@ && held_offsets == (match offsets {
                    Some(offsets) => Some(offsets@),
                    None => None,
                }) && models.len() == fields@.len() && (0 <= k < fields@.len() ==> models[k]
                    == fields@[k].model())
            },
        },
{
}

/// What it takes for an array to be laid out as a type says: every slice of memory starts at
/// the array's first slot and has as many slots as the layout asks for, and the arrays that it
/// is made of are laid out as the types of its children say.
pub proof fn law_laid_out(array: Array, t: DataType)
    ensures
        array.laid_out_as(t) <==> {
            let layout = t.physical();
            let from = array.offset as int;
            let n = array.length as int;
            &&& array.validity matches Some(bits) ==> !(layout is Null || layout is Union)
                && bits.offset == from && bits.length == n && from + n <= bits.bytes@.len() * 8
            &&& match (layout, array.values) {
                (PhysicalType::Null, Values::Null) => true,
                (PhysicalType::Boolean, Values::Boolean(bits)) => bits.offset == from && bits.length
                    == n && from + n <= bits.bytes@.len() * 8,
                (PhysicalType::Primitive(kind), Values::Primitive(values)) => primitive_laid_out(
                    values,
                    kind,
                    from,
                    n,
                ),
                (PhysicalType::Dictionary(key), Values::Dictionary(keys, items)) => {
                    &&& primitive_laid_out(keys, key.primitive(), from, n)
                    &&& t.logical() is Dictionary && items.laid_out_as(t.dictionary_values())
                },
                (PhysicalType::Utf8, Values::Utf8(offsets, bytes)) => {
                    &&& offsets.offset == from && offsets.length == n + 1 && from + n + 1
                        <= offsets.data@.len()
                    &&& bytes.offset == 0 && bytes.length <= bytes.data@.len()
                    &&& offsets.data@[from + n] as usize <= bytes.length
                },
                (PhysicalType::LargeUtf8, Values::LargeUtf8(offsets, bytes)) => {
                    &&& offsets.offset == from && offsets.length == n + 1 && from + n + 1
                        <= offsets.data@.len()
                    &&& bytes.offset == 0 && bytes.length <= bytes.data@.len()
                    &&& offsets.data@[from + n] as usize <= bytes.length
                },
                (PhysicalType::Binary, Values::Binary(offsets, bytes)) => {
                    &&& offsets.offset == from && offsets.length == n + 1 && from + n + 1
                        <= offsets.data@.len()
                    &&& bytes.offset == 0 && bytes.length <= bytes.data@.len()
                    &&& offsets.data@[from + n] as usize <= bytes.length
                },
                (PhysicalType::LargeBinary, Values::LargeBinary(offsets, bytes)) => {
                    &&& offsets.offset == from && offsets.length == n + 1 && from + n + 1
                        <= offsets.data@.len()
                    &&& bytes.offset == 0 && bytes.length <= bytes.data@.len()
                    &&& offsets.data@[from + n] as usize <= bytes.length
                },
                (PhysicalType::FixedSizeBinary, Values::FixedSizeBinary(bytes)) => {
                    let size = t.fixed_size();
                    &&& bytes.offset == size * from && bytes.length == size * n
                    &&& size * from + size * n <= bytes.data@.len()
                },
                (PhysicalType::List, Values::List(offsets, items)) => {
                    &&& offsets.offset == from && offsets.length == n + 1 && from + n + 1
                        <= offsets.data@.len()
                    &&& t.child(0) is Some && items.laid_out_as(t.child(0)->0)
                },
                (PhysicalType::LargeList, Values::LargeList(offsets, items)) => {
                    &&& offsets.offset == from && offsets.length == n + 1 && from + n + 1
                        <= offsets.data@.len()
                    &&& t.child(0) is Some && items.laid_out_as(t.child(0)->0)
                },
                (PhysicalType::Mapping, Values::Mapping(offsets, items)) => {
                    &&& offsets.offset == from && offsets.length == n + 1 && from + n + 1
                        <= offsets.data@.len()
                    &&& t.child(0) is Some && items.laid_out_as(t.child(0)->0)
                },
                (PhysicalType::FixedSizeList, Values::FixedSizeList(items)) => t.child(0) is Some
                    && items.laid_out_as(t.child(0)->0),
                (PhysicalType::Struct, Values::Struct(fields)) => {
                    &&& fields@.len() == t.fields().len()
                    &&& forall|k: int|
                        0 <= k < fields@.len() ==> t.child(k) is Some && (
                        #[trigger] fields@[k]).laid_out_as(t.child(k)->0)
                },
                (PhysicalType::Union, Values::Union(types, offsets, fields)) => {
                    &&& types.offset == from && types.length == n && from + n <= types.data@.len()
                    &&& offsets is Some <==> t.is_dense()
                    &&& offsets matches Some(o) ==> o.offset == from && o.length == n && from + n
                        <= o.data@.len()
                    &&& fields@.len() == t.fields().len()
                    &&& forall|k: int|
                        0 <= k < fields@.len() ==> t.child(k) is Some && (
                        #[trigger] fields@[k]).laid_out_as(t.child(k)->0)
                },
                _ => false,
            }
        },
{
}

/// Whether these are `n` slots of this type from `from` on, within their memory.
pub open spec fn primitive_laid_out(
    values: PrimitiveValues,
    kind: PrimitiveType,
    from: int,
    n: int,
) -> bool {
    match (kind, values) {
        (PrimitiveType::Int8, PrimitiveValues::Int8(b)) => b.offset == from && b.length == n
            && from + n
            <= b.data@.len(),
        (PrimitiveType::Int16, PrimitiveValues::Int16(b)) => b.offset == from && b.length == n
            && from + n
            <= b.data@.len(),
        (PrimitiveType::Int32, PrimitiveValues::Int32(b)) => b.offset == from && b.length == n
            && from + n
            <= b.data@.len(),
        (PrimitiveType::Int64, PrimitiveValues::Int64(b)) => b.offset == from && b.length == n
            && from + n
            <= b.data@.len(),
        (PrimitiveType::Int128, PrimitiveValues::Int128(b)) => b.offset == from && b.length == n
            && from + n
            <= b.data@.len(),
        (PrimitiveType::UInt8, PrimitiveValues::UInt8(b)) => b.offset == from && b.length == n
            && from + n
            <= b.data@.len(),
        (PrimitiveType::UInt16, PrimitiveValues::UInt16(b)) => b.offset == from && b.length == n
            && from + n
            <= b.data@.len(),
        (PrimitiveType::UInt32, PrimitiveValues::UInt32(b)) => b.offset == from && b.length == n
            && from + n
            <= b.data@.len(),
        (PrimitiveType::UInt64, PrimitiveValues::UInt64(b)) => b.offset == from && b.length == n
            && from + n
            <= b.data@.len(),
        (PrimitiveType::Float16, PrimitiveValues::Float16(b)) => b.offset == from && b.length == n
            && from + n
            <= b.data@.len(),
        (PrimitiveType::Float32, PrimitiveValues::Float32(b)) => b.offset == from && b.length == n
            && from + n
            <= b.data@.len(),
        (PrimitiveType::Float64, PrimitiveValues::Float64(b)) => b.offset == from && b.length == n
            && from + n
            <= b.data@.len(),
        (PrimitiveType::DaysMs, PrimitiveValues::DaysMs(b)) => b.offset == from && b.length == n
            && from + n
            <= b.data@.len(),
        (PrimitiveType::MonthDayNano, PrimitiveValues::MonthDayNano(b)) => b.offset == from
            && b.length == n && from + n
            <= b.data@.len(),
        _ => false,
    }
}

/// The numbers of an array that can be exported fit 64 bits with a sign, and so do those of
/// the arrays that it is made of and how many they are; the last offset of its strings, if it
/// has any, counts bytes in memory.
pub proof fn law_in_range(array: Array)
    ensures
        array.in_range() <==> {
            &&& array.offset <= i64::MAX
            &&& array.length <= i64::MAX
            &&& match array.values {
                Values::Utf8(offsets, _) => 0 <= offsets@.last() <= usize::MAX,
                Values::LargeUtf8(offsets, _) => 0 <= offsets@.last() <= usize::MAX,
                Values::Binary(offsets, _) => 0 <= offsets@.last() <= usize::MAX,
                Values::LargeBinary(offsets, _) => 0 <= offsets@.last() <= usize::MAX,
                Values::List(_, items) => items.in_range(),
                Values::LargeList(_, items) => items.in_range(),
                Values::FixedSizeList(items) => items.in_range(),
                Values::Mapping(_, items) => items.in_range(),
                Values::Dictionary(_, items) => items.in_range(),
                Values::Struct(fields) => fields@.len() <= i64::MAX && forall|k: int|
                    0 <= k < fields@.len() ==> (#[trigger] fields@[k]).in_range(),
                Values::Union(_, _, fields) => fields@.len() <= i64::MAX && forall|k: int|
                    0 <= k < fields@.len() ==> (#[trigger] fields@[k]).in_range(),
                _ => true,
            }
        },
        array.wf() <==> array.laid_out_as(array.data_type) && array.in_range(),
{
}

/// The slots of an array that are null are all of them in the null layout, and in another as many
/// as there are positions whose bit of the validity is not set.
pub proof fn law_null_count(array: Array)
    ensures
        array.values is Null ==> array.spec_null_count() == array.length,
        !(array.values is Null) ==> array.spec_null_count() == match array.validity {
            Some(bits) => Set::new(|i: int| 0 <= i < bits@.len() && !bits@[i]).len(),
            None => 0,
        },
{
    if let Some(bits) = array.validity {
        crate::bitmap::law_unset_bits_are_counted(bits@);
        assert(crate::bitmap::unset_positions(bits@) =~= Set::new(
            |i: int| 0 <= i < bits@.len() && !bits@[i],
        ));
    }
}

} // verus!
