//! What an array on the C data interface says, read from its numbers and its memory.
use vstd::prelude::*;

use crate::array::{ArrayModel, PrimitiveModel, ValuesModel};
use crate::datatypes::{DataType, PhysicalType, PrimitiveType};
use crate::ffi::array::ArrowArray;
use crate::types::{DaysMs, MonthsDaysNs, NativeType, Region};

verus! {

/// The validity of an array that is read. It has none where the layout has no bitmap for it
/// or where no slot is counted as null, and otherwise a bit for each slot: bit `i` is bit
/// `offset + i` of buffer 0, the least significant bit of each byte first. Nothing else of
/// the array has a say in it.
pub proof fn law_import_reads_validity(array: ArrowArray, data_type: DataType, i: int)
    requires
        crate::ffi::import::import(array, data_type) is Ok,
    ensures
        ({
            let validity = crate::ffi::import::import(array, data_type)->Ok_0.validity;
            let layout = data_type.physical();
            if layout is Null || layout is Union || array.null_count as usize == 0 {
                validity is None
            } else {
                &&& validity matches Some(bits) && bits.len() == array.length
                &&& array.buffers matches Some(buffers) && buffers@[0] matches Some(
                    Region::U8(bytes),
                ) && (0 <= i < array.length ==> validity->0[i] == ((bytes@[(array.offset
                    + i) / 8] as int / vstd::arithmetic::power2::pow2(((array.offset
                        + i) % 8) as nat) as int) % 2 == 1))
            }
        }),
{
    let layout = data_type.physical();
    if !(layout is Null || layout is Union || array.null_count as usize == 0) {
        assert(crate::ffi::import::import_validity(array, data_type) is Ok);
        let bitmap = crate::ffi::array::own_bitmap(array, 0);
        if 0 <= i < array.length {
            crate::bitmap::law_bitmap_is_a_slice(bitmap, i);
        }
    }
}

proof fn lemma_buffer_values<T: NativeType>(
    array: ArrowArray,
    data_type: DataType,
    i: int,
    k: int,
)
    requires
        crate::ffi::import::buffer_values::<T>(array, data_type, i) is Ok,
        0 <= k < crate::ffi::array::spec_buffer_len(array, data_type, i)
            - crate::ffi::array::spec_buffer_offset(array, data_type, i),
        0 <= crate::ffi::array::spec_buffer_offset(array, data_type, i),
    ensures
        array.has_buffer(i),
        array.region(i) is Some,
        T::spec_values(array.region(i)->0) is Some,
        crate::ffi::import::buffer_values::<T>(array, data_type, i)->Ok_0[k] == T::spec_values(
            array.region(i)->0,
        )->0@[crate::ffi::array::spec_buffer_offset(array, data_type, i) + k],
{
    let buffer = crate::ffi::array::own_buffer::<T>(array, data_type, i);
    assert((*buffer.data).len() == buffer.data@.len());
    crate::buffer::law_buffer_is_a_slice(buffer, k);
}

/// The values of an array that is read, by its layout. Slot `k` is slot `offset + k` of the
/// memory, for each buffer; bytes that offsets point into are read from their start up to the
/// last offset; and the children and the dictionary are what is read from theirs.
#[verifier::rlimit(60)]
pub proof fn law_import_reads_values(array: ArrowArray, data_type: DataType, k: int)
    requires
        crate::ffi::import::import(array, data_type) is Ok,
    ensures
        match (
            data_type.physical(),
            crate::ffi::import::import(array, data_type)->Ok_0.values,
        ) {
            (PhysicalType::Null, ValuesModel::Null) => true,
            (PhysicalType::Boolean, ValuesModel::Boolean(bits)) => {
                &&& bits.len() == array.length
                &&& array.buffers->0@[1] matches Some(Region::U8(bytes)) && (0 <= k < array.length
                    ==> bits[k] == ((bytes@[(array.offset
                        + k) / 8] as int / vstd::arithmetic::power2::pow2(((array.offset
                            + k) % 8) as nat) as int) % 2 == 1))
            },
            (
                PhysicalType::Primitive(PrimitiveType::Int8),
                ValuesModel::Primitive(PrimitiveModel::Int8(values)),
            ) => {
                &&& values.len() == array.length
                &&& array.buffers->0@[1] matches Some(Region::I8(data)) && (0 <= k < array.length
                    ==> values[k] == data@[array.offset + k])
            },
            (
                PhysicalType::Primitive(PrimitiveType::Int16),
                ValuesModel::Primitive(PrimitiveModel::Int16(values)),
            ) => {
                &&& values.len() == array.length
                &&& array.buffers->0@[1] matches Some(Region::I16(data)) && (0 <= k < array.length
                    ==> values[k] == data@[array.offset + k])
            },
            (
                PhysicalType::Primitive(PrimitiveType::Int32),
                ValuesModel::Primitive(PrimitiveModel::Int32(values)),
            ) => {
                &&& values.len() == array.length
                &&& array.buffers->0@[1] matches Some(Region::I32(data)) && (0 <= k < array.length
                    ==> values[k] == data@[array.offset + k])
            },
            (
                PhysicalType::Primitive(PrimitiveType::Int64),
                ValuesModel::Primitive(PrimitiveModel::Int64(values)),
            ) => {
                &&& values.len() == array.length
                &&& array.buffers->0@[1] matches Some(Region::I64(data)) && (0 <= k < array.length
                    ==> values[k] == data@[array.offset + k])
            },
            (
                PhysicalType::Primitive(PrimitiveType::Int128),
                ValuesModel::Primitive(PrimitiveModel::Int128(values)),
            ) => {
                &&& values.len() == array.length
                &&& array.buffers->0@[1] matches Some(Region::I128(data)) && (0
                    <= k < array.length ==> values[k] == data@[array.offset + k])
            },
            (
                PhysicalType::Primitive(PrimitiveType::UInt8),
                ValuesModel::Primitive(PrimitiveModel::UInt8(values)),
            ) => {
                &&& values.len() == array.length
                &&& array.buffers->0@[1] matches Some(Region::U8(data)) && (0 <= k < array.length
                    ==> values[k] == data@[array.offset + k])
            },
            (
                PhysicalType::Primitive(PrimitiveType::UInt16),
                ValuesModel::Primitive(PrimitiveModel::UInt16(values)),
            ) => {
                &&& values.len() == array.length
                &&& array.buffers->0@[1] matches Some(Region::U16(data)) && (0 <= k < array.length
                    ==> values[k] == data@[array.offset + k])
            },
            (
                PhysicalType::Primitive(PrimitiveType::UInt32),
                ValuesModel::Primitive(PrimitiveModel::UInt32(values)),
            ) => {
                &&& values.len() == array.length
                &&& array.buffers->0@[1] matches Some(Region::U32(data)) && (0 <= k < array.length
                    ==> values[k] == data@[array.offset + k])
            },
            (
                PhysicalType::Primitive(PrimitiveType::UInt64),
                ValuesModel::Primitive(PrimitiveModel::UInt64(values)),
            ) => {
                &&& values.len() == array.length
                &&& array.buffers->0@[1] matches Some(Region::U64(data)) && (0 <= k < array.length
                    ==> values[k] == data@[array.offset + k])
            },
            (
                PhysicalType::Primitive(PrimitiveType::Float16),
                ValuesModel::Primitive(PrimitiveModel::Float16(values)),
            ) => {
                &&& values.len() == array.length
                &&& array.buffers->0@[1] matches Some(Region::U16(data)) && (0 <= k < array.length
                    ==> values[k] == data@[array.offset + k])
            },
            (
                PhysicalType::Primitive(PrimitiveType::Float32),
                ValuesModel::Primitive(PrimitiveModel::Float32(values)),
            ) => {
                &&& values.len() == array.length
                &&& array.buffers->0@[1] matches Some(Region::U32(data)) && (0 <= k < array.length
                    ==> values[k] == data@[array.offset + k])
            },
            (
                PhysicalType::Primitive(PrimitiveType::Float64),
                ValuesModel::Primitive(PrimitiveModel::Float64(values)),
            ) => {
                &&& values.len() == array.length
                &&& array.buffers->0@[1] matches Some(Region::U64(data)) && (0 <= k < array.length
                    ==> values[k] == data@[array.offset + k])
            },
            (
                PhysicalType::Primitive(PrimitiveType::DaysMs),
                ValuesModel::Primitive(PrimitiveModel::DaysMs(values)),
            ) => {
                &&& values.len() == array.length
                &&& array.buffers->0@[1] matches Some(Region::DaysMs(data)) && (0
                    <= k < array.length ==> values[k] == data@[array.offset + k])
            },
            (
                PhysicalType::Primitive(PrimitiveType::MonthDayNano),
                ValuesModel::Primitive(PrimitiveModel::MonthDayNano(values)),
            ) => {
                &&& values.len() == array.length
                &&& array.buffers->0@[1] matches Some(Region::MonthsDaysNs(data)) && (0
                    <= k < array.length ==> values[k] == data@[array.offset + k])
            },
            (PhysicalType::Utf8, ValuesModel::Utf8(offsets, bytes)) => {
                &&& offsets.len() == array.length + 1
                &&& array.buffers->0@[1] matches Some(Region::I32(data)) && (0 <= k < array.length
                    + 1 ==> offsets[k] == data@[array.offset + k])
                &&& bytes.len() == offsets[array.length as int] as usize
                &&& array.buffers->0@[2] matches Some(Region::U8(data)) && (0 <= k < bytes.len()
                    ==> bytes[k] == data@[k])
            },
            (PhysicalType::LargeUtf8, ValuesModel::LargeUtf8(offsets, bytes)) => {
                &&& offsets.len() == array.length + 1
                &&& array.buffers->0@[1] matches Some(Region::I64(data)) && (0 <= k < array.length
                    + 1 ==> offsets[k] == data@[array.offset + k])
                &&& bytes.len() == offsets[array.length as int] as usize
                &&& array.buffers->0@[2] matches Some(Region::U8(data)) && (0 <= k < bytes.len()
                    ==> bytes[k] == data@[k])
            },
            (PhysicalType::Binary, ValuesModel::Binary(offsets, bytes)) => {
                &&& offsets.len() == array.length + 1
                &&& array.buffers->0@[1] matches Some(Region::I32(data)) && (0 <= k < array.length
                    + 1 ==> offsets[k] == data@[array.offset + k])
                &&& bytes.len() == offsets[array.length as int] as usize
                &&& array.buffers->0@[2] matches Some(Region::U8(data)) && (0 <= k < bytes.len()
                    ==> bytes[k] == data@[k])
            },
            (PhysicalType::LargeBinary, ValuesModel::LargeBinary(offsets, bytes)) => {
                &&& offsets.len() == array.length + 1
                &&& array.buffers->0@[1] matches Some(Region::I64(data)) && (0 <= k < array.length
                    + 1 ==> offsets[k] == data@[array.offset + k])
                &&& bytes.len() == offsets[array.length as int] as usize
                &&& array.buffers->0@[2] matches Some(Region::U8(data)) && (0 <= k < bytes.len()
                    ==> bytes[k] == data@[k])
            },
            (PhysicalType::FixedSizeBinary, ValuesModel::FixedSizeBinary(bytes)) => {
                let size = data_type.fixed_size();
                &&& bytes.len() == size * array.length
                &&& array.buffers->0@[1] matches Some(Region::U8(data)) && (0
                    <= k < size * array.length ==> bytes[k] == data@[size * array.offset + k])
            },
            (PhysicalType::List, ValuesModel::List(offsets, items)) => {
                &&& offsets.len() == array.length + 1
                &&& array.buffers->0@[1] matches Some(Region::I32(data)) && (0 <= k < array.length
                    + 1 ==> offsets[k] == data@[array.offset + k])
                &&& array.children matches Some(children) && children@[0] matches Some(child)
                    && data_type.child(0) matches Some(t) && crate::ffi::import::import(*child, t)
                    == Ok::<ArrayModel, Seq<char>>(*items)
            },
            (PhysicalType::LargeList, ValuesModel::LargeList(offsets, items)) => {
                &&& offsets.len() == array.length + 1
                &&& array.buffers->0@[1] matches Some(Region::I64(data)) && (0 <= k < array.length
                    + 1 ==> offsets[k] == data@[array.offset + k])
                &&& array.children matches Some(children) && children@[0] matches Some(child)
                    && data_type.child(0) matches Some(t) && crate::ffi::import::import(*child, t)
                    == Ok::<ArrayModel, Seq<char>>(*items)
            },
            (PhysicalType::Mapping, ValuesModel::Mapping(offsets, items)) => {
                &&& offsets.len() == array.length + 1
                &&& array.buffers->0@[1] matches Some(Region::I32(data)) && (0 <= k < array.length
                    + 1 ==> offsets[k] == data@[array.offset + k])
                &&& array.children matches Some(children) && children@[0] matches Some(child)
                    && data_type.child(0) matches Some(t) && crate::ffi::import::import(*child, t)
                    == Ok::<ArrayModel, Seq<char>>(*items)
            },
            (PhysicalType::FixedSizeList, ValuesModel::FixedSizeList(items)) => {
                &&& array.children matches Some(children) && children@[0] matches Some(child)
                    && data_type.child(0) matches Some(t) && crate::ffi::import::import(*child, t)
                    == Ok::<ArrayModel, Seq<char>>(*items)
            },
            (PhysicalType::Struct, ValuesModel::Struct(fields)) => {
                &&& fields.len() == data_type.fields().len()
                &&& 0 <= k < fields.len() ==> (array.children matches Some(children)
                    && children@[k] matches Some(child) && data_type.child(k) matches Some(t)
                    && crate::ffi::import::import(*child, t) == Ok::<ArrayModel, Seq<char>>(
                    fields[k],
                ))
            },
            (PhysicalType::Union, ValuesModel::Union(types, offsets, fields)) => {
                &&& types.len() == array.length
                &&& array.buffers->0@[0] matches Some(Region::I8(data)) && (0 <= k < array.length
                    ==> types[k] == data@[array.offset + k])
                &&& offsets is Some <==> data_type.is_dense()
                &&& offsets matches Some(offsets) ==> {
                    &&& offsets.len() == array.length
                    &&& array.buffers->0@[1] matches Some(Region::I32(data)) && (0
                        <= k < array.length ==> offsets[k] == data@[array.offset + k])
                }
                &&& fields.len() == data_type.fields().len()
                &&& 0 <= k < fields.len() ==> (array.children matches Some(children)
                    && children@[k] matches Some(child) && data_type.child(k) matches Some(t)
                    && crate::ffi::import::import(*child, t) == Ok::<ArrayModel, Seq<char>>(
                    fields[k],
                ))
            },
            (PhysicalType::Dictionary(key), ValuesModel::Dictionary(keys, values)) => {
                &&& array.dictionary matches Some(dictionary) && crate::ffi::import::import(
                    *dictionary,
                    data_type.dictionary_values(),
                ) == Ok::<ArrayModel, Seq<char>>(*values)
                &&& match (key.primitive(), keys) {
                    (PrimitiveType::Int8, PrimitiveModel::Int8(values)) => {
                    &&& values.len() == array.length
                    &&& array.buffers->0@[1] matches Some(Region::I8(data)) && (0
                        <= k < array.length ==> values[k] == data@[array.offset + k])
                    },
                    (PrimitiveType::Int16, PrimitiveModel::Int16(values)) => {
                    &&& values.len() == array.length
                    &&& array.buffers->0@[1] matches Some(Region::I16(data)) && (0
                        <= k < array.length ==> values[k] == data@[array.offset + k])
                    },
                    (PrimitiveType::Int32, PrimitiveModel::Int32(values)) => {
                    &&& values.len() == array.length
                    &&& array.buffers->0@[1] matches Some(Region::I32(data)) && (0
                        <= k < array.length ==> values[k] == data@[array.offset + k])
                    },
                    (PrimitiveType::Int64, PrimitiveModel::Int64(values)) => {
                    &&& values.len() == array.length
                    &&& array.buffers->0@[1] matches Some(Region::I64(data)) && (0
                        <= k < array.length ==> values[k] == data@[array.offset + k])
                    },
                    (PrimitiveType::UInt8, PrimitiveModel::UInt8(values)) => {
                    &&& values.len() == array.length
                    &&& array.buffers->0@[1] matches Some(Region::U8(data)) && (0
                        <= k < array.length ==> values[k] == data@[array.offset + k])
                    },
                    (PrimitiveType::UInt16, PrimitiveModel::UInt16(values)) => {
                    &&& values.len() == array.length
                    &&& array.buffers->0@[1] matches Some(Region::U16(data)) && (0
                        <= k < array.length ==> values[k] == data@[array.offset + k])
                    },
                    (PrimitiveType::UInt32, PrimitiveModel::UInt32(values)) => {
                    &&& values.len() == array.length
                    &&& array.buffers->0@[1] matches Some(Region::U32(data)) && (0
                        <= k < array.length ==> values[k] == data@[array.offset + k])
                    },
                    (PrimitiveType::UInt64, PrimitiveModel::UInt64(values)) => {
                    &&& values.len() == array.length
                    &&& array.buffers->0@[1] matches Some(Region::U64(data)) && (0
                        <= k < array.length ==> values[k] == data@[array.offset + k])
                    },
                    _ => false,
                }
            },
            _ => false,
        },
{
    crate::datatypes::lemma_logical_is_no_extension(&data_type);
    let model = crate::ffi::import::import(array, data_type)->Ok_0;
    assert(crate::ffi::import::import_values(array, data_type) == Ok::<ValuesModel, Seq<char>>(
        model.values,
    ));
    let n = array.length as int;
    match data_type.physical() {
        PhysicalType::Boolean => {
            let bitmap = crate::ffi::array::own_bitmap(array, 1);
            if 0 <= k < n {
                crate::bitmap::law_bitmap_is_a_slice(bitmap, k);
            }
        },
        PhysicalType::Primitive(kind) => {
            lemma_primitive_values(array, data_type, kind, k);
        },
        PhysicalType::Dictionary(key) => {
            lemma_primitive_values(array, data_type, key.primitive(), k);
            assert(crate::ffi::import::import_dictionary(array, data_type) is Ok);
        },
        PhysicalType::Utf8 => {
            if 0 <= k < n + 1 {
                lemma_buffer_values::<i32>(array, data_type, 1, k);
            }
            lemma_buffer_values::<i32>(array, data_type, 1, n);
            assert(crate::ffi::import::buffer_values::<i32>(array, data_type, 1)->Ok_0[n]
                == crate::ffi::array::last_offset::<i32>(array));
            if 0 <= k < crate::ffi::array::last_offset::<i32>(array) as usize {
                lemma_buffer_values::<u8>(array, data_type, 2, k);
            }
        },
        PhysicalType::LargeUtf8 => {
            if 0 <= k < n + 1 {
                lemma_buffer_values::<i64>(array, data_type, 1, k);
            }
            lemma_buffer_values::<i64>(array, data_type, 1, n);
            assert(crate::ffi::import::buffer_values::<i64>(array, data_type, 1)->Ok_0[n]
                == crate::ffi::array::last_offset::<i64>(array));
            if 0 <= k < crate::ffi::array::last_offset::<i64>(array) as usize {
                lemma_buffer_values::<u8>(array, data_type, 2, k);
            }
        },
        PhysicalType::Binary => {
            if 0 <= k < n + 1 {
                lemma_buffer_values::<i32>(array, data_type, 1, k);
            }
            lemma_buffer_values::<i32>(array, data_type, 1, n);
            assert(crate::ffi::import::buffer_values::<i32>(array, data_type, 1)->Ok_0[n]
                == crate::ffi::array::last_offset::<i32>(array));
            if 0 <= k < crate::ffi::array::last_offset::<i32>(array) as usize {
                lemma_buffer_values::<u8>(array, data_type, 2, k);
            }
        },
        PhysicalType::LargeBinary => {
            if 0 <= k < n + 1 {
                lemma_buffer_values::<i64>(array, data_type, 1, k);
            }
            lemma_buffer_values::<i64>(array, data_type, 1, n);
            assert(crate::ffi::import::buffer_values::<i64>(array, data_type, 1)->Ok_0[n]
                == crate::ffi::array::last_offset::<i64>(array));
            if 0 <= k < crate::ffi::array::last_offset::<i64>(array) as usize {
                lemma_buffer_values::<u8>(array, data_type, 2, k);
            }
        },
        PhysicalType::FixedSizeBinary => {
            let size = data_type.fixed_size();
            let from = array.offset as int;
            assert(size * from + size * n == size * (from + n)) by (nonlinear_arith);
            assert(size * from == from * size) by (nonlinear_arith);
            assert(0 <= size * from && 0 <= size * n) by (nonlinear_arith)
                requires
                    0 <= size,
                    0 <= from,
                    0 <= n,
            ;
            if 0 <= k < size * n {
                lemma_buffer_values::<u8>(array, data_type, 1, k);
            }
        },
        PhysicalType::List => {
            if 0 <= k < n + 1 {
                lemma_buffer_values::<i32>(array, data_type, 1, k);
            }
            assert(crate::ffi::import::import_child(array, data_type, 0) is Ok);
        },
        PhysicalType::LargeList => {
            if 0 <= k < n + 1 {
                lemma_buffer_values::<i64>(array, data_type, 1, k);
            }
            assert(crate::ffi::import::import_child(array, data_type, 0) is Ok);
        },
        PhysicalType::Mapping => {
            if 0 <= k < n + 1 {
                lemma_buffer_values::<i32>(array, data_type, 1, k);
            }
            assert(crate::ffi::import::import_child(array, data_type, 0) is Ok);
        },
        PhysicalType::FixedSizeList => {
            assert(crate::ffi::import::import_child(array, data_type, 0) is Ok);
        },
        PhysicalType::Struct => {
            lemma_children_read(array, data_type, data_type.fields().len(), k);
        },
        PhysicalType::Union => {
            if 0 <= k < n {
                lemma_buffer_values::<i8>(array, data_type, 0, k);
            }
            if data_type.is_dense() {
                if 0 <= k < n {
                    lemma_buffer_values::<i32>(array, data_type, 1, k);
                }
            }
            lemma_children_read(array, data_type, data_type.fields().len(), k);
        },
        PhysicalType::Null => {},
    }
}

proof fn lemma_children_read(array: ArrowArray, data_type: DataType, n: nat, k: int)
    requires
        crate::ffi::import::import_children(array, data_type, n) is Ok,
    ensures
        crate::ffi::import::import_children(array, data_type, n)->Ok_0.len() == n,
        0 <= k < n ==> (array.children matches Some(children) && children@[k] matches Some(child)
            && data_type.child(k) matches Some(t) && crate::ffi::import::import(*child, t) == Ok::<
            ArrayModel,
            Seq<char>,
        >(crate::ffi::import::import_children(array, data_type, n)->Ok_0[k])),
    decreases n,
{
    if n > 0 {
        lemma_children_read(array, data_type, (n - 1) as nat, k);
        assert(crate::ffi::import::import_child(array, data_type, n - 1) is Ok);
    }
}

proof fn lemma_primitive_values(
    array: ArrowArray,
    data_type: DataType,
    kind: PrimitiveType,
    k: int,
)
    requires
        crate::ffi::import::primitive_values(array, data_type, kind) is Ok,
        crate::ffi::import::valid_slots(array),
        data_type.physical() is Primitive || data_type.physical() is Dictionary,
    ensures
        match (kind, crate::ffi::import::primitive_values(array, data_type, kind)->Ok_0) {
            (PrimitiveType::Int8, PrimitiveModel::Int8(values)) => {
                &&& values.len() == array.length
                &&& array.buffers->0@[1] matches Some(Region::I8(data)) && (0 <= k < array.length
                    ==> values[k] == data@[array.offset + k])
            },
            (PrimitiveType::Int16, PrimitiveModel::Int16(values)) => {
                &&& values.len() == array.length
                &&& array.buffers->0@[1] matches Some(Region::I16(data)) && (0 <= k < array.length
                    ==> values[k] == data@[array.offset + k])
            },
            (PrimitiveType::Int32, PrimitiveModel::Int32(values)) => {
                &&& values.len() == array.length
                &&& array.buffers->0@[1] matches Some(Region::I32(data)) && (0 <= k < array.length
                    ==> values[k] == data@[array.offset + k])
            },
            (PrimitiveType::Int64, PrimitiveModel::Int64(values)) => {
                &&& values.len() == array.length
                &&& array.buffers->0@[1] matches Some(Region::I64(data)) && (0 <= k < array.length
                    ==> values[k] == data@[array.offset + k])
            },
            (PrimitiveType::Int128, PrimitiveModel::Int128(values)) => {
                &&& values.len() == array.length
                &&& array.buffers->0@[1] matches Some(Region::I128(data)) && (0
                    <= k < array.length ==> values[k] == data@[array.offset + k])
            },
            (PrimitiveType::UInt8, PrimitiveModel::UInt8(values)) => {
                &&& values.len() == array.length
                &&& array.buffers->0@[1] matches Some(Region::U8(data)) && (0 <= k < array.length
                    ==> values[k] == data@[array.offset + k])
            },
            (PrimitiveType::UInt16, PrimitiveModel::UInt16(values)) => {
                &&& values.len() == array.length
                &&& array.buffers->0@[1] matches Some(Region::U16(data)) && (0 <= k < array.length
                    ==> values[k] == data@[array.offset + k])
            },
            (PrimitiveType::UInt32, PrimitiveModel::UInt32(values)) => {
                &&& values.len() == array.length
                &&& array.buffers->0@[1] matches Some(Region::U32(data)) && (0 <= k < array.length
                    ==> values[k] == data@[array.offset + k])
            },
            (PrimitiveType::UInt64, PrimitiveModel::UInt64(values)) => {
                &&& values.len() == array.length
                &&& array.buffers->0@[1] matches Some(Region::U64(data)) && (0 <= k < array.length
                    ==> values[k] == data@[array.offset + k])
            },
            (PrimitiveType::Float16, PrimitiveModel::Float16(values)) => {
                &&& values.len() == array.length
                &&& array.buffers->0@[1] matches Some(Region::U16(data)) && (0 <= k < array.length
                    ==> values[k] == data@[array.offset + k])
            },
            (PrimitiveType::Float32, PrimitiveModel::Float32(values)) => {
                &&& values.len() == array.length
                &&& array.buffers->0@[1] matches Some(Region::U32(data)) && (0 <= k < array.length
                    ==> values[k] == data@[array.offset + k])
            },
            (PrimitiveType::Float64, PrimitiveModel::Float64(values)) => {
                &&& values.len() == array.length
                &&& array.buffers->0@[1] matches Some(Region::U64(data)) && (0 <= k < array.length
                    ==> values[k] == data@[array.offset + k])
            },
            (PrimitiveType::DaysMs, PrimitiveModel::DaysMs(values)) => {
                &&& values.len() == array.length
                &&& array.buffers->0@[1] matches Some(Region::DaysMs(data)) && (0
                    <= k < array.length ==> values[k] == data@[array.offset + k])
            },
            (PrimitiveType::MonthDayNano, PrimitiveModel::MonthDayNano(values)) => {
                &&& values.len() == array.length
                &&& array.buffers->0@[1] matches Some(Region::MonthsDaysNs(data)) && (0
                    <= k < array.length ==> values[k] == data@[array.offset + k])
            },
            _ => false,
        },
{
    if 0 <= k < array.length {
        match kind {
            PrimitiveType::Int8 => lemma_buffer_values::<i8>(array, data_type, 1, k),
            PrimitiveType::Int16 => lemma_buffer_values::<i16>(array, data_type, 1, k),
            PrimitiveType::Int32 => lemma_buffer_values::<i32>(array, data_type, 1, k),
            PrimitiveType::Int64 => lemma_buffer_values::<i64>(array, data_type, 1, k),
            PrimitiveType::Int128 => lemma_buffer_values::<i128>(array, data_type, 1, k),
            PrimitiveType::UInt8 => lemma_buffer_values::<u8>(array, data_type, 1, k),
            PrimitiveType::UInt16 => lemma_buffer_values::<u16>(array, data_type, 1, k),
            PrimitiveType::UInt32 => lemma_buffer_values::<u32>(array, data_type, 1, k),
            PrimitiveType::UInt64 => lemma_buffer_values::<u64>(array, data_type, 1, k),
            PrimitiveType::Float16 => lemma_buffer_values::<u16>(array, data_type, 1, k),
            PrimitiveType::Float32 => lemma_buffer_values::<u32>(array, data_type, 1, k),
            PrimitiveType::Float64 => lemma_buffer_values::<u64>(array, data_type, 1, k),
            PrimitiveType::DaysMs => lemma_buffer_values::<DaysMs>(array, data_type, 1, k),
            PrimitiveType::MonthDayNano => lemma_buffer_values::<MonthsDaysNs>(array, data_type,
                1, k),
        }
    }
}

/// When an array can be read, as far as its own numbers and buffers go: its slots can be
/// counted; where it counts nulls and has a bitmap for them, buffer 0 has bits for all slots;
/// and each other buffer is there and holds as many slots as the layout needs. The children
/// and the dictionary that its type says are there too, and can be read.
#[verifier::rlimit(60)]
pub proof fn law_import_succeeds(array: ArrowArray, data_type: DataType)
    ensures
        crate::ffi::import::import(array, data_type) is Ok <==> ({
            let layout = data_type.physical();
            let end = array.offset + array.length;
            &&& 0 <= array.offset && 0 <= array.length && end <= usize::MAX
            &&& layout is Null || layout is Union || array.null_count as usize == 0 || (end + 7
                <= usize::MAX && (array.buffers is Some && 0 < array.n_buffers as usize && 0
                    < array.buffers->0@.len() && (array.buffers->0@[0] matches Some(
                    Region::U8(data),
                ) && (end + 7) / 8 <= data@.len())))
            &&& match layout {
                PhysicalType::Null => true,
                PhysicalType::Boolean => end + 7 <= usize::MAX && (array.buffers is Some
                    && 1 < array.n_buffers as usize && 1
                    < array.buffers->0@.len() && (array.buffers->0@[1] matches Some(
                    Region::U8(data),
                ) && (end + 7) / 8 <= data@.len())),
                PhysicalType::Primitive(kind) => primitive_holds(array, kind, end),
                PhysicalType::Dictionary(key) => {
                    &&& primitive_holds(array, key.primitive(), end)
                    &&& array.dictionary matches Some(dictionary) && crate::ffi::import::import(
                        *dictionary,
                        data_type.dictionary_values(),
                    ) is Ok
                },
                PhysicalType::Utf8 => {
                    &&& (array.buffers is Some && 1 < array.n_buffers as usize && 1
                    < array.buffers->0@.len() && (array.buffers->0@[1] matches Some(
                    Region::I32(data),
                ) && end + 1 <= data@.len()))
                    &&& (array.buffers is Some && 2 < array.n_buffers as usize && 2
                    < array.buffers->0@.len() && (array.buffers->0@[2] matches Some(
                    Region::U8(data),
                ) && i32::spec_values(array.buffers->0@[1]->0)->0@[end] as usize <= data@.len()))
                },
                PhysicalType::LargeUtf8 => {
                    &&& (array.buffers is Some && 1 < array.n_buffers as usize && 1
                    < array.buffers->0@.len() && (array.buffers->0@[1] matches Some(
                    Region::I64(data),
                ) && end + 1 <= data@.len()))
                    &&& (array.buffers is Some && 2 < array.n_buffers as usize && 2
                    < array.buffers->0@.len() && (array.buffers->0@[2] matches Some(
                    Region::U8(data),
                ) && i64::spec_values(array.buffers->0@[1]->0)->0@[end] as usize <= data@.len()))
                },
                PhysicalType::Binary => {
                    &&& (array.buffers is Some && 1 < array.n_buffers as usize && 1
                    < array.buffers->0@.len() && (array.buffers->0@[1] matches Some(
                    Region::I32(data),
                ) && end + 1 <= data@.len()))
                    &&& (array.buffers is Some && 2 < array.n_buffers as usize && 2
                    < array.buffers->0@.len() && (array.buffers->0@[2] matches Some(
                    Region::U8(data),
                ) && i32::spec_values(array.buffers->0@[1]->0)->0@[end] as usize <= data@.len()))
                },
                PhysicalType::LargeBinary => {
                    &&& (array.buffers is Some && 1 < array.n_buffers as usize && 1
                    < array.buffers->0@.len() && (array.buffers->0@[1] matches Some(
                    Region::I64(data),
                ) && end + 1 <= data@.len()))
                    &&& (array.buffers is Some && 2 < array.n_buffers as usize && 2
                    < array.buffers->0@.len() && (array.buffers->0@[2] matches Some(
                    Region::U8(data),
                ) && i64::spec_values(array.buffers->0@[1]->0)->0@[end] as usize <= data@.len()))
                },
                PhysicalType::FixedSizeBinary => (array.buffers is Some
                    && 1 < array.n_buffers as usize && 1
                    < array.buffers->0@.len() && (array.buffers->0@[1] matches Some(
                    Region::U8(data),
                ) && data_type.fixed_size() * end <= data@.len())),
                PhysicalType::List => {
                    &&& (array.buffers is Some && 1 < array.n_buffers as usize && 1
                    < array.buffers->0@.len() && (array.buffers->0@[1] matches Some(
                    Region::I32(data),
                ) && end + 1 <= data@.len()))
                    &&& array.children is Some && 0 < array.children->0@.len() && 0
                        < array.n_children as usize
                    &&& array.children->0@[0] matches Some(child)
                        && data_type.child(0) matches Some(t)
                        && crate::ffi::import::import(*child, t) is Ok
                },
                PhysicalType::LargeList => {
                    &&& (array.buffers is Some && 1 < array.n_buffers as usize && 1
                    < array.buffers->0@.len() && (array.buffers->0@[1] matches Some(
                    Region::I64(data),
                ) && end + 1 <= data@.len()))
                    &&& array.children is Some && 0 < array.children->0@.len() && 0
                        < array.n_children as usize
                    &&& array.children->0@[0] matches Some(child)
                        && data_type.child(0) matches Some(t)
                        && crate::ffi::import::import(*child, t) is Ok
                },
                PhysicalType::Mapping => {
                    &&& (array.buffers is Some && 1 < array.n_buffers as usize && 1
                    < array.buffers->0@.len() && (array.buffers->0@[1] matches Some(
                    Region::I32(data),
                ) && end + 1 <= data@.len()))
                    &&& array.children is Some && 0 < array.children->0@.len() && 0
                        < array.n_children as usize
                    &&& array.children->0@[0] matches Some(child)
                        && data_type.child(0) matches Some(t)
                        && crate::ffi::import::import(*child, t) is Ok
                },
                PhysicalType::FixedSizeList => {
                    &&& array.children is Some && 0 < array.children->0@.len() && 0
                        < array.n_children as usize
                    &&& array.children->0@[0] matches Some(child)
                        && data_type.child(0) matches Some(t)
                        && crate::ffi::import::import(*child, t) is Ok
                },
                PhysicalType::Struct => {
                    &&& forall|k: int|
                        0 <= k < data_type.fields().len()
                            ==> #[trigger] crate::ffi::import::import_child(
                            array,
                            data_type,
                            k,
                        ) is Ok
                },
                PhysicalType::Union => {
                    &&& (array.buffers is Some && 0 < array.n_buffers as usize && 0
                    < array.buffers->0@.len() && (array.buffers->0@[0] matches Some(
                    Region::I8(data),
                ) && end <= data@.len()))
                    &&& data_type.is_dense() ==> (array.buffers is Some
                        && 1 < array.n_buffers as usize && 1
                    < array.buffers->0@.len() && (array.buffers->0@[1] matches Some(
                    Region::I32(data),
                ) && end <= data@.len()))
                    &&& forall|k: int|
                        0 <= k < data_type.fields().len()
                            ==> #[trigger] crate::ffi::import::import_child(
                            array,
                            data_type,
                            k,
                        ) is Ok
                },
            }
        }),
{
    crate::datatypes::lemma_logical_is_no_extension(&data_type);
    if crate::ffi::import::valid_slots(array) {
        let n = data_type.fields().len();
        lemma_children_are_read(array, data_type, n);
        assert(crate::ffi::import::import(array, data_type) is Ok <==> (
        crate::ffi::import::import_validity(array, data_type) is Ok
            && crate::ffi::import::import_values(array, data_type) is Ok));
        let layout = data_type.physical();
        if layout is FixedSizeBinary {
            let size = data_type.fixed_size();
            let from = array.offset as int;
            let k = array.length as int;
            assert(size * from + size * k == size * (from + k)) by (nonlinear_arith);
            assert(size * from == from * size) by (nonlinear_arith);
            assert(0 <= size * from && 0 <= size * k) by (nonlinear_arith)
                requires
                    0 <= size,
                    0 <= from,
                    0 <= k,
            ;
        }
        if array.buffers is Some {
            lemma_memory_is_bounded(array, 0);
            lemma_memory_is_bounded(array, 1);
            lemma_memory_is_bounded(array, 2);
        }
        assert(crate::ffi::import::import_child(array, data_type, 0) is Ok
            || crate::ffi::import::import_child(array, data_type, 0) is Err);
    }
}

/// Whether buffer 1 holds slots of this type, `end` of them.
pub open spec fn primitive_holds(array: ArrowArray, kind: PrimitiveType, end: int) -> bool {
    &&& array.buffers is Some && 1 < array.buffers->0@.len() && 1 < array.n_buffers as usize
    &&& array.buffers->0@[1] matches Some(region) && match (kind, region) {
        (PrimitiveType::Int8, Region::I8(data)) => end <= data@.len(),
        (PrimitiveType::Int16, Region::I16(data)) => end <= data@.len(),
        (PrimitiveType::Int32, Region::I32(data)) => end <= data@.len(),
        (PrimitiveType::Int64, Region::I64(data)) => end <= data@.len(),
        (PrimitiveType::Int128, Region::I128(data)) => end <= data@.len(),
        (PrimitiveType::UInt8, Region::U8(data)) => end <= data@.len(),
        (PrimitiveType::UInt16, Region::U16(data)) => end <= data@.len(),
        (PrimitiveType::UInt32, Region::U32(data)) => end <= data@.len(),
        (PrimitiveType::UInt64, Region::U64(data)) => end <= data@.len(),
        (PrimitiveType::Float16, Region::U16(data)) => end <= data@.len(),
        (PrimitiveType::Float32, Region::U32(data)) => end <= data@.len(),
        (PrimitiveType::Float64, Region::U64(data)) => end <= data@.len(),
        (PrimitiveType::DaysMs, Region::DaysMs(data)) => end <= data@.len(),
        (PrimitiveType::MonthDayNano, Region::MonthsDaysNs(data)) => end <= data@.len(),
        _ => false,
    }
}

proof fn lemma_memory_is_bounded(array: ArrowArray, i: int)
    requires
        array.buffers is Some,
    ensures
        array.region(i) matches Some(region) ==> match region {
            Region::U8(data) => data@.len() <= usize::MAX,
            Region::U16(data) => data@.len() <= usize::MAX,
            Region::U32(data) => data@.len() <= usize::MAX,
            Region::U64(data) => data@.len() <= usize::MAX,
            Region::I8(data) => data@.len() <= usize::MAX,
            Region::I16(data) => data@.len() <= usize::MAX,
            Region::I32(data) => data@.len() <= usize::MAX,
            Region::I64(data) => data@.len() <= usize::MAX,
            Region::I128(data) => data@.len() <= usize::MAX,
            Region::DaysMs(data) => data@.len() <= usize::MAX,
            Region::MonthsDaysNs(data) => data@.len() <= usize::MAX,
        },
{
    if let Some(region) = array.region(i) {
        match region {
            Region::U8(data) => assert((*data).len() == data@.len()),
            Region::U16(data) => assert((*data).len() == data@.len()),
            Region::U32(data) => assert((*data).len() == data@.len()),
            Region::U64(data) => assert((*data).len() == data@.len()),
            Region::I8(data) => assert((*data).len() == data@.len()),
            Region::I16(data) => assert((*data).len() == data@.len()),
            Region::I32(data) => assert((*data).len() == data@.len()),
            Region::I64(data) => assert((*data).len() == data@.len()),
            Region::I128(data) => assert((*data).len() == data@.len()),
            Region::DaysMs(data) => assert((*data).len() == data@.len()),
            Region::MonthsDaysNs(data) => assert((*data).len() == data@.len()),
        }
    }
}

proof fn lemma_children_are_read(array: ArrowArray, data_type: DataType, n: nat)
    ensures
        crate::ffi::import::import_children(array, data_type, n) is Ok <==> forall|k: int|
            0 <= k < n ==> #[trigger] crate::ffi::import::import_child(array, data_type, k) is Ok,
    decreases n,
{
    if n > 0 {
        lemma_children_are_read(array, data_type, (n - 1) as nat);
        assert(crate::ffi::import::import_child(array, data_type, n - 1) is Ok
            || crate::ffi::import::import_child(array, data_type, n - 1) is Err);
        assert(crate::ffi::import::import_children(array, data_type, n) is Ok <==> (
        crate::ffi::import::import_children(array, data_type, (n - 1) as nat) is Ok
            && crate::ffi::import::import_child(array, data_type, n - 1) is Ok));
    }
}

/// A child is read where its pointer is there and its type says what to read.
pub proof fn law_import_reads_children(array: ArrowArray, data_type: DataType, k: int)
    ensures
        crate::ffi::import::import_child(array, data_type, k) is Ok <==> 0 <= k
            < array.n_children as usize && array.children is Some && k < array.children->0@.len()
                && (
        array.children->0@[k] matches Some(child) && data_type.child(k) matches Some(t)
            && crate::ffi::import::import(*child, t) is Ok),
{
    crate::datatypes::lemma_logical_is_no_extension(&data_type);
}

/// Why an array is not valid: the first of its numbers and pointers that is not.
#[verifier::rlimit(60)]
pub proof fn law_import_refuses(array: ArrowArray, data_type: DataType)
    ensures
        ({
            let layout = data_type.physical();
            let end = array.offset + array.length;
            let counted = 0 <= array.offset && 0 <= array.length && end <= usize::MAX;
            let has_bitmap = !(layout is Null || layout is Union) && array.null_count as usize != 0;
            let refused = crate::ffi::import::import(array, data_type);
            &&& !counted ==> refused == Err::<ArrayModel, Seq<char>>(
                "The array has no valid number of slots"@,
            )
            &&& counted && array.buffers is None && (has_bitmap || !(layout is Null
                || layout is Struct || layout is FixedSizeList)) ==> refused == Err::<
                ArrayModel,
                Seq<char>,
            >("The array buffers are null"@)
            &&& counted && has_bitmap && end + 7 <= usize::MAX && 0 < array.n_buffers as usize && (
            array.buffers matches Some(buffers) && 0 < buffers@.len() && buffers@[0] is None)
                ==> refused == Err::<ArrayModel, Seq<char>>(
                crate::text::around(
                    "The buffer "@,
                    0,
                    " is a null pointer and cannot be interpreted as a bitmap"@,
                ),
            )
            &&& counted && !has_bitmap && end + 7 <= usize::MAX && layout is Boolean && 1
                < array.n_buffers as usize && (array.buffers matches Some(buffers) && 1
                < buffers@.len() && buffers@[1] is None) ==> refused
                    == Err::<ArrayModel, Seq<char>>(
                crate::text::around(
                    "The buffer "@,
                    1,
                    " is a null pointer and cannot be interpreted as a bitmap"@,
                ),
            )
            &&& counted && !has_bitmap && end < usize::MAX && (layout is Primitive || layout
                is Dictionary || crate::ffi::array::has_offsets(layout)) && 1
                < array.n_buffers as usize && (array.buffers matches Some(buffers) && 1
                < buffers@.len() && buffers@[1] is None) ==> refused
                    == Err::<ArrayModel, Seq<char>>(
                crate::text::around("The buffer at position "@, 1, " is null"@),
            )
        }),
{
    crate::datatypes::lemma_logical_is_no_extension(&data_type);
    assert(crate::ffi::import::valid_slots(array) ==> match crate::ffi::import::import_validity(
        array,
        data_type,
    ) {
        Ok(_) => match crate::ffi::import::import_values(array, data_type) {
            Ok(_) => crate::ffi::import::import(array, data_type) is Ok,
            Err(message) => crate::ffi::import::import(array, data_type) == Err::<
                ArrayModel,
                Seq<char>,
            >(message),
        },
        Err(message) => crate::ffi::import::import(array, data_type) == Err::<
            ArrayModel,
            Seq<char>,
        >(message),
    });
}

/// Where each buffer starts and how many slots it has, those before the array's own
/// included.
pub proof fn law_buffer_places(array: ArrowArray, data_type: DataType, i: int)
    requires
        0 <= array.offset <= usize::MAX,
        0 <= array.length <= usize::MAX,
    ensures
        ({
            let start = crate::ffi::array::spec_buffer_offset(array, data_type, i);
            let len = crate::ffi::array::spec_buffer_len(array, data_type, i);
            let end = array.offset + array.length;
            match (data_type.physical(), i == 1, i == 2) {
                (PhysicalType::FixedSizeBinary, true, _) => {
                    &&& start == array.offset * data_type.fixed_size()
                    &&& len == data_type.fixed_size() * end
                },
                (PhysicalType::FixedSizeList, true, _) => {
                    &&& start == array.offset
                    &&& len == data_type.fixed_size() * end
                },
                (PhysicalType::Utf8, true, _) => start == array.offset && len == end + 1,
                (PhysicalType::LargeUtf8, true, _) => start == array.offset && len == end + 1,
                (PhysicalType::Binary, true, _) => start == array.offset && len == end + 1,
                (PhysicalType::LargeBinary, true, _) => start == array.offset && len == end + 1,
                (PhysicalType::List, true, _) => start == array.offset && len == end + 1,
                (PhysicalType::LargeList, true, _) => start == array.offset && len == end + 1,
                (PhysicalType::Mapping, true, _) => start == array.offset && len == end + 1,
                (PhysicalType::Utf8, _, true) => start == 0 && ((array.buffers matches Some(buffers)
                    && buffers@[1] matches Some(Region::I32(offsets))) ==> len
                    == array.buffers->0@[1]->0->I32_0@[end] as usize),
                (PhysicalType::Binary, _, true) => start == 0
                    && ((array.buffers matches Some(buffers)
                    && buffers@[1] matches Some(Region::I32(offsets))) ==> len
                    == array.buffers->0@[1]->0->I32_0@[end] as usize),
                (PhysicalType::LargeUtf8, _, true) => start == 0
                    && ((array.buffers matches Some(buffers)
                    && buffers@[1] matches Some(Region::I64(offsets))) ==> len
                    == array.buffers->0@[1]->0->I64_0@[end] as usize),
                (PhysicalType::LargeBinary, _, true) => start == 0
                    && ((array.buffers matches Some(buffers)
                    && buffers@[1] matches Some(Region::I64(offsets))) ==> len
                    == array.buffers->0@[1]->0->I64_0@[end] as usize),
                _ => start == array.offset && len == end,
            }
        }),
{
}

/// What each buffer of each layout holds.
pub proof fn law_slots_by_layout(layout: PhysicalType, i: int)
    ensures
        crate::ffi::import::spec_slots_of(layout, i) == (match (layout, i == 0, i == 1, i == 2) {
            (PhysicalType::Null, _, _, _) => None,
            (PhysicalType::Union, true, _, _) => Some(
                crate::ffi::import::Slots::Values(PrimitiveType::Int8),
            ),
            (PhysicalType::Union, _, true, _) => Some(
                crate::ffi::import::Slots::Values(PrimitiveType::Int32),
            ),
            (PhysicalType::Union, _, _, _) => None,
            (_, true, _, _) => Some(crate::ffi::import::Slots::Bits),
            (PhysicalType::Boolean, _, true, _) => Some(crate::ffi::import::Slots::Bits),
            (PhysicalType::Primitive(kind), _, true, _) => Some(
                crate::ffi::import::Slots::Values(kind),
            ),
            (PhysicalType::Dictionary(key), _, true, _) => Some(
                crate::ffi::import::Slots::Values(key.primitive()),
            ),
            (PhysicalType::Utf8, _, true, _) => Some(
                crate::ffi::import::Slots::Values(PrimitiveType::Int32),
            ),
            (PhysicalType::Binary, _, true, _) => Some(
                crate::ffi::import::Slots::Values(PrimitiveType::Int32),
            ),
            (PhysicalType::List, _, true, _) => Some(
                crate::ffi::import::Slots::Values(PrimitiveType::Int32),
            ),
            (PhysicalType::Mapping, _, true, _) => Some(
                crate::ffi::import::Slots::Values(PrimitiveType::Int32),
            ),
            (PhysicalType::LargeUtf8, _, true, _) => Some(
                crate::ffi::import::Slots::Values(PrimitiveType::Int64),
            ),
            (PhysicalType::LargeBinary, _, true, _) => Some(
                crate::ffi::import::Slots::Values(PrimitiveType::Int64),
            ),
            (PhysicalType::LargeList, _, true, _) => Some(
                crate::ffi::import::Slots::Values(PrimitiveType::Int64),
            ),
            (PhysicalType::FixedSizeBinary, _, true, _) => Some(
                crate::ffi::import::Slots::Values(PrimitiveType::UInt8),
            ),
            (PhysicalType::Utf8, _, _, true) => Some(
                crate::ffi::import::Slots::Values(PrimitiveType::UInt8),
            ),
            (PhysicalType::Binary, _, _, true) => Some(
                crate::ffi::import::Slots::Values(PrimitiveType::UInt8),
            ),
            (PhysicalType::LargeUtf8, _, _, true) => Some(
                crate::ffi::import::Slots::Values(PrimitiveType::UInt8),
            ),
            (PhysicalType::LargeBinary, _, _, true) => Some(
                crate::ffi::import::Slots::Values(PrimitiveType::UInt8),
            ),
            _ => None,
        }),
{
}

} // verus!
