//! Arrays: typed columns of slots.
use std::sync::Arc;
use vstd::prelude::*;

use crate::bitmap::Bitmap;
use crate::buffer::Buffer;
use crate::datatypes::{share, DataType, PhysicalType, PrimitiveType};
use crate::types::{DaysMs, MonthsDaysNs, NativeType, Region};

verus! {

/// The values of an array of slots of fixed size. Floating point numbers are
/// held by their bits.
#[derive(Debug)]
pub enum PrimitiveValues {
    Int8(Buffer<i8>),
    Int16(Buffer<i16>),
    Int32(Buffer<i32>),
    Int64(Buffer<i64>),
    Int128(Buffer<i128>),
    UInt8(Buffer<u8>),
    UInt16(Buffer<u16>),
    UInt32(Buffer<u32>),
    UInt64(Buffer<u64>),
    Float16(Buffer<u16>),
    Float32(Buffer<u32>),
    Float64(Buffer<u64>),
    DaysMs(Buffer<DaysMs>),
    MonthDayNano(Buffer<MonthsDaysNs>),
}

/// What [`PrimitiveValues`] hold
pub enum PrimitiveModel {
    Int8(Seq<i8>),
    Int16(Seq<i16>),
    Int32(Seq<i32>),
    Int64(Seq<i64>),
    Int128(Seq<i128>),
    UInt8(Seq<u8>),
    UInt16(Seq<u16>),
    UInt32(Seq<u32>),
    UInt64(Seq<u64>),
    Float16(Seq<u16>),
    Float32(Seq<u32>),
    Float64(Seq<u64>),
    DaysMs(Seq<DaysMs>),
    MonthDayNano(Seq<MonthsDaysNs>),
}

/// Whether the region is there and is this memory.
pub open spec fn region_is<T: NativeType>(region: Option<Region>, data: Arc<Vec<T>>) -> bool {
    region matches Some(r) && T::spec_values(r) == Some(data)
}

impl<T> Buffer<T> {
    /// Whether this slice has `length` values from `offset` on.
    pub open spec fn aligned(self, offset: int, length: int) -> bool {
        self.wf() && self.offset == offset && self.length == length
    }
}

impl Bitmap {
    /// Whether this slice has `length` bits from `offset` on.
    pub open spec fn aligned(self, offset: int, length: int) -> bool {
        self.wf() && self.offset == offset && self.length == length
    }
}

impl PrimitiveValues {
    /// The type of the slots
    pub open spec fn kind(self) -> PrimitiveType {
        match self {
            PrimitiveValues::Int8(_) => PrimitiveType::Int8,
            PrimitiveValues::Int16(_) => PrimitiveType::Int16,
            PrimitiveValues::Int32(_) => PrimitiveType::Int32,
            PrimitiveValues::Int64(_) => PrimitiveType::Int64,
            PrimitiveValues::Int128(_) => PrimitiveType::Int128,
            PrimitiveValues::UInt8(_) => PrimitiveType::UInt8,
            PrimitiveValues::UInt16(_) => PrimitiveType::UInt16,
            PrimitiveValues::UInt32(_) => PrimitiveType::UInt32,
            PrimitiveValues::UInt64(_) => PrimitiveType::UInt64,
            PrimitiveValues::Float16(_) => PrimitiveType::Float16,
            PrimitiveValues::Float32(_) => PrimitiveType::Float32,
            PrimitiveValues::Float64(_) => PrimitiveType::Float64,
            PrimitiveValues::DaysMs(_) => PrimitiveType::DaysMs,
            PrimitiveValues::MonthDayNano(_) => PrimitiveType::MonthDayNano,
        }
    }

    /// The slots
    pub open spec fn model(self) -> PrimitiveModel {
        match self {
            PrimitiveValues::Int8(b) => PrimitiveModel::Int8(b@),
            PrimitiveValues::Int16(b) => PrimitiveModel::Int16(b@),
            PrimitiveValues::Int32(b) => PrimitiveModel::Int32(b@),
            PrimitiveValues::Int64(b) => PrimitiveModel::Int64(b@),
            PrimitiveValues::Int128(b) => PrimitiveModel::Int128(b@),
            PrimitiveValues::UInt8(b) => PrimitiveModel::UInt8(b@),
            PrimitiveValues::UInt16(b) => PrimitiveModel::UInt16(b@),
            PrimitiveValues::UInt32(b) => PrimitiveModel::UInt32(b@),
            PrimitiveValues::UInt64(b) => PrimitiveModel::UInt64(b@),
            PrimitiveValues::Float16(b) => PrimitiveModel::Float16(b@),
            PrimitiveValues::Float32(b) => PrimitiveModel::Float32(b@),
            PrimitiveValues::Float64(b) => PrimitiveModel::Float64(b@),
            PrimitiveValues::DaysMs(b) => PrimitiveModel::DaysMs(b@),
            PrimitiveValues::MonthDayNano(b) => PrimitiveModel::MonthDayNano(b@),
        }
    }

    /// Whether there are `length` slots from `offset` on.
    pub open spec fn aligned(self, offset: int, length: int) -> bool {
        match self {
            PrimitiveValues::Int8(b) => b.aligned(offset, length),
            PrimitiveValues::Int16(b) => b.aligned(offset, length),
            PrimitiveValues::Int32(b) => b.aligned(offset, length),
            PrimitiveValues::Int64(b) => b.aligned(offset, length),
            PrimitiveValues::Int128(b) => b.aligned(offset, length),
            PrimitiveValues::UInt8(b) => b.aligned(offset, length),
            PrimitiveValues::UInt16(b) => b.aligned(offset, length),
            PrimitiveValues::UInt32(b) => b.aligned(offset, length),
            PrimitiveValues::UInt64(b) => b.aligned(offset, length),
            PrimitiveValues::Float16(b) => b.aligned(offset, length),
            PrimitiveValues::Float32(b) => b.aligned(offset, length),
            PrimitiveValues::Float64(b) => b.aligned(offset, length),
            PrimitiveValues::DaysMs(b) => b.aligned(offset, length),
            PrimitiveValues::MonthDayNano(b) => b.aligned(offset, length),
        }
    }

    /// Whether the region is the memory of these slots.
    pub open spec fn in_region(self, region: Option<Region>) -> bool {
        match self {
            PrimitiveValues::Int8(b) => region_is::<i8>(region, b.data),
            PrimitiveValues::Int16(b) => region_is::<i16>(region, b.data),
            PrimitiveValues::Int32(b) => region_is::<i32>(region, b.data),
            PrimitiveValues::Int64(b) => region_is::<i64>(region, b.data),
            PrimitiveValues::Int128(b) => region_is::<i128>(region, b.data),
            PrimitiveValues::UInt8(b) => region_is::<u8>(region, b.data),
            PrimitiveValues::UInt16(b) => region_is::<u16>(region, b.data),
            PrimitiveValues::UInt32(b) => region_is::<u32>(region, b.data),
            PrimitiveValues::UInt64(b) => region_is::<u64>(region, b.data),
            PrimitiveValues::Float16(b) => region_is::<u16>(region, b.data),
            PrimitiveValues::Float32(b) => region_is::<u32>(region, b.data),
            PrimitiveValues::Float64(b) => region_is::<u64>(region, b.data),
            PrimitiveValues::DaysMs(b) => region_is::<DaysMs>(region, b.data),
            PrimitiveValues::MonthDayNano(b) => region_is::<MonthsDaysNs>(region, b.data),
        }
    }

    /// The memory of these slots
    pub fn region(&self) -> (r: Region)
        ensures
            self.in_region(Some(r)),
    {
        match self {
            PrimitiveValues::Int8(b) => <i8>::into_region(share(&b.data)),
            PrimitiveValues::Int16(b) => <i16>::into_region(share(&b.data)),
            PrimitiveValues::Int32(b) => <i32>::into_region(share(&b.data)),
            PrimitiveValues::Int64(b) => <i64>::into_region(share(&b.data)),
            PrimitiveValues::Int128(b) => <i128>::into_region(share(&b.data)),
            PrimitiveValues::UInt8(b) => <u8>::into_region(share(&b.data)),
            PrimitiveValues::UInt16(b) => <u16>::into_region(share(&b.data)),
            PrimitiveValues::UInt32(b) => <u32>::into_region(share(&b.data)),
            PrimitiveValues::UInt64(b) => <u64>::into_region(share(&b.data)),
            PrimitiveValues::Float16(b) => <u16>::into_region(share(&b.data)),
            PrimitiveValues::Float32(b) => <u32>::into_region(share(&b.data)),
            PrimitiveValues::Float64(b) => <u64>::into_region(share(&b.data)),
            PrimitiveValues::DaysMs(b) => <DaysMs>::into_region(share(&b.data)),
            PrimitiveValues::MonthDayNano(b) => <MonthsDaysNs>::into_region(share(&b.data)),
        }
    }
}

/// The values of an array, by layout
#[derive(Debug)]
pub enum Values {
    Null,
    Boolean(Bitmap),
    Primitive(PrimitiveValues),
    /// Offsets and bytes
    Utf8(Buffer<i32>, Buffer<u8>),
    LargeUtf8(Buffer<i64>, Buffer<u8>),
    Binary(Buffer<i32>, Buffer<u8>),
    LargeBinary(Buffer<i64>, Buffer<u8>),
    FixedSizeBinary(Buffer<u8>),
    /// Offsets and items
    List(Buffer<i32>, Box<Array>),
    LargeList(Buffer<i64>, Box<Array>),
    FixedSizeList(Box<Array>),
    Struct(Vec<Array>),
    /// Keys and values
    Dictionary(PrimitiveValues, Box<Array>),
    /// Type ids, offsets when dense, and fields
    Union(Buffer<i8>, Option<Buffer<i32>>, Vec<Array>),
    /// Offsets and entries
    Mapping(Buffer<i32>, Box<Array>),
}

/// An array: `length` slots of one type. Its slots start at the slot `offset`
/// of its memory.
#[derive(Debug)]
pub struct Array {
    pub data_type: DataType,
    pub offset: usize,
    pub length: usize,
    /// Which slots are valid; all of them, when absent
    pub validity: Option<Bitmap>,
    pub values: Values,
}

/// What [`Values`] hold
pub enum ValuesModel {
    Null,
    Boolean(Seq<bool>),
    Primitive(PrimitiveModel),
    Utf8(Seq<i32>, Seq<u8>),
    LargeUtf8(Seq<i64>, Seq<u8>),
    Binary(Seq<i32>, Seq<u8>),
    LargeBinary(Seq<i64>, Seq<u8>),
    FixedSizeBinary(Seq<u8>),
    List(Seq<i32>, Box<ArrayModel>),
    LargeList(Seq<i64>, Box<ArrayModel>),
    FixedSizeList(Box<ArrayModel>),
    Struct(Seq<ArrayModel>),
    Dictionary(PrimitiveModel, Box<ArrayModel>),
    Union(Seq<i8>, Option<Seq<i32>>, Seq<ArrayModel>),
    Mapping(Seq<i32>, Box<ArrayModel>),
}

/// What an [`Array`] holds
pub struct ArrayModel {
    pub data_type: DataType,
    pub offset: nat,
    pub length: nat,
    pub validity: Option<Seq<bool>>,
    pub values: ValuesModel,
}

/// Whether the offsets are laid out, and the last one lies within `values`, whose
/// memory starts at its first byte.
pub open spec fn variable_laid_out(
    last: int,
    offsets_aligned: bool,
    values: Buffer<u8>,
) -> bool {
    offsets_aligned && values.wf() && values.offset == 0 && last as usize <= values.length
}

impl Array {
    /// The array is laid out as the type says, and all of its memory starts at the same
    /// slot.
    pub open spec fn laid_out_as(self, data_type: DataType) -> bool
        decreases self,
    {
        let layout = data_type.physical();
        &&& self.validity matches Some(bits) ==> bits.aligned(
            self.offset as int,
            self.length as int,
        )
        &&& layout is Null || layout is Union ==> self.validity is None
        &&& self.values.laid_out(data_type, self.offset as int, self.length as int)
    }

    /// The array is laid out as its type says, and all of its memory starts at the same
    /// slot.
    pub open spec fn laid_out(self) -> bool {
        self.laid_out_as(self.data_type)
    }

    /// The numbers that describe the array, and those that it is made of, can be written
    /// as numbers of 64 bits with a sign.
    pub open spec fn in_range(self) -> bool
        decreases self,
    {
        &&& self.offset <= i64::MAX
        &&& self.length <= i64::MAX
        &&& self.values.in_range()
    }

    /// The array is laid out as its type says, and the numbers that describe it can be
    /// written.
    pub open spec fn wf(self) -> bool {
        self.laid_out() && self.in_range()
    }

    /// The arrays that this array is made of have the types that its type says.
    pub open spec fn typed(self) -> bool
        decreases self,
    {
        self.values.typed(self.data_type)
    }

    /// What this array holds
    pub open spec fn model(self) -> ArrayModel
        decreases self,
    {
        ArrayModel {
            data_type: self.data_type,
            offset: self.offset as nat,
            length: self.length as nat,
            validity: match self.validity {
                Some(bits) => Some(bits@),
                None => None,
            },
            values: self.values.model(),
        }
    }
}

impl Values {
    /// The arrays that these values are made of have the types that the type says.
    pub open spec fn typed(self, data_type: DataType) -> bool
        decreases self,
    {
        match self {
            Values::List(_, items) => Some(items.data_type) == data_type.child(0) && items.typed(),
            Values::LargeList(_, items) => Some(items.data_type) == data_type.child(0)
                && items.typed(),
            Values::FixedSizeList(items) => Some(items.data_type) == data_type.child(0)
                && items.typed(),
            Values::Mapping(_, entries) => Some(entries.data_type) == data_type.child(0)
                && entries.typed(),
            Values::Dictionary(_, items) => {
                &&& data_type.logical() matches DataType::Dictionary(_, t, _) && items.data_type
                    == *t
                &&& items.typed()
            },
            Values::Struct(fields) => forall|i: int|
                0 <= i < fields@.len() ==> Some((#[trigger] fields@[i]).data_type)
                    == data_type.child(i) && fields@[i].typed(),
            Values::Union(_, _, fields) => forall|i: int|
                0 <= i < fields@.len() ==> Some((#[trigger] fields@[i]).data_type)
                    == data_type.child(i) && fields@[i].typed(),
            _ => true,
        }
    }

    /// The values of `n` slots from `from` on are laid out as the type says.
    pub open spec fn laid_out(self, data_type: DataType, from: int, n: int) -> bool
        decreases self,
    {
        match (data_type.physical(), self) {
            (PhysicalType::Null, Values::Null) => true,
            (PhysicalType::Boolean, Values::Boolean(bits)) => bits.aligned(from, n),
            (PhysicalType::Primitive(kind), Values::Primitive(values)) => values.kind() == kind
                && values.aligned(from, n),
            (PhysicalType::Utf8, Values::Utf8(offsets, values)) => variable_laid_out(
                offsets@[n] as int,
                offsets.aligned(from, n + 1),
                values,
            ),
            (PhysicalType::LargeUtf8, Values::LargeUtf8(offsets, values)) => variable_laid_out(
                offsets@[n] as int,
                offsets.aligned(from, n + 1),
                values,
            ),
            (PhysicalType::Binary, Values::Binary(offsets, values)) => variable_laid_out(
                offsets@[n] as int,
                offsets.aligned(from, n + 1),
                values,
            ),
            (PhysicalType::LargeBinary, Values::LargeBinary(offsets, values)) => variable_laid_out(
                offsets@[n] as int,
                offsets.aligned(from, n + 1),
                values,
            ),
            (PhysicalType::FixedSizeBinary, Values::FixedSizeBinary(values)) => {
                let size = data_type.fixed_size();
                values.aligned(size * from, size * n)
            },
            (PhysicalType::List, Values::List(offsets, items)) => {
                &&& offsets.aligned(from, n + 1)
                &&& data_type.child(0) matches Some(t) && items.laid_out_as(t)
            },
            (PhysicalType::LargeList, Values::LargeList(offsets, items)) => {
                &&& offsets.aligned(from, n + 1)
                &&& data_type.child(0) matches Some(t) && items.laid_out_as(t)
            },
            (PhysicalType::FixedSizeList, Values::FixedSizeList(items)) => {
                &&& data_type.child(0) matches Some(t) && items.laid_out_as(t)
            },
            (PhysicalType::Struct, Values::Struct(fields)) => {
                &&& fields@.len() == data_type.fields().len()
                &&& forall|i: int|
                    0 <= i < fields@.len() ==> data_type.child(i) is Some && (
                    #[trigger] fields@[i]).laid_out_as(data_type.child(i)->0)
            },
            (PhysicalType::Dictionary(key), Values::Dictionary(keys, items)) => {
                &&& keys.kind() == key.primitive()
                &&& keys.aligned(from, n)
                &&& data_type.logical() matches DataType::Dictionary(_, t, _)
                    && items.laid_out_as(*t)
            },
            (PhysicalType::Union, Values::Union(types, offsets, fields)) => {
                &&& types.aligned(from, n)
                &&& offsets is Some <==> data_type.is_dense()
                &&& offsets matches Some(o) ==> o.aligned(from, n)
                &&& fields@.len() == data_type.fields().len()
                &&& forall|i: int|
                    0 <= i < fields@.len() ==> data_type.child(i) is Some && (
                    #[trigger] fields@[i]).laid_out_as(data_type.child(i)->0)
            },
            (PhysicalType::Mapping, Values::Mapping(offsets, entries)) => {
                &&& offsets.aligned(from, n + 1)
                &&& data_type.child(0) matches Some(t) && entries.laid_out_as(t)
            },
            _ => false,
        }
    }

    /// The arrays that these values are made of are in range, and so are the bytes of
    /// strings.
    pub open spec fn in_range(self) -> bool
        decreases self,
    {
        match self {
            Values::Utf8(offsets, _) => 0 <= offsets@.last() <= usize::MAX,
            Values::LargeUtf8(offsets, _) => 0 <= offsets@.last() <= usize::MAX,
            Values::Binary(offsets, _) => 0 <= offsets@.last() <= usize::MAX,
            Values::LargeBinary(offsets, _) => 0 <= offsets@.last() <= usize::MAX,
            Values::List(_, items) => items.in_range(),
            Values::LargeList(_, items) => items.in_range(),
            Values::FixedSizeList(items) => items.in_range(),
            Values::Mapping(_, entries) => entries.in_range(),
            Values::Dictionary(_, items) => items.in_range(),
            Values::Struct(fields) => fields@.len() <= i64::MAX && forall|i: int|
                0 <= i < fields@.len() ==> (#[trigger] fields@[i]).in_range(),
            Values::Union(_, _, fields) => fields@.len() <= i64::MAX && forall|i: int|
                0 <= i < fields@.len() ==> (#[trigger] fields@[i]).in_range(),
            _ => true,
        }
    }

    /// What these values hold
    pub open spec fn model(self) -> ValuesModel
        decreases self,
    {
        match self {
            Values::Null => ValuesModel::Null,
            Values::Boolean(bits) => ValuesModel::Boolean(bits@),
            Values::Primitive(values) => ValuesModel::Primitive(values.model()),
            Values::Utf8(offsets, values) => ValuesModel::Utf8(offsets@, values@),
            Values::LargeUtf8(offsets, values) => ValuesModel::LargeUtf8(offsets@, values@),
            Values::Binary(offsets, values) => ValuesModel::Binary(offsets@, values@),
            Values::LargeBinary(offsets, values) => ValuesModel::LargeBinary(
                offsets@,
                values@,
            ),
            Values::FixedSizeBinary(values) => ValuesModel::FixedSizeBinary(values@),
            Values::List(offsets, items) => ValuesModel::List(
                offsets@,
                Box::new(items.model()),
            ),
            Values::LargeList(offsets, items) => ValuesModel::LargeList(
                offsets@,
                Box::new(items.model()),
            ),
            Values::FixedSizeList(items) => ValuesModel::FixedSizeList(
                Box::new(items.model()),
            ),
            Values::Struct(fields) => ValuesModel::Struct(
                Seq::new(
                    fields@.len(),
                    |i: int|
                        if 0 <= i < fields@.len() {
                            fields@[i].model()
                        } else {
                            arbitrary()
                        },
                ),
            ),
            Values::Dictionary(keys, items) => ValuesModel::Dictionary(
                keys.model(),
                Box::new(items.model()),
            ),
            Values::Union(types, offsets, fields) => ValuesModel::Union(
                types@,
                match offsets {
                    Some(o) => Some(o@),
                    None => None,
                },
                Seq::new(
                    fields@.len(),
                    |i: int|
                        if 0 <= i < fields@.len() {
                            fields@[i].model()
                        } else {
                            arbitrary()
                        },
                ),
            ),
            Values::Mapping(offsets, entries) => ValuesModel::Mapping(
                offsets@,
                Box::new(entries.model()),
            ),
        }
    }
}

impl Array {
    /// The number of slots that are not valid
    pub open spec fn spec_null_count(self) -> nat {
        if self.values is Null {
            self.length as nat
        } else {
            match self.validity {
                Some(bits) => crate::bitmap::count_unset(bits@),
                None => 0,
            }
        }
    }

    /// The number of slots
    pub fn len(&self) -> (r: usize)
        ensures
            r == self.length,
    {
        self.length
    }

    /// The number of slots that are not valid
    pub fn null_count(&self) -> (r: usize)
        requires
            self.validity matches Some(bits) ==> bits.wf(),
        ensures
            r == self.spec_null_count(),
            r == match self.values {
                Values::Null => self.length as nat,
                _ => match self.validity {
                    Some(bits) => crate::bitmap::count_unset(bits@),
                    None => 0,
                },
            },
    {
        match &self.values {
            Values::Null => self.length,
            _ => match &self.validity {
                Some(bits) => bits.unset_bits(),
                None => 0,
            },
        }
    }

    /// The arrays that this array is made of, but for its dictionary
    pub open spec fn children(self) -> Seq<Array> {
        match self.values {
            Values::List(_, items) => seq![*items],
            Values::LargeList(_, items) => seq![*items],
            Values::FixedSizeList(items) => seq![*items],
            Values::Mapping(_, entries) => seq![*entries],
            Values::Struct(fields) => fields@,
            Values::Union(_, _, fields) => fields@,
            _ => Seq::empty(),
        }
    }

    /// The values that the slots are keys of
    pub open spec fn dictionary(self) -> Option<Array> {
        match self.values {
            Values::Dictionary(_, values) => Some(*values),
            _ => None,
        }
    }

    /// Whether the region is the memory of the validity, if any.
    pub open spec fn validity_in_region(self, region: Option<Region>) -> bool {
        match self.validity {
            Some(bits) => region_is::<u8>(region, bits.bytes),
            None => region is None,
        }
    }

    /// Whether `buffers` are the memory of this array, in the order of the C data
    /// interface.
    pub open spec fn in_regions(self, buffers: Seq<Option<Region>>) -> bool {
        match self.values {
            Values::Null => buffers.len() == 1 && buffers[0] is None,
            Values::Boolean(bits) => {
                &&& buffers.len() == 2
                &&& self.validity_in_region(buffers[0])
                &&& region_is::<u8>(buffers[1], bits.bytes)
            },
            Values::Primitive(values) => {
                &&& buffers.len() == 2
                &&& self.validity_in_region(buffers[0])
                &&& values.in_region(buffers[1])
            },
            Values::Utf8(offsets, values) => {
                &&& buffers.len() == 3
                &&& self.validity_in_region(buffers[0])
                &&& region_is::<i32>(buffers[1], offsets.data)
                &&& region_is::<u8>(buffers[2], values.data)
            },
            Values::LargeUtf8(offsets, values) => {
                &&& buffers.len() == 3
                &&& self.validity_in_region(buffers[0])
                &&& region_is::<i64>(buffers[1], offsets.data)
                &&& region_is::<u8>(buffers[2], values.data)
            },
            Values::Binary(offsets, values) => {
                &&& buffers.len() == 3
                &&& self.validity_in_region(buffers[0])
                &&& region_is::<i32>(buffers[1], offsets.data)
                &&& region_is::<u8>(buffers[2], values.data)
            },
            Values::LargeBinary(offsets, values) => {
                &&& buffers.len() == 3
                &&& self.validity_in_region(buffers[0])
                &&& region_is::<i64>(buffers[1], offsets.data)
                &&& region_is::<u8>(buffers[2], values.data)
            },
            Values::FixedSizeBinary(values) => {
                &&& buffers.len() == 2
                &&& self.validity_in_region(buffers[0])
                &&& region_is::<u8>(buffers[1], values.data)
            },
            Values::List(offsets, _) => {
                &&& buffers.len() == 2
                &&& self.validity_in_region(buffers[0])
                &&& region_is::<i32>(buffers[1], offsets.data)
            },
            Values::LargeList(offsets, _) => {
                &&& buffers.len() == 2
                &&& self.validity_in_region(buffers[0])
                &&& region_is::<i64>(buffers[1], offsets.data)
            },
            Values::FixedSizeList(_) => {
                &&& buffers.len() == 1
                &&& self.validity_in_region(buffers[0])
            },
            Values::Struct(_) => {
                &&& buffers.len() == 1
                &&& self.validity_in_region(buffers[0])
            },
            Values::Dictionary(keys, _) => {
                &&& buffers.len() == 2
                &&& self.validity_in_region(buffers[0])
                &&& keys.in_region(buffers[1])
            },
            Values::Union(types, offsets, _) => {
                &&& buffers.len() == if offsets is Some {
                    2int
                } else {
                    1int
                }
                &&& region_is::<i8>(buffers[0], types.data)
                &&& offsets matches Some(o) ==> region_is::<i32>(buffers[1], o.data)
            },
            Values::Mapping(offsets, _) => {
                &&& buffers.len() == 2
                &&& self.validity_in_region(buffers[0])
                &&& region_is::<i32>(buffers[1], offsets.data)
            },
        }
    }

    fn validity_region(&self) -> (r: Option<Region>)
        ensures
            self.validity_in_region(r),
    {
        match &self.validity {
            Some(bits) => Some(u8::into_region(share(&bits.bytes))),
            None => None,
        }
    }
}

fn region_of<T: NativeType>(buffer: &Buffer<T>) -> (r: Option<Region>)
    ensures
        region_is::<T>(r, buffer.data),
{
    Some(T::into_region(share(&buffer.data)))
}

fn references(fields: &Vec<Array>) -> (r: Vec<&Array>)
    ensures
        r@.len() == fields@.len(),
        forall|i: int| 0 <= i < r@.len() ==> *(#[trigger] r@[i]) == fields@[i],
{
    let mut r: Vec<&Array> = Vec::new();
    let mut i: usize = 0;
    while i < fields.len()
        invariant
            i <= fields@.len(),
            r@.len() == i,
            forall|k: int| 0 <= k < i ==> *(#[trigger] r@[k]) == fields@[k],
        decreases fields@.len() - i,
    {
        r.push(&fields[i]);
        i = i + 1;
    }
    r
}

/// Whether this slice has `length` values from `offset` on.
fn is_buffer_aligned<T>(buffer: &Buffer<T>, offset: u128, length: u128) -> (r: bool)
    ensures
        r == buffer.aligned(offset as int, length as int),
{
    let total = buffer.data.len();
    buffer.offset <= total && buffer.length <= total - buffer.offset && buffer.offset as u128
        == offset && buffer.length as u128 == length
}

/// Whether this slice has `length` bits from `offset` on.
fn is_bitmap_aligned(bitmap: &Bitmap, offset: usize, length: usize) -> (r: bool)
    ensures
        r == bitmap.aligned(offset as int, length as int),
{
    bitmap.offset as u128 + bitmap.length as u128 <= bitmap.bytes.len() as u128 * 8
        && bitmap.offset == offset && bitmap.length == length
}

/// The product, which always fits.
fn product(a: usize, b: usize) -> (r: u128)
    ensures
        r == a * b,
{
    assert(a * b <= 0xffff_ffff_ffff_ffff * 0xffff_ffff_ffff_ffff) by (nonlinear_arith)
        requires
            0 <= a <= 0xffff_ffff_ffff_ffff,
            0 <= b <= 0xffff_ffff_ffff_ffff,
    ;
    a as u128 * b as u128
}

impl PrimitiveValues {
    /// Whether these are `length` slots of this type from `offset` on.
    fn is_aligned(&self, kind: PrimitiveType, offset: usize, length: usize) -> (r: bool)
        ensures
            r == (self.kind() == kind && self.aligned(offset as int, length as int)),
    {
        let offset = offset as u128;
        let length = length as u128;
        match (self, kind) {
            (PrimitiveValues::Int8(b), PrimitiveType::Int8) => is_buffer_aligned(b, offset, length),
            (PrimitiveValues::Int16(b), PrimitiveType::Int16) => is_buffer_aligned(b, offset,
                length),
            (PrimitiveValues::Int32(b), PrimitiveType::Int32) => is_buffer_aligned(b, offset,
                length),
            (PrimitiveValues::Int64(b), PrimitiveType::Int64) => is_buffer_aligned(b, offset,
                length),
            (PrimitiveValues::Int128(b), PrimitiveType::Int128) => is_buffer_aligned(b, offset,
                length),
            (PrimitiveValues::UInt8(b), PrimitiveType::UInt8) => is_buffer_aligned(b, offset,
                length),
            (PrimitiveValues::UInt16(b), PrimitiveType::UInt16) => is_buffer_aligned(b, offset,
                length),
            (PrimitiveValues::UInt32(b), PrimitiveType::UInt32) => is_buffer_aligned(b, offset,
                length),
            (PrimitiveValues::UInt64(b), PrimitiveType::UInt64) => is_buffer_aligned(b, offset,
                length),
            (PrimitiveValues::Float16(b), PrimitiveType::Float16) => is_buffer_aligned(b, offset,
                length),
            (PrimitiveValues::Float32(b), PrimitiveType::Float32) => is_buffer_aligned(b, offset,
                length),
            (PrimitiveValues::Float64(b), PrimitiveType::Float64) => is_buffer_aligned(b, offset,
                length),
            (PrimitiveValues::DaysMs(b), PrimitiveType::DaysMs) => is_buffer_aligned(b, offset,
                length),
            (PrimitiveValues::MonthDayNano(b), PrimitiveType::MonthDayNano) =>
                is_buffer_aligned(b, offset, length),
            _ => false,
        }
    }
}

impl Values {
    /// Whether the values of `n` slots from `from` on are laid out as the type says.
    fn is_laid_out(&self, data_type: &DataType, from: usize, n: usize) -> (r: bool)
        ensures
            r == self.laid_out(*data_type, from as int, n as int),
        decreases self,
    {
        let start = from as u128;
        let slots = n as u128;
        match (data_type.to_physical_type(), self) {
            (PhysicalType::Null, Values::Null) => true,
            (PhysicalType::Boolean, Values::Boolean(bits)) => is_bitmap_aligned(bits, from, n),
            (PhysicalType::Primitive(kind), Values::Primitive(values)) => values.is_aligned(
                kind,
                from,
                n,
            ),
            (PhysicalType::Utf8, Values::Utf8(offsets, values)) => {
                is_buffer_aligned(offsets, start, slots + 1) && is_buffer_aligned(
                    values,
                    0,
                    values.length as u128,
                ) && *offsets.get(n) as usize <= values.length
            },
            (PhysicalType::LargeUtf8, Values::LargeUtf8(offsets, values)) => {
                is_buffer_aligned(offsets, start, slots + 1) && is_buffer_aligned(
                    values,
                    0,
                    values.length as u128,
                ) && *offsets.get(n) as usize <= values.length
            },
            (PhysicalType::Binary, Values::Binary(offsets, values)) => {
                is_buffer_aligned(offsets, start, slots + 1) && is_buffer_aligned(
                    values,
                    0,
                    values.length as u128,
                ) && *offsets.get(n) as usize <= values.length
            },
            (PhysicalType::LargeBinary, Values::LargeBinary(offsets, values)) => {
                is_buffer_aligned(offsets, start, slots + 1) && is_buffer_aligned(
                    values,
                    0,
                    values.length as u128,
                ) && *offsets.get(n) as usize <= values.length
            },
            (PhysicalType::FixedSizeBinary, Values::FixedSizeBinary(values)) => {
                match data_type.to_logical_type() {
                    DataType::FixedSizeBinary(size) => is_buffer_aligned(
                        values,
                        product(*size, from),
                        product(*size, n),
                    ),
                    _ => {
                        assert(false);
                        false
                    },
                }
            },
            (PhysicalType::List, Values::List(offsets, items)) => {
                match data_type.child_type(0) {
                    Some(t) => is_buffer_aligned(offsets, start, slots + 1) && items.is_laid_out_as(
                        t,
                    ),
                    None => false,
                }
            },
            (PhysicalType::LargeList, Values::LargeList(offsets, items)) => {
                match data_type.child_type(0) {
                    Some(t) => is_buffer_aligned(offsets, start, slots + 1) && items.is_laid_out_as(
                        t,
                    ),
                    None => false,
                }
            },
            (PhysicalType::Mapping, Values::Mapping(offsets, entries)) => {
                match data_type.child_type(0) {
                    Some(t) => is_buffer_aligned(offsets, start, slots + 1)
                        && entries.is_laid_out_as(
                        t,
                    ),
                    None => false,
                }
            },
            (PhysicalType::FixedSizeList, Values::FixedSizeList(items)) => {
                match data_type.child_type(0) {
                    Some(t) => items.is_laid_out_as(t),
                    None => false,
                }
            },
            (PhysicalType::Struct, Values::Struct(fields)) => are_laid_out(fields, data_type),
            (PhysicalType::Dictionary(key), Values::Dictionary(keys, items)) => {
                match data_type.to_logical_type() {
                    DataType::Dictionary(_, t, _) => keys.is_aligned(
                        key.to_primitive_type(),
                        from,
                        n,
                    ) && items.is_laid_out_as(t),
                    _ => {
                        assert(false);
                        false
                    },
                }
            },
            (PhysicalType::Union, Values::Union(types, offsets, fields)) => {
                let aligned = match offsets {
                    Some(offsets) => data_type.has_union_offsets() && is_buffer_aligned(
                        offsets,
                        start,
                        slots,
                    ),
                    None => !data_type.has_union_offsets(),
                };
                aligned && is_buffer_aligned(types, start, slots) && are_laid_out(
                    fields,
                    data_type,
                )
            },
            _ => false,
        }
    }

    /// Whether the arrays that these values are made of are in range, and the bytes of
    /// strings.
    fn is_in_range(
        &self,
        Ghost(data_type): Ghost<DataType>,
        Ghost(from): Ghost<int>,
        Ghost(n): Ghost<int>,
    ) -> (r: bool)
        requires
            n >= 0,
            self.laid_out(data_type, from, n),
        ensures
            r == self.in_range(),
        decreases self,
    {
        match self {
            Values::Utf8(offsets, _) => {
                let last = *offsets.get(offsets.length - 1);
                assert(last == offsets@.last());
                0 <= last
            },
            Values::LargeUtf8(offsets, _) => {
                let last = *offsets.get(offsets.length - 1);
                assert(last == offsets@.last());
                0 <= last && usize::try_from(last).is_ok()
            },
            Values::Binary(offsets, _) => {
                let last = *offsets.get(offsets.length - 1);
                assert(last == offsets@.last());
                0 <= last
            },
            Values::LargeBinary(offsets, _) => {
                let last = *offsets.get(offsets.length - 1);
                assert(last == offsets@.last());
                0 <= last && usize::try_from(last).is_ok()
            },
            Values::List(_, items) => items.is_in_range(Ghost(data_type.child(0)->0)),
            Values::LargeList(_, items) => items.is_in_range(Ghost(data_type.child(0)->0)),
            Values::FixedSizeList(items) => items.is_in_range(Ghost(data_type.child(0)->0)),
            Values::Mapping(_, entries) => entries.is_in_range(Ghost(data_type.child(0)->0)),
            Values::Dictionary(_, items) => items.is_in_range(
                Ghost(data_type.dictionary_values()),
            ),
            Values::Struct(fields) => are_in_range(fields, Ghost(data_type)),
            Values::Union(_, _, fields) => are_in_range(fields, Ghost(data_type)),
            _ => true,
        }
    }
}

/// Whether these are the fields of the type, laid out as it says.
fn are_laid_out(fields: &Vec<Array>, data_type: &DataType) -> (r: bool)
    ensures
        r == (fields@.len() == data_type.fields().len() && forall|i: int|
            0 <= i < fields@.len() ==> data_type.child(i) is Some && (
            #[trigger] fields@[i]).laid_out_as(data_type.child(i)->0)),
    decreases fields,
{
    if fields.len() != data_type.field_count() {
        return false;
    }
    let mut i: usize = 0;
    while i < fields.len()
        invariant
            i <= fields@.len(),
            forall|k: int|
                0 <= k < i ==> data_type.child(k) is Some && (
                #[trigger] fields@[k]).laid_out_as(data_type.child(k)->0),
        decreases fields@.len() - i,
    {
        let is_laid_out = match data_type.child_type(i) {
            Some(t) => fields[i].is_laid_out_as(t),
            None => false,
        };
        if !is_laid_out {
            assert(!(data_type.child(i as int) is Some && fields@[i as int].laid_out_as(
                data_type.child(i as int)->0,
            )));
            return false;
        }
        i = i + 1;
    }
    true
}

/// Whether these fields of the type are in range, and so is their number.
fn are_in_range(fields: &Vec<Array>, Ghost(data_type): Ghost<DataType>) -> (r: bool)
    requires
        forall|i: int|
            0 <= i < fields@.len() ==> (#[trigger] fields@[i]).laid_out_as(data_type.child(i)->0),
    ensures
        r == (fields@.len() <= i64::MAX && forall|i: int|
            0 <= i < fields@.len() ==> (#[trigger] fields@[i]).in_range()),
    decreases fields,
{
    if fields.len() as u64 > i64::MAX as u64 {
        return false;
    }
    let mut i: usize = 0;
    while i < fields.len()
        invariant
            i <= fields@.len(),
            forall|k: int|
                0 <= k < fields@.len() ==> (#[trigger] fields@[k]).laid_out_as(
                    data_type.child(k)->0,
                ),
            forall|k: int| 0 <= k < i ==> (#[trigger] fields@[k]).in_range(),
        decreases fields@.len() - i,
    {
        if !fields[i].is_in_range(Ghost(data_type.child(i as int)->0)) {
            assert(!fields@[i as int].in_range());
            return false;
        }
        i = i + 1;
    }
    true
}

impl Array {
    /// Whether the array is laid out as the type says.
    fn is_laid_out_as(&self, data_type: &DataType) -> (r: bool)
        ensures
            r == self.laid_out_as(*data_type),
        decreases self,
    {
        let validity = match &self.validity {
            Some(bits) => match data_type.to_physical_type() {
                PhysicalType::Null | PhysicalType::Union => false,
                _ => is_bitmap_aligned(bits, self.offset, self.length),
            },
            None => true,
        };
        validity && self.values.is_laid_out(data_type, self.offset, self.length)
    }

    /// Whether the numbers that describe the array, and those that it is made of, are in
    /// range.
    fn is_in_range(&self, Ghost(data_type): Ghost<DataType>) -> (r: bool)
        requires
            self.laid_out_as(data_type),
        ensures
            r == self.in_range(),
        decreases self,
    {
        self.offset as u64 <= i64::MAX as u64 && self.length as u64 <= i64::MAX as u64
            && self.values.is_in_range(
            Ghost(data_type),
            Ghost(self.offset as int),
            Ghost(self.length as int),
        )
    }

    /// Whether the array is laid out as its type says, and the numbers that describe it
    /// can be written.
    pub fn is_well_formed(&self) -> (r: bool)
        ensures
            r == self.wf(),
    {
        self.is_laid_out_as(&self.data_type) && self.is_in_range(Ghost(self.data_type))
    }
}

/// What an array hands to the C data interface: the slot that it starts at, its
/// memory, the arrays that it is made of, and its dictionary.
pub fn offset_buffers_children_dictionary(array: &Array) -> (r: (
    usize,
    Vec<Option<Region>>,
    Vec<&Array>,
    Option<&Array>,
))
    ensures
        r.0 == array.offset,
        array.in_regions(r.1@),
        r.1@.len() <= 3,
        r.2@.len() == array.children().len(),
        forall|i: int| 0 <= i < r.2@.len() ==> *(#[trigger] r.2@[i]) == array.children()[i],
        match r.3 {
            Some(values) => array.dictionary() == Some(*values),
            None => array.dictionary() is None,
        },
{
    let offset = array.offset;
    let validity = array.validity_region();
    match &array.values {
        Values::Null => {
            // older consumers expect a pointer, though the layout has no buffer
            (offset, vec![None], vec![], None)
        },
        Values::Boolean(bits) => (
            offset,
            vec![validity, Some(u8::into_region(share(&bits.bytes)))],
            vec![],
            None,
        ),
        Values::Primitive(values) => (offset, vec![validity, Some(values.region())], vec![], None),
        Values::Utf8(offsets, values) => (
            offset,
            vec![validity, region_of(offsets), region_of(values)],
            vec![],
            None,
        ),
        Values::LargeUtf8(offsets, values) => (
            offset,
            vec![validity, region_of(offsets), region_of(values)],
            vec![],
            None,
        ),
        Values::Binary(offsets, values) => (
            offset,
            vec![validity, region_of(offsets), region_of(values)],
            vec![],
            None,
        ),
        Values::LargeBinary(offsets, values) => (
            offset,
            vec![validity, region_of(offsets), region_of(values)],
            vec![],
            None,
        ),
        Values::FixedSizeBinary(values) => (
            offset,
            vec![validity, region_of(values)],
            vec![],
            None,
        ),
        Values::List(offsets, items) => (
            offset,
            vec![validity, region_of(offsets)],
            vec![&**items],
            None,
        ),
        Values::LargeList(offsets, items) => (
            offset,
            vec![validity, region_of(offsets)],
            vec![&**items],
            None,
        ),
        Values::FixedSizeList(items) => (offset, vec![validity], vec![&**items], None),
        Values::Struct(fields) => (offset, vec![validity], references(fields), None),
        Values::Dictionary(keys, values) => (
            offset,
            vec![validity, Some(keys.region())],
            vec![],
            Some(&**values),
        ),
        Values::Union(types, Some(offsets), fields) => (
            offset,
            vec![region_of(types), region_of(offsets)],
            references(fields),
            None,
        ),
        Values::Union(types, None, fields) => (
            offset,
            vec![region_of(types)],
            references(fields),
            None,
        ),
        Values::Mapping(offsets, entries) => (
            offset,
            vec![validity, region_of(offsets)],
            vec![&**entries],
            None,
        ),
    }
}

} // verus!
