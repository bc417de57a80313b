//! Logical and physical types of arrays.
use std::sync::Arc;
use vstd::prelude::*;

verus! {

/// The unit of a time
#[derive(Debug, Clone, Copy, PartialEq, Eq, Structural)]
pub enum TimeUnit {
    Second,
    Millisecond,
    Microsecond,
    Nanosecond,
}

/// The unit of an interval
#[derive(Debug, Clone, Copy, PartialEq, Eq, Structural)]
pub enum IntervalUnit {
    YearMonth,
    DayTime,
    MonthDayNano,
}

/// How the fields of a union are laid out
#[derive(Debug, Clone, Copy, PartialEq, Eq, Structural)]
pub enum UnionMode {
    Dense,
    Sparse,
}

/// The integer types that can be keys of a dictionary
#[derive(Debug, Clone, Copy, PartialEq, Eq, Structural)]
pub enum IntegerType {
    Int8,
    Int16,
    Int32,
    Int64,
    UInt8,
    UInt16,
    UInt32,
    UInt64,
}

impl IntegerType {
    /// The type that keys of this type are stored as
    pub open spec fn primitive(self) -> PrimitiveType {
        match self {
            IntegerType::Int8 => PrimitiveType::Int8,
            IntegerType::Int16 => PrimitiveType::Int16,
            IntegerType::Int32 => PrimitiveType::Int32,
            IntegerType::Int64 => PrimitiveType::Int64,
            IntegerType::UInt8 => PrimitiveType::UInt8,
            IntegerType::UInt16 => PrimitiveType::UInt16,
            IntegerType::UInt32 => PrimitiveType::UInt32,
            IntegerType::UInt64 => PrimitiveType::UInt64,
        }
    }

    /// The type that keys of this type are stored as
    pub fn to_primitive_type(&self) -> (r: PrimitiveType)
        ensures
            r == self.primitive(),
    {
        match self {
            IntegerType::Int8 => PrimitiveType::Int8,
            IntegerType::Int16 => PrimitiveType::Int16,
            IntegerType::Int32 => PrimitiveType::Int32,
            IntegerType::Int64 => PrimitiveType::Int64,
            IntegerType::UInt8 => PrimitiveType::UInt8,
            IntegerType::UInt16 => PrimitiveType::UInt16,
            IntegerType::UInt32 => PrimitiveType::UInt32,
            IntegerType::UInt64 => PrimitiveType::UInt64,
        }
    }
}

/// The types of fixed size that a slot can be stored as
#[derive(Debug, Clone, Copy, PartialEq, Eq, Structural)]
pub enum PrimitiveType {
    Int8,
    Int16,
    Int32,
    Int64,
    Int128,
    UInt8,
    UInt16,
    UInt32,
    UInt64,
    Float16,
    Float32,
    Float64,
    DaysMs,
    MonthDayNano,
}

/// How the slots of an array are laid out in memory
#[derive(Debug, Clone, Copy, PartialEq, Eq, Structural)]
pub enum PhysicalType {
    Null,
    Boolean,
    Primitive(PrimitiveType),
    Binary,
    FixedSizeBinary,
    LargeBinary,
    Utf8,
    LargeUtf8,
    List,
    FixedSizeList,
    LargeList,
    Struct,
    Union,
    Mapping,
    Dictionary(IntegerType),
}

/// A named type: a column of a table, or a part of a nested type
#[derive(Debug)]
pub struct Field {
    pub name: String,
    pub data_type: DataType,
    pub is_nullable: bool,
}

/// The logical type of an array
#[derive(Debug)]
pub enum DataType {
    Null,
    Boolean,
    Int8,
    Int16,
    Int32,
    Int64,
    UInt8,
    UInt16,
    UInt32,
    UInt64,
    Float16,
    Float32,
    Float64,
    /// A point in time, with an optional time zone
    Timestamp(TimeUnit, Option<String>),
    Date32,
    Date64,
    Time32(TimeUnit),
    Time64(TimeUnit),
    Duration(TimeUnit),
    Interval(IntervalUnit),
    Binary,
    /// Byte strings of this length each
    FixedSizeBinary(usize),
    LargeBinary,
    Utf8,
    LargeUtf8,
    List(Arc<Field>),
    /// Lists of this length each
    FixedSizeList(Arc<Field>, usize),
    LargeList(Arc<Field>),
    Struct(Arc<Vec<Field>>),
    /// One of several fields, with optional type ids
    Union(Arc<Vec<Field>>, Option<Arc<Vec<i32>>>, UnionMode),
    /// Entries of a map, and whether the keys are sorted
    Mapping(Arc<Field>, bool),
    /// Keys into values of another type, and whether the values are sorted
    Dictionary(IntegerType, Arc<DataType>, bool),
    /// Precision and scale
    Decimal(usize, usize),
    /// A named type stored as another one, with optional metadata
    Extension(String, Arc<DataType>, Option<String>),
}

impl DataType {
    /// The type that an extension is stored as; any other type is its own.
    pub open spec fn logical(self) -> DataType
        decreases self,
    {
        match self {
            DataType::Extension(_, inner, _) => inner.logical(),
            _ => self,
        }
    }

    /// The layout of a type that is no extension.
    pub open spec fn layout(self) -> PhysicalType {
        match self {
            DataType::Null => PhysicalType::Null,
            DataType::Boolean => PhysicalType::Boolean,
            DataType::Int8 => PhysicalType::Primitive(PrimitiveType::Int8),
            DataType::Int16 => PhysicalType::Primitive(PrimitiveType::Int16),
            DataType::Int32 | DataType::Date32 | DataType::Time32(_) | DataType::Interval(
                IntervalUnit::YearMonth,
            ) => PhysicalType::Primitive(PrimitiveType::Int32),
            DataType::Int64 | DataType::Date64 | DataType::Timestamp(_, _) | DataType::Time64(_)
            | DataType::Duration(_) => PhysicalType::Primitive(PrimitiveType::Int64),
            DataType::Decimal(_, _) => PhysicalType::Primitive(PrimitiveType::Int128),
            DataType::UInt8 => PhysicalType::Primitive(PrimitiveType::UInt8),
            DataType::UInt16 => PhysicalType::Primitive(PrimitiveType::UInt16),
            DataType::UInt32 => PhysicalType::Primitive(PrimitiveType::UInt32),
            DataType::UInt64 => PhysicalType::Primitive(PrimitiveType::UInt64),
            DataType::Float16 => PhysicalType::Primitive(PrimitiveType::Float16),
            DataType::Float32 => PhysicalType::Primitive(PrimitiveType::Float32),
            DataType::Float64 => PhysicalType::Primitive(PrimitiveType::Float64),
            DataType::Interval(IntervalUnit::DayTime) => PhysicalType::Primitive(
                PrimitiveType::DaysMs,
            ),
            DataType::Interval(IntervalUnit::MonthDayNano) => PhysicalType::Primitive(
                PrimitiveType::MonthDayNano,
            ),
            DataType::Binary => PhysicalType::Binary,
            DataType::FixedSizeBinary(_) => PhysicalType::FixedSizeBinary,
            DataType::LargeBinary => PhysicalType::LargeBinary,
            DataType::Utf8 => PhysicalType::Utf8,
            DataType::LargeUtf8 => PhysicalType::LargeUtf8,
            DataType::List(_) => PhysicalType::List,
            DataType::FixedSizeList(_, _) => PhysicalType::FixedSizeList,
            DataType::LargeList(_) => PhysicalType::LargeList,
            DataType::Struct(_) => PhysicalType::Struct,
            DataType::Union(_, _, _) => PhysicalType::Union,
            DataType::Mapping(_, _) => PhysicalType::Mapping,
            DataType::Dictionary(key, _, _) => PhysicalType::Dictionary(key),
            DataType::Extension(_, _, _) => arbitrary(),
        }
    }

    /// The layout of an array of this type: that of the type it is stored as.
    pub open spec fn physical(self) -> PhysicalType {
        self.logical().layout()
    }

    /// The number of items in each slot of a type with slots of fixed size
    pub open spec fn fixed_size(self) -> int {
        match self.logical() {
            DataType::FixedSizeBinary(size) => size as int,
            DataType::FixedSizeList(_, size) => size as int,
            _ => arbitrary(),
        }
    }

    /// The fields of a struct or a union
    pub open spec fn fields(self) -> Seq<Field> {
        match self.logical() {
            DataType::Struct(fields) => fields@,
            DataType::Union(fields, _, _) => fields@,
            _ => Seq::empty(),
        }
    }

    /// Whether this is a union with a buffer of offsets
    pub open spec fn is_dense(self) -> bool {
        self.logical() matches DataType::Union(_, _, mode) && mode is Dense
    }

    /// The type of the `i`-th child of an array of this type
    pub open spec fn child(self, i: int) -> Option<DataType> {
        match self.logical() {
            DataType::List(field) if i == 0 => Some(field.data_type),
            DataType::FixedSizeList(field, _) if i == 0 => Some(field.data_type),
            DataType::LargeList(field) if i == 0 => Some(field.data_type),
            DataType::Mapping(field, _) if i == 0 => Some(field.data_type),
            DataType::Struct(fields) if 0 <= i < fields@.len() => Some(fields@[i].data_type),
            DataType::Union(fields, _, _) if 0 <= i < fields@.len() => Some(fields@[i].data_type),
            _ => None,
        }
    }

    /// The type of the values of a dictionary
    pub open spec fn dictionary_values(self) -> DataType {
        match self.logical() {
            DataType::Dictionary(_, values, _) => *values,
            _ => arbitrary(),
        }
    }

    /// The type of the `i`-th child of an array of this type
    pub fn child_type(&self, i: usize) -> (r: Option<&DataType>)
        ensures
            match r {
                Some(t) => self.child(i as int) == Some(*t),
                None => self.child(i as int) is None,
            },
    {
        match self.to_logical_type() {
            DataType::List(field) if i == 0 => Some(&field.data_type),
            DataType::FixedSizeList(field, _) if i == 0 => Some(&field.data_type),
            DataType::LargeList(field) if i == 0 => Some(&field.data_type),
            DataType::Mapping(field, _) if i == 0 => Some(&field.data_type),
            DataType::Struct(fields) if i < fields.len() => Some(&fields[i].data_type),
            DataType::Union(fields, _, _) if i < fields.len() => Some(&fields[i].data_type),
            _ => None,
        }
    }

    /// The number of fields of a struct or a union
    pub fn field_count(&self) -> (r: usize)
        ensures
            r == self.fields().len(),
    {
        match self.to_logical_type() {
            DataType::Struct(fields) => fields.len(),
            DataType::Union(fields, _, _) => fields.len(),
            _ => 0,
        }
    }

    /// Whether this is a union with a buffer of offsets
    pub fn has_union_offsets(&self) -> (r: bool)
        ensures
            r == self.is_dense(),
    {
        match self.to_logical_type() {
            DataType::Union(_, _, UnionMode::Dense) => true,
            _ => false,
        }
    }

    /// The type that this type is stored as.
    pub fn to_logical_type(&self) -> (r: &DataType)
        ensures
            *r == self.logical(),
            !(r is Extension),
        decreases self,
    {
        match self {
            DataType::Extension(_, inner, _) => inner.to_logical_type(),
            _ => self,
        }
    }

    /// The layout of arrays of this type.
    pub fn to_physical_type(&self) -> (r: PhysicalType)
        ensures
            r == self.physical(),
        decreases self,
    {
        match self {
            DataType::Null => PhysicalType::Null,
            DataType::Boolean => PhysicalType::Boolean,
            DataType::Int8 => PhysicalType::Primitive(PrimitiveType::Int8),
            DataType::Int16 => PhysicalType::Primitive(PrimitiveType::Int16),
            DataType::Int32 | DataType::Date32 | DataType::Time32(_) | DataType::Interval(
                IntervalUnit::YearMonth,
            ) => PhysicalType::Primitive(PrimitiveType::Int32),
            DataType::Int64 | DataType::Date64 | DataType::Timestamp(_, _) | DataType::Time64(_)
            | DataType::Duration(_) => PhysicalType::Primitive(PrimitiveType::Int64),
            DataType::Decimal(_, _) => PhysicalType::Primitive(PrimitiveType::Int128),
            DataType::UInt8 => PhysicalType::Primitive(PrimitiveType::UInt8),
            DataType::UInt16 => PhysicalType::Primitive(PrimitiveType::UInt16),
            DataType::UInt32 => PhysicalType::Primitive(PrimitiveType::UInt32),
            DataType::UInt64 => PhysicalType::Primitive(PrimitiveType::UInt64),
            DataType::Float16 => PhysicalType::Primitive(PrimitiveType::Float16),
            DataType::Float32 => PhysicalType::Primitive(PrimitiveType::Float32),
            DataType::Float64 => PhysicalType::Primitive(PrimitiveType::Float64),
            DataType::Interval(IntervalUnit::DayTime) => PhysicalType::Primitive(
                PrimitiveType::DaysMs,
            ),
            DataType::Interval(IntervalUnit::MonthDayNano) => PhysicalType::Primitive(
                PrimitiveType::MonthDayNano,
            ),
            DataType::Binary => PhysicalType::Binary,
            DataType::FixedSizeBinary(_) => PhysicalType::FixedSizeBinary,
            DataType::LargeBinary => PhysicalType::LargeBinary,
            DataType::Utf8 => PhysicalType::Utf8,
            DataType::LargeUtf8 => PhysicalType::LargeUtf8,
            DataType::List(_) => PhysicalType::List,
            DataType::FixedSizeList(_, _) => PhysicalType::FixedSizeList,
            DataType::LargeList(_) => PhysicalType::LargeList,
            DataType::Struct(_) => PhysicalType::Struct,
            DataType::Union(_, _, _) => PhysicalType::Union,
            DataType::Mapping(_, _) => PhysicalType::Mapping,
            DataType::Dictionary(key, _, _) => PhysicalType::Dictionary(*key),
            DataType::Extension(_, inner, _) => inner.to_physical_type(),
        }
    }
}

/// What a type is stored as is no extension.
pub proof fn lemma_logical_is_no_extension(data_type: &DataType)
    ensures
        !(data_type.logical() is Extension),
    decreases data_type,
{
    if let DataType::Extension(_, inner, _) = data_type {
        lemma_logical_is_no_extension(&**inner);
    }
}

/// `Arc::clone`: another handle on the same value.
#[verifier::external_body]
pub(crate) fn share<T>(shared: &Arc<T>) -> (r: Arc<T>)
    ensures
        r == *shared,
{
    Arc::clone(shared)
}

fn clone_text(text: &Option<String>) -> (r: Option<String>)
    ensures
        r == *text,
{
    match text {
        Some(t) => Some(t.clone()),
        None => None,
    }
}

impl Clone for DataType {
    fn clone(&self) -> (r: Self)
        ensures
            r == *self,
    {
        match self {
            DataType::Null => DataType::Null,
            DataType::Boolean => DataType::Boolean,
            DataType::Int8 => DataType::Int8,
            DataType::Int16 => DataType::Int16,
            DataType::Int32 => DataType::Int32,
            DataType::Int64 => DataType::Int64,
            DataType::UInt8 => DataType::UInt8,
            DataType::UInt16 => DataType::UInt16,
            DataType::UInt32 => DataType::UInt32,
            DataType::UInt64 => DataType::UInt64,
            DataType::Float16 => DataType::Float16,
            DataType::Float32 => DataType::Float32,
            DataType::Float64 => DataType::Float64,
            DataType::Timestamp(unit, zone) => DataType::Timestamp(*unit, clone_text(zone)),
            DataType::Date32 => DataType::Date32,
            DataType::Date64 => DataType::Date64,
            DataType::Time32(unit) => DataType::Time32(*unit),
            DataType::Time64(unit) => DataType::Time64(*unit),
            DataType::Duration(unit) => DataType::Duration(*unit),
            DataType::Interval(unit) => DataType::Interval(*unit),
            DataType::Binary => DataType::Binary,
            DataType::FixedSizeBinary(size) => DataType::FixedSizeBinary(*size),
            DataType::LargeBinary => DataType::LargeBinary,
            DataType::Utf8 => DataType::Utf8,
            DataType::LargeUtf8 => DataType::LargeUtf8,
            DataType::List(field) => DataType::List(share(field)),
            DataType::FixedSizeList(field, size) => DataType::FixedSizeList(share(field), *size),
            DataType::LargeList(field) => DataType::LargeList(share(field)),
            DataType::Struct(fields) => DataType::Struct(share(fields)),
            DataType::Union(fields, ids, mode) => {
                let ids = match ids {
                    Some(i) => Some(share(i)),
                    None => None,
                };
                DataType::Union(share(fields), ids, *mode)
            },
            DataType::Mapping(field, sorted) => DataType::Mapping(share(field), *sorted),
            DataType::Dictionary(key, values, sorted) => DataType::Dictionary(
                *key,
                share(values),
                *sorted,
            ),
            DataType::Decimal(precision, scale) => DataType::Decimal(*precision, *scale),
            DataType::Extension(name, inner, metadata) => DataType::Extension(
                name.clone(),
                share(inner),
                clone_text(metadata),
            ),
        }
    }
}

/// How the slots of each type are laid out. An extension is laid out as what it is stored
/// as, however deep that lies.
pub proof fn law_layouts(data_type: DataType)
    ensures
        match data_type {
            DataType::Null => data_type.physical() == PhysicalType::Null,
            DataType::Boolean => data_type.physical() == PhysicalType::Boolean,
            DataType::Int8 => data_type.physical() == PhysicalType::Primitive(PrimitiveType::Int8),
            DataType::Int16 => data_type.physical() == PhysicalType::Primitive(PrimitiveType::Int16),
            DataType::Int32 => data_type.physical() == PhysicalType::Primitive(PrimitiveType::Int32),
            DataType::Int64 => data_type.physical() == PhysicalType::Primitive(PrimitiveType::Int64),
            DataType::UInt8 => data_type.physical() == PhysicalType::Primitive(PrimitiveType::UInt8),
            DataType::UInt16 => data_type.physical() == PhysicalType::Primitive(PrimitiveType::UInt16),
            DataType::UInt32 => data_type.physical() == PhysicalType::Primitive(PrimitiveType::UInt32),
            DataType::UInt64 => data_type.physical() == PhysicalType::Primitive(PrimitiveType::UInt64),
            DataType::Float16 => data_type.physical() == PhysicalType::Primitive(PrimitiveType::Float16),
            DataType::Float32 => data_type.physical() == PhysicalType::Primitive(PrimitiveType::Float32),
            DataType::Float64 => data_type.physical() == PhysicalType::Primitive(PrimitiveType::Float64),
            DataType::Timestamp(_, _) => data_type.physical() == PhysicalType::Primitive(PrimitiveType::Int64),
            DataType::Date32 => data_type.physical() == PhysicalType::Primitive(PrimitiveType::Int32),
            DataType::Date64 => data_type.physical() == PhysicalType::Primitive(PrimitiveType::Int64),
            DataType::Time32(_) => data_type.physical() == PhysicalType::Primitive(PrimitiveType::Int32),
            DataType::Time64(_) => data_type.physical() == PhysicalType::Primitive(PrimitiveType::Int64),
            DataType::Duration(_) => data_type.physical() == PhysicalType::Primitive(PrimitiveType::Int64),
            DataType::Interval(IntervalUnit::YearMonth) => data_type.physical() == PhysicalType::Primitive(PrimitiveType::Int32),
            DataType::Interval(IntervalUnit::DayTime) => data_type.physical() == PhysicalType::Primitive(PrimitiveType::DaysMs),
            DataType::Interval(IntervalUnit::MonthDayNano) => data_type.physical() == PhysicalType::Primitive(PrimitiveType::MonthDayNano),
            DataType::Decimal(_, _) => data_type.physical() == PhysicalType::Primitive(PrimitiveType::Int128),
            DataType::Binary => data_type.physical() == PhysicalType::Binary,
            DataType::FixedSizeBinary(_) => data_type.physical() == PhysicalType::FixedSizeBinary,
            DataType::LargeBinary => data_type.physical() == PhysicalType::LargeBinary,
            DataType::Utf8 => data_type.physical() == PhysicalType::Utf8,
            DataType::LargeUtf8 => data_type.physical() == PhysicalType::LargeUtf8,
            DataType::List(_) => data_type.physical() == PhysicalType::List,
            DataType::FixedSizeList(_, _) => data_type.physical() == PhysicalType::FixedSizeList,
            DataType::LargeList(_) => data_type.physical() == PhysicalType::LargeList,
            DataType::Struct(_) => data_type.physical() == PhysicalType::Struct,
            DataType::Union(_, _, _) => data_type.physical() == PhysicalType::Union,
            DataType::Mapping(_, _) => data_type.physical() == PhysicalType::Mapping,
            DataType::Dictionary(key, _, _) => data_type.physical() == PhysicalType::Dictionary(key),
            DataType::Extension(_, inner, _) => data_type.physical() == inner.physical(),
        },
{
}

/// The keys of a dictionary are stored as the integers that they are.
pub proof fn law_key_types(key: IntegerType)
    ensures
        match key {
            IntegerType::Int8 => key.primitive() == PrimitiveType::Int8,
            IntegerType::Int16 => key.primitive() == PrimitiveType::Int16,
            IntegerType::Int32 => key.primitive() == PrimitiveType::Int32,
            IntegerType::Int64 => key.primitive() == PrimitiveType::Int64,
            IntegerType::UInt8 => key.primitive() == PrimitiveType::UInt8,
            IntegerType::UInt16 => key.primitive() == PrimitiveType::UInt16,
            IntegerType::UInt32 => key.primitive() == PrimitiveType::UInt32,
            IntegerType::UInt64 => key.primitive() == PrimitiveType::UInt64,
        },
{
}

/// The types of the children of each type: the items of a list, the entries of a map, and
/// the fields of a struct or a union, in order.
pub proof fn law_child_types(data_type: DataType, i: int)
    ensures
        match data_type {
            DataType::List(field) => data_type.child(i) == if i == 0 {
                Some(field.data_type)
            } else {
                None
            },
            DataType::LargeList(field) => data_type.child(i) == if i == 0 {
                Some(field.data_type)
            } else {
                None
            },
            DataType::FixedSizeList(field, size) => data_type.fixed_size() == size
                && data_type.child(i) == if i == 0 {
                Some(field.data_type)
            } else {
                None
            },
            DataType::Mapping(field, _) => data_type.child(i) == if i == 0 {
                Some(field.data_type)
            } else {
                None
            },
            DataType::Struct(fields) => {
                &&& data_type.fields() == fields@
                &&& data_type.child(i) == if 0 <= i < fields@.len() {
                    Some(fields@[i].data_type)
                } else {
                    None
                }
            },
            DataType::Union(fields, _, mode) => {
                &&& data_type.fields() == fields@
                &&& data_type.is_dense() <==> mode is Dense
                &&& data_type.child(i) == if 0 <= i < fields@.len() {
                    Some(fields@[i].data_type)
                } else {
                    None
                }
            },
            DataType::Dictionary(_, values, _) => data_type.child(i) is None
                && data_type.dictionary_values() == *values,
            DataType::FixedSizeBinary(size) => data_type.child(i) is None && data_type.fixed_size()
                == size,
            DataType::Extension(_, inner, _) => {
                &&& data_type.child(i) == inner.child(i)
                &&& data_type.fields() == inner.fields()
                &&& data_type.is_dense() == inner.is_dense()
                &&& data_type.fixed_size() == inner.fixed_size()
                &&& data_type.dictionary_values() == inner.dictionary_values()
            },
            _ => data_type.child(i) is None && data_type.fields().len() == 0
                && !data_type.is_dense(),
        },
{
}

} // verus!
