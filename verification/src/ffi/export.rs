//! From arrays to the C data interface, and back.
use vstd::prelude::*;

use crate::array::{
    offset_buffers_children_dictionary, Array, ArrayModel, PrimitiveModel, PrimitiveValues, Values,
    ValuesModel,
};
use crate::bitmap::Bitmap;
use crate::buffer::Buffer;
use crate::datatypes::DataType;
use crate::ffi::array::ArrowArray;
use crate::types::{DaysMs, MonthsDaysNs, NativeType};

verus! {

/// Whether `c` describes `array` on the C data interface, children and dictionary
/// included.
pub open spec fn is_export(array: Array, c: ArrowArray) -> bool
    decreases array,
{
    &&& c.length == array.length
    &&& c.null_count == array.spec_null_count()
    &&& c.offset == array.offset
    &&& c.release
    &&& c.buffers matches Some(buffers) && c.n_buffers == buffers@.len() && array.in_regions(
        buffers@,
    )
    &&& c.children matches Some(children) && c.n_children == children@.len()
        == array.children().len()
    &&& match array.values {
        Values::List(_, items) => c.children->0@[0] matches Some(x) && is_export(*items, *x),
        Values::LargeList(_, items) => c.children->0@[0] matches Some(x) && is_export(*items, *x),
        Values::FixedSizeList(items) => c.children->0@[0] matches Some(x) && is_export(*items, *x),
        Values::Mapping(_, entries) => c.children->0@[0] matches Some(x) && is_export(
            *entries,
            *x,
        ),
        Values::Struct(fields) => forall|i: int|
            0 <= i < fields@.len() ==> (#[trigger] c.children->0@[i] matches Some(x) && is_export(
                fields@[i],
                *x,
            )),
        Values::Union(_, _, fields) => forall|i: int|
            0 <= i < fields@.len() ==> (#[trigger] c.children->0@[i] matches Some(x) && is_export(
                fields@[i],
                *x,
            )),
        _ => true,
    }
    &&& match array.values {
        Values::Dictionary(_, values) => c.dictionary matches Some(x) && is_export(*values, *x),
        _ => c.dictionary is None,
    }
}

impl ArrowArray {
    /// Creates a new [`ArrowArray`] from existing data.
    ///
    /// Whoever takes it over releases it once.
    pub fn new(array: Box<Array>) -> (r: Self)
        requires
            array.wf(),
        ensures
            is_export(*array, r),
            r.length == array.length,
            r.offset == array.offset,
            r.null_count == if array.values is Null {
                array.length as nat
            } else {
                match array.validity {
                    Some(bits) => crate::bitmap::count_unset(bits@),
                    None => 0,
                }
            },
    {
        export(&array, Ghost(array.data_type))
    }
}

fn export(array: &Array, Ghost(data_type): Ghost<DataType>) -> (r: ArrowArray)
    requires
        array.laid_out_as(data_type),
        array.in_range(),
    ensures
        is_export(*array, r),
    decreases array,
{
    let (offset, buffers, children, dictionary) = offset_buffers_children_dictionary(array);
    let n_buffers = buffers.len() as i64;
    let mut pointers: Vec<Option<Box<ArrowArray>>> = Vec::new();
    let mut i: usize = 0;
    while i < children.len()
        invariant
            array.laid_out_as(data_type),
            array.in_range(),
            i <= children@.len(),
            children@.len() == array.children().len(),
            forall|k: int|
                0 <= k < children@.len() ==> *(#[trigger] children@[k]) == array.children()[k],
            pointers@.len() == i,
            forall|k: int|
                0 <= k < i ==> (#[trigger] pointers@[k] matches Some(x) && is_export(
                    array.children()[k],
                    *x,
                )),
        decreases children@.len() - i,
    {
        let child = children[i];
        assert(child == array.children()[i as int]);
        pointers.push(Some(Box::new(export(child, Ghost(data_type.child(i as int)->0)))));
        i = i + 1;
    }
    let n_children = pointers.len() as i64;
    let dictionary = match dictionary {
        Some(values) => Some(Box::new(export(values, Ghost(data_type.dictionary_values())))),
        None => None,
    };
    proof {
        if let Some(bits) = &array.validity {
            crate::bitmap::lemma_count_unset_bound(bits@);
        }
    }
    let length = array.len() as i64;
    let null_count = array.null_count() as i64;
    ArrowArray {
        length,
        null_count,
        offset: offset as i64,
        n_buffers,
        n_children,
        buffers: Some(buffers),
        children: Some(pointers),
        dictionary,
        release: true,
    }
}

/// What the C data interface keeps of an array: a validity that says that all
/// slots are valid is as good as none, and bytes after those of the last slot do
/// not belong to the array.
pub open spec fn canonical(array: ArrayModel) -> ArrayModel
    decreases array,
{
    ArrayModel {
        validity: match array.validity {
            Some(bits) => if crate::bitmap::count_unset(bits) > 0 {
                Some(bits)
            } else {
                None
            },
            None => None,
        },
        values: canonical_values(array.values),
        ..array
    }
}

/// What the C data interface keeps of the values of an array.
pub open spec fn canonical_values(values: ValuesModel) -> ValuesModel
    decreases values,
{
    match values {
        ValuesModel::Utf8(offsets, bytes) => ValuesModel::Utf8(
            offsets,
            bytes.subrange(0, offsets.last() as int),
        ),
        ValuesModel::LargeUtf8(offsets, bytes) => ValuesModel::LargeUtf8(
            offsets,
            bytes.subrange(0, offsets.last() as int),
        ),
        ValuesModel::Binary(offsets, bytes) => ValuesModel::Binary(
            offsets,
            bytes.subrange(0, offsets.last() as int),
        ),
        ValuesModel::LargeBinary(offsets, bytes) => ValuesModel::LargeBinary(
            offsets,
            bytes.subrange(0, offsets.last() as int),
        ),
        ValuesModel::List(offsets, items) => ValuesModel::List(
            offsets,
            Box::new(canonical(*items)),
        ),
        ValuesModel::LargeList(offsets, items) => ValuesModel::LargeList(
            offsets,
            Box::new(canonical(*items)),
        ),
        ValuesModel::Mapping(offsets, items) => ValuesModel::Mapping(
            offsets,
            Box::new(canonical(*items)),
        ),
        ValuesModel::FixedSizeList(items) => ValuesModel::FixedSizeList(
            Box::new(canonical(*items)),
        ),
        ValuesModel::Struct(fields) => ValuesModel::Struct(
            Seq::new(
                fields.len(),
                |i: int|
                    if 0 <= i < fields.len() {
                        canonical(fields[i])
                    } else {
                        arbitrary()
                    },
            ),
        ),
        ValuesModel::Dictionary(keys, items) => ValuesModel::Dictionary(
            keys,
            Box::new(canonical(*items)),
        ),
        ValuesModel::Union(types, offsets, fields) => ValuesModel::Union(
            types,
            offsets,
            Seq::new(
                fields.len(),
                |i: int|
                    if 0 <= i < fields.len() {
                        canonical(fields[i])
                    } else {
                        arbitrary()
                    },
            ),
        ),
        other => other,
    }
}

/// Whether the slots of the array, and of those that it is made of, can be counted in
/// memory, and so can the bits that they are read with.
pub open spec fn countable(array: Array) -> bool
    decreases array,
{
    let end = array.offset + array.length;
    &&& end <= usize::MAX
    &&& array.values is Boolean || (array.validity matches Some(bits)
        && crate::bitmap::count_unset(bits@) > 0) ==> end + 7 <= usize::MAX
    &&& match array.values {
        Values::Dictionary(_, values) => countable(*values),
        Values::List(_, items) => countable(*items),
        Values::LargeList(_, items) => countable(*items),
        Values::FixedSizeList(items) => countable(*items),
        Values::Mapping(_, entries) => countable(*entries),
        Values::Struct(fields) => forall|i: int|
            0 <= i < fields@.len() ==> countable(#[trigger] fields@[i]),
        Values::Union(_, _, fields) => forall|i: int|
            0 <= i < fields@.len() ==> countable(#[trigger] fields@[i]),
        _ => true,
    }
}

proof fn lemma_buffer<T: NativeType>(c: ArrowArray, data_type: DataType, i: int, b: Buffer<T>)
    requires
        c.has_buffer(i),
        crate::array::region_is::<T>(c.region(i), b.data),
        crate::ffi::array::len_defined(c, data_type, i),
        b.aligned(
            crate::ffi::array::spec_buffer_offset(c, data_type, i),
            crate::ffi::array::spec_buffer_len(c, data_type, i)
                - crate::ffi::array::spec_buffer_offset(c, data_type, i),
        ),
    ensures
        crate::ffi::import::buffer_values::<T>(c, data_type, i) == Ok::<Seq<T>, Seq<char>>(b@),
{
}

proof fn lemma_bytes(c: ArrowArray, data_type: DataType, values: Buffer<u8>, last: int)
    requires
        c.has_buffer(2),
        crate::array::region_is::<u8>(c.region(2), values.data),
        crate::ffi::array::len_defined(c, data_type, 2),
        crate::ffi::array::spec_buffer_offset(c, data_type, 2) == 0,
        crate::ffi::array::spec_buffer_len(c, data_type, 2) == last,
        values.wf(),
        values.offset == 0,
        0 <= last <= values.length,
    ensures
        crate::ffi::import::buffer_values::<u8>(c, data_type, 2) == Ok::<Seq<u8>, Seq<char>>(
            values@.subrange(0, last),
        ),
{
    let own = Buffer { data: values.data, offset: 0, length: last as usize };
    lemma_buffer::<u8>(c, data_type, 2, own);
    assert(own@ =~= values@.subrange(0, last));
}

proof fn lemma_bitmap(c: ArrowArray, i: int, b: Bitmap)
    requires
        c.has_buffer(i),
        crate::array::region_is::<u8>(c.region(i), b.bytes),
        0 <= c.offset,
        0 <= c.length,
        c.offset + c.length + 7 <= usize::MAX,
        b.aligned(c.offset as int, c.length as int),
    ensures
        crate::ffi::import::bitmap_values(c, i) == Ok::<Seq<bool>, Seq<char>>(b@),
{
}

proof fn lemma_primitive(c: ArrowArray, data_type: DataType, values: PrimitiveValues)
    requires
        c.has_buffer(1),
        values.in_region(c.region(1)),
        0 <= c.offset,
        0 <= c.length,
        c.offset + c.length <= usize::MAX,
        data_type.physical() is Primitive || data_type.physical() is Dictionary,
        values.aligned(c.offset as int, c.length as int),
    ensures
        crate::ffi::import::primitive_values(c, data_type, values.kind()) == Ok::<
            PrimitiveModel,
            Seq<char>,
        >(values.model()),
{
    match values {
        PrimitiveValues::Int8(b) => lemma_buffer::<i8>(c, data_type, 1, b),
        PrimitiveValues::Int16(b) => lemma_buffer::<i16>(c, data_type, 1, b),
        PrimitiveValues::Int32(b) => lemma_buffer::<i32>(c, data_type, 1, b),
        PrimitiveValues::Int64(b) => lemma_buffer::<i64>(c, data_type, 1, b),
        PrimitiveValues::Int128(b) => lemma_buffer::<i128>(c, data_type, 1, b),
        PrimitiveValues::UInt8(b) => lemma_buffer::<u8>(c, data_type, 1, b),
        PrimitiveValues::UInt16(b) => lemma_buffer::<u16>(c, data_type, 1, b),
        PrimitiveValues::UInt32(b) => lemma_buffer::<u32>(c, data_type, 1, b),
        PrimitiveValues::UInt64(b) => lemma_buffer::<u64>(c, data_type, 1, b),
        PrimitiveValues::Float16(b) => lemma_buffer::<u16>(c, data_type, 1, b),
        PrimitiveValues::Float32(b) => lemma_buffer::<u32>(c, data_type, 1, b),
        PrimitiveValues::Float64(b) => lemma_buffer::<u64>(c, data_type, 1, b),
        PrimitiveValues::DaysMs(b) => lemma_buffer::<DaysMs>(c, data_type, 1, b),
        PrimitiveValues::MonthDayNano(b) => lemma_buffer::<MonthsDaysNs>(c, data_type, 1, b),
    }
}

proof fn lemma_children(array: Array, c: ArrowArray, fields: Seq<Array>, n: nat)
    requires
        n <= fields.len(),
        c.children is Some,
        fields.len() == c.children->0@.len() == c.n_children <= usize::MAX,
        forall|i: int|
            0 <= i < fields.len() ==> (#[trigger] c.children->0@[i] matches Some(x)
                && array.data_type.child(i) is Some && crate::ffi::import::import(
                *x,
                array.data_type.child(i)->0,
            ) == Ok::<ArrayModel, Seq<char>>(canonical(fields[i].model()))),
    ensures
        crate::ffi::import::import_children(c, array.data_type, n) == Ok::<Seq<ArrayModel>, Seq<char>>(
            Seq::new(n, |i: int| canonical(fields[i].model())),
        ),
    decreases n,
{
    if n > 0 {
        lemma_children(array, c, fields, (n - 1) as nat);
        let x = c.children->0@[n - 1];
        assert(crate::ffi::import::import_child(c, array.data_type, n - 1) == Ok::<ArrayModel, Seq<char>>(
            canonical(fields[n - 1].model()),
        ));
        assert(Seq::new((n - 1) as nat, |i: int| canonical(fields[i].model())).push(
            canonical(fields[n - 1].model()),
        ) =~= Seq::new(n, |i: int| canonical(fields[i].model())));
    } else {
        assert(Seq::<ArrayModel>::empty() =~= Seq::new(
            0,
            |i: int| canonical(fields[i].model()),
        ));
    }
}

/// An array that was moved to the C data interface and read back from it with its
/// type is the same array, in its canonical form. Its parts have the types that its type
/// says, and its slots can be counted in memory.
pub proof fn law_import_of_export(array: Array, c: ArrowArray)
    requires
        array.wf(),
        array.typed(),
        countable(array),
        is_export(array, c),
    ensures
        crate::ffi::import::import(c, array.data_type) == Ok::<ArrayModel, Seq<char>>(
            canonical(array.model()),
        ),
    decreases array, 1nat,
{
    assert(crate::ffi::import::import_validity(c, array.data_type) == Ok::<Option<Seq<bool>>, Seq<char>>(
        canonical(array.model()).validity,
    )) by {
        if let Some(bits) = array.validity {
            crate::bitmap::lemma_count_unset_bound(bits@);
            if crate::bitmap::count_unset(bits@) > 0 {
                lemma_bitmap(c, 0, bits);
            }
        }
    }
    lemma_values(array, c);
}

proof fn lemma_values(array: Array, c: ArrowArray)
    requires
        array.wf(),
        array.typed(),
        countable(array),
        is_export(array, c),
    ensures
        crate::ffi::import::import_values(c, array.data_type) == Ok::<ValuesModel, Seq<char>>(
            canonical_values(array.values.model()),
        ),
    decreases array, 0nat,
{
    let t = array.data_type;
    let n = array.length as int;
    match array.values {
        Values::Null => {},
        Values::Boolean(bits) => {
            lemma_bitmap(c, 1, bits);
        },
        Values::Primitive(values) => {
            lemma_primitive(c, t, values);
        },
        Values::Utf8(offsets, values) => {
            assert((*offsets.data).len() == offsets.data@.len());
            lemma_buffer::<i32>(c, t, 1, offsets);
            assert(crate::ffi::array::last_offset::<i32>(c) == offsets@[n]);
            lemma_bytes(c, t, values, offsets@[n] as int);
        },
        Values::LargeUtf8(offsets, values) => {
            assert((*offsets.data).len() == offsets.data@.len());
            lemma_buffer::<i64>(c, t, 1, offsets);
            assert(crate::ffi::array::last_offset::<i64>(c) == offsets@[n]);
            lemma_bytes(c, t, values, offsets@[n] as int);
        },
        Values::Binary(offsets, values) => {
            assert((*offsets.data).len() == offsets.data@.len());
            lemma_buffer::<i32>(c, t, 1, offsets);
            assert(crate::ffi::array::last_offset::<i32>(c) == offsets@[n]);
            lemma_bytes(c, t, values, offsets@[n] as int);
        },
        Values::LargeBinary(offsets, values) => {
            assert((*offsets.data).len() == offsets.data@.len());
            lemma_buffer::<i64>(c, t, 1, offsets);
            assert(crate::ffi::array::last_offset::<i64>(c) == offsets@[n]);
            lemma_bytes(c, t, values, offsets@[n] as int);
        },
        Values::FixedSizeBinary(values) => {
            let size = t.fixed_size();
            let from = array.offset as int;
            assert(size * from + size * n == size * (from + n)) by (nonlinear_arith);
            assert(size * from == from * size) by (nonlinear_arith);
            assert((*values.data).len() == values.data@.len());
            lemma_buffer::<u8>(c, t, 1, values);
        },
        Values::List(offsets, items) => {
            assert((*offsets.data).len() == offsets.data@.len());
            lemma_buffer::<i32>(c, t, 1, offsets);
            law_import_of_export(*items, *c.children->0@[0]->0);
        },
        Values::LargeList(offsets, items) => {
            assert((*offsets.data).len() == offsets.data@.len());
            lemma_buffer::<i64>(c, t, 1, offsets);
            law_import_of_export(*items, *c.children->0@[0]->0);
        },
        Values::Mapping(offsets, entries) => {
            assert((*offsets.data).len() == offsets.data@.len());
            lemma_buffer::<i32>(c, t, 1, offsets);
            law_import_of_export(*entries, *c.children->0@[0]->0);
        },
        Values::FixedSizeList(items) => {
            law_import_of_export(*items, *c.children->0@[0]->0);
        },
        Values::Struct(fields) => {
            assert forall|i: int| 0 <= i < fields@.len() implies (#[trigger] c.children->0@[i]
                matches Some(x) && t.child(i) is Some && crate::ffi::import::import(
                *x,
                t.child(i)->0,
            ) == Ok::<ArrayModel, Seq<char>>(canonical(fields@[i].model()))) by {
                law_import_of_export(fields@[i], *c.children->0@[i]->0);
            }
            assert(fields.len() == fields@.len());
            lemma_children(array, c, fields@, fields@.len());
            assert(canonical_values(array.values.model())->Struct_0 =~= Seq::new(
                fields@.len(),
                |i: int| canonical(fields@[i].model()),
            ));
        },
        Values::Dictionary(keys, values) => {
            lemma_primitive(c, t, keys);
            law_import_of_export(*values, *c.dictionary->0);
        },
        Values::Union(types, offsets, fields) => {
            lemma_buffer::<i8>(c, t, 0, types);
            if let Some(o) = offsets {
                lemma_buffer::<i32>(c, t, 1, o);
            }
            assert forall|i: int| 0 <= i < fields@.len() implies (#[trigger] c.children->0@[i]
                matches Some(x) && t.child(i) is Some && crate::ffi::import::import(
                *x,
                t.child(i)->0,
            ) == Ok::<ArrayModel, Seq<char>>(canonical(fields@[i].model()))) by {
                law_import_of_export(fields@[i], *c.children->0@[i]->0);
            }
            assert(fields.len() == fields@.len());
            lemma_children(array, c, fields@, fields@.len());
            assert(canonical_values(array.values.model())->Union_2 =~= Seq::new(
                fields@.len(),
                |i: int| canonical(fields@[i].model()),
            ));
        },
    }
}

} // verus!
