//! Arrays on the C data interface.
use std::sync::Arc;

use arrow_interop::array::{
    offset_buffers_children_dictionary, Array, PrimitiveValues, Values,
};
use arrow_interop::bitmap::Bitmap;
use arrow_interop::buffer::{buffer_from_vec, Buffer};
use arrow_interop::datatypes::{
    DataType, Field, IntegerType, IntervalUnit, PhysicalType, PrimitiveType, TimeUnit, UnionMode,
};
use arrow_interop::error::Error;
use arrow_interop::ffi::array::{
    buffer_len, buffer_offset, c_release_array, create_bitmap, create_buffer, create_child,
    create_dictionary, ArrowArray, ArrowArrayRef, InternalArrowArray,
};
use arrow_interop::ffi::import::{slots_of, try_from, Slots};
use arrow_interop::ffi::schema::get_child;
use arrow_interop::types::{DaysMs, MonthsDaysNs, Region};

fn slice<T>(values: Vec<T>, offset: usize, length: usize) -> Buffer<T> {
    buffer_from_vec(values).slice(offset, length)
}

fn bits(bytes: Vec<u8>, offset: usize, length: usize) -> Bitmap {
    let all = bytes.len() * 8;
    Bitmap::try_new(bytes, all).unwrap().slice(offset, length)
}

fn items<T: Clone>(buffer: &Buffer<T>) -> Vec<T> {
    (0..buffer.len()).map(|i| buffer.get(i).clone()).collect()
}

fn flags(bitmap: &Bitmap) -> Vec<bool> {
    (0..bitmap.len()).map(|i| bitmap.get_bit(i)).collect()
}

fn field(name: &str, data_type: DataType) -> Field {
    Field { name: name.to_owned(), data_type, is_nullable: true }
}

fn whole(data_type: DataType, length: usize, values: Values) -> Array {
    Array { data_type, offset: 0, length, validity: None, values }
}

fn int32s(values: Vec<i32>) -> Array {
    let length = values.len();
    whole(DataType::Int32, length, Values::Primitive(PrimitiveValues::Int32(buffer_from_vec(values))))
}

fn through(array: Array) -> Array {
    let data_type = array.data_type.clone();
    let exported = ArrowArray::new(Box::new(array));
    *try_from(Box::new(InternalArrowArray::new(exported, data_type))).unwrap()
}

fn refused(array: ArrowArray, data_type: DataType) -> String {
    match try_from(Box::new(InternalArrowArray::new(array, data_type))) {
        Err(Error::OutOfSpec(message)) => message,
        other => panic!("{:?}", other),
    }
}

fn as_int32s(array: &Array) -> Vec<i32> {
    match &array.values {
        Values::Primitive(PrimitiveValues::Int32(values)) => items(values),
        other => panic!("{:?}", other),
    }
}

fn described(length: i64, offset: i64, null_count: i64, buffers: Vec<Option<Region>>) -> ArrowArray {
    ArrowArray {
        length,
        null_count,
        offset,
        n_buffers: buffers.len() as i64,
        n_children: 0,
        buffers: Some(buffers),
        children: None,
        dictionary: None,
        release: false,
    }
}

#[test]
fn empty_points_to_nothing() {
    let array = ArrowArray::empty();
    assert_eq!(array.length, 0);
    assert_eq!(array.null_count, 0);
    assert_eq!(array.offset, 0);
    assert_eq!(array.n_buffers, 0);
    assert_eq!(array.n_children, 0);
    assert!(array.buffers.is_none());
    assert!(array.children.is_none());
    assert!(array.dictionary.is_none());
    assert!(!array.release);
}

#[test]
fn numbers_are_read_as_unsigned() {
    let array = described(3, 2, 1, vec![]);
    assert_eq!((array.len(), array.offset(), array.null_count()), (3, 2, 1));
    let unknown = described(3, 2, -1, vec![]);
    assert_eq!(unknown.null_count(), usize::MAX);
}

#[test]
fn exported_primitive_has_two_buffers() {
    let mut array = int32s(vec![1, 2, 3]);
    array.validity = Some(bits(vec![0b101], 0, 3));
    let exported = ArrowArray::new(Box::new(array));
    assert_eq!(exported.length, 3);
    assert_eq!(exported.null_count, 1);
    assert_eq!(exported.offset, 0);
    assert_eq!(exported.n_buffers, 2);
    assert_eq!(exported.n_children, 0);
    assert!(exported.release);
    assert!(exported.dictionary.is_none());
    let buffers = exported.buffers.as_ref().unwrap();
    assert!(matches!(&buffers[0], Some(Region::U8(bytes)) if **bytes == vec![0b101]));
    assert!(matches!(&buffers[1], Some(Region::I32(values)) if **values == vec![1, 2, 3]));
}

#[test]
fn handles_share_memory() {
    let values = buffer_from_vec(vec![1, 2, 3]);
    let shared = values.share();
    assert!(Arc::ptr_eq(&values.data, &shared.data));
    let validity = bits(vec![0xff], 1, 4);
    assert!(Arc::ptr_eq(&validity.bytes, &validity.share().bytes));
    let region = Region::I64(Arc::new(vec![5]));
    let (Region::I64(a), Region::I64(b)) = (&region, &region.share()) else { panic!() };
    assert!(Arc::ptr_eq(a, b));
    let handle = Box::new(InternalArrowArray::new(ArrowArray::empty(), DataType::Null));
    let owner = handle.owner();
    assert!(Arc::ptr_eq(&handle.array, &owner.array));
    assert!(Arc::ptr_eq(&handle.data_type, &owner.data_type));
}

#[test]
fn export_and_import_keep_primitives() {
    let array = through(int32s(vec![1, -2, i32::MAX]));
    assert_eq!(as_int32s(&array), vec![1, -2, i32::MAX]);
    assert_eq!((array.offset, array.length), (0, 3));
    assert!(array.validity.is_none());
    assert!(matches!(array.data_type, DataType::Int32));
}

#[test]
fn export_and_import_keep_offset_and_validity() {
    let array = through(Array {
        data_type: DataType::Int32,
        offset: 2,
        length: 3,
        validity: Some(bits(vec![0b0001_0100], 2, 3)),
        values: Values::Primitive(PrimitiveValues::Int32(slice(vec![9, 9, 1, 2, 3, 9], 2, 3))),
    });
    assert_eq!((array.offset, array.length), (2, 3));
    assert_eq!(as_int32s(&array), vec![1, 2, 3]);
    assert_eq!(flags(array.validity.as_ref().unwrap()), vec![true, false, true]);
    assert_eq!(array.null_count(), 1);
    // what was read can be moved again
    assert_eq!(as_int32s(&through(array)), vec![1, 2, 3]);
}

#[test]
fn validity_without_nulls_is_dropped() {
    let mut array = int32s(vec![1, 2]);
    array.validity = Some(bits(vec![0b11], 0, 2));
    assert!(through(array).validity.is_none());
}

#[test]
fn export_and_import_keep_every_primitive_type() {
    let one = |data_type: DataType, values: PrimitiveValues| {
        match through(whole(data_type, 1, Values::Primitive(values))).values {
            Values::Primitive(values) => values,
            other => panic!("{:?}", other),
        }
    };
    let days = DaysMs { days: -1, milliseconds: 2 };
    let months = MonthsDaysNs { months: 1, days: -2, nanoseconds: 3 };
    assert!(matches!(one(DataType::Int8, PrimitiveValues::Int8(buffer_from_vec(vec![-8]))),
        PrimitiveValues::Int8(b) if items(&b) == vec![-8]));
    assert!(matches!(one(DataType::Int16, PrimitiveValues::Int16(buffer_from_vec(vec![-16]))),
        PrimitiveValues::Int16(b) if items(&b) == vec![-16]));
    assert!(matches!(one(DataType::Date32, PrimitiveValues::Int32(buffer_from_vec(vec![-32]))),
        PrimitiveValues::Int32(b) if items(&b) == vec![-32]));
    assert!(matches!(
        one(
            DataType::Timestamp(TimeUnit::Second, Some("UTC".to_owned())),
            PrimitiveValues::Int64(buffer_from_vec(vec![-64]))
        ),
        PrimitiveValues::Int64(b) if items(&b) == vec![-64]));
    assert!(matches!(
        one(DataType::Decimal(38, 2), PrimitiveValues::Int128(buffer_from_vec(vec![i128::MIN]))),
        PrimitiveValues::Int128(b) if items(&b) == vec![i128::MIN]));
    assert!(matches!(one(DataType::UInt8, PrimitiveValues::UInt8(buffer_from_vec(vec![8]))),
        PrimitiveValues::UInt8(b) if items(&b) == vec![8]));
    assert!(matches!(one(DataType::UInt16, PrimitiveValues::UInt16(buffer_from_vec(vec![16]))),
        PrimitiveValues::UInt16(b) if items(&b) == vec![16]));
    assert!(matches!(one(DataType::UInt32, PrimitiveValues::UInt32(buffer_from_vec(vec![32]))),
        PrimitiveValues::UInt32(b) if items(&b) == vec![32]));
    assert!(matches!(one(DataType::UInt64, PrimitiveValues::UInt64(buffer_from_vec(vec![64]))),
        PrimitiveValues::UInt64(b) if items(&b) == vec![64]));
    assert!(matches!(one(DataType::Float16, PrimitiveValues::Float16(buffer_from_vec(vec![0x3c00]))),
        PrimitiveValues::Float16(b) if items(&b) == vec![0x3c00]));
    assert!(matches!(
        one(DataType::Float32, PrimitiveValues::Float32(buffer_from_vec(vec![1.5f32.to_bits()]))),
        PrimitiveValues::Float32(b) if f32::from_bits(*b.get(0)) == 1.5));
    assert!(matches!(
        one(DataType::Float64, PrimitiveValues::Float64(buffer_from_vec(vec![2.5f64.to_bits()]))),
        PrimitiveValues::Float64(b) if f64::from_bits(*b.get(0)) == 2.5));
    assert!(matches!(
        one(
            DataType::Interval(IntervalUnit::DayTime),
            PrimitiveValues::DaysMs(buffer_from_vec(vec![days]))
        ),
        PrimitiveValues::DaysMs(b) if items(&b) == vec![days]));
    assert!(matches!(
        one(
            DataType::Interval(IntervalUnit::MonthDayNano),
            PrimitiveValues::MonthDayNano(buffer_from_vec(vec![months]))
        ),
        PrimitiveValues::MonthDayNano(b) if items(&b) == vec![months]));
}

#[test]
fn export_and_import_keep_nulls_and_booleans() {
    let array = through(whole(DataType::Null, 4, Values::Null));
    assert!(matches!(array.values, Values::Null));
    assert_eq!((array.length, array.null_count()), (4, 4));
    let array = through(Array {
        data_type: DataType::Boolean,
        offset: 3,
        length: 7,
        validity: None,
        values: Values::Boolean(bits(vec![0b1010_1000, 0b01], 3, 7)),
    });
    assert!(matches!(&array.values, Values::Boolean(b)
        if flags(b) == vec![true, false, true, false, true, true, false]));
}

#[test]
fn exported_null_has_one_pointer() {
    let exported = ArrowArray::new(Box::new(whole(DataType::Null, 4, Values::Null)));
    assert_eq!(exported.null_count, 4);
    assert_eq!(exported.n_buffers, 1);
    assert!(exported.buffers.unwrap()[0].is_none());
}

#[test]
fn export_and_import_keep_strings() {
    let array = through(Array {
        data_type: DataType::Utf8,
        offset: 1,
        length: 2,
        validity: None,
        values: Values::Utf8(
            slice(vec![0, 1, 3, 6, 7], 1, 3),
            buffer_from_vec(b"abbcccd".to_vec()),
        ),
    });
    let Values::Utf8(offsets, bytes) = &array.values else { panic!() };
    assert_eq!(items(offsets), vec![1, 3, 6]);
    // the bytes are read from their start up to where the last offset points
    assert_eq!(items(bytes), b"abbccc".to_vec());
    let array = through(whole(
        DataType::LargeUtf8,
        1,
        Values::LargeUtf8(buffer_from_vec(vec![0, 2]), buffer_from_vec(b"xyz".to_vec())),
    ));
    let Values::LargeUtf8(offsets, bytes) = &array.values else { panic!() };
    assert_eq!((items(offsets), items(bytes)), (vec![0, 2], b"xy".to_vec()));
    let array = through(whole(
        DataType::Binary,
        1,
        Values::Binary(buffer_from_vec(vec![0, 2]), buffer_from_vec(vec![1, 2])),
    ));
    let Values::Binary(offsets, bytes) = &array.values else { panic!() };
    assert_eq!((items(offsets), items(bytes)), (vec![0, 2], vec![1, 2]));
    let array = through(whole(
        DataType::LargeBinary,
        0,
        Values::LargeBinary(buffer_from_vec(vec![0]), buffer_from_vec(vec![])),
    ));
    let Values::LargeBinary(offsets, bytes) = &array.values else { panic!() };
    assert_eq!((items(offsets), items(bytes)), (vec![0], vec![]));
}

#[test]
fn export_and_import_keep_byte_strings_of_fixed_size() {
    let array = through(Array {
        data_type: DataType::FixedSizeBinary(2),
        offset: 1,
        length: 2,
        validity: None,
        values: Values::FixedSizeBinary(slice(vec![1, 2, 3, 4, 5, 6, 7], 2, 4)),
    });
    assert!(matches!(&array.values, Values::FixedSizeBinary(b) if items(b) == vec![3, 4, 5, 6]));
}

#[test]
fn export_and_import_keep_lists() {
    let item = || Arc::new(field("item", DataType::Int32));
    let array = through(whole(
        DataType::List(item()),
        2,
        Values::List(buffer_from_vec(vec![0, 1, 3]), Box::new(int32s(vec![1, 2, 3]))),
    ));
    let Values::List(offsets, child) = &array.values else { panic!() };
    assert_eq!((items(offsets), as_int32s(child)), (vec![0, 1, 3], vec![1, 2, 3]));
    let array = through(whole(
        DataType::LargeList(item()),
        1,
        Values::LargeList(buffer_from_vec(vec![0, 2]), Box::new(int32s(vec![1, 2]))),
    ));
    let Values::LargeList(offsets, child) = &array.values else { panic!() };
    assert_eq!((items(offsets), as_int32s(child)), (vec![0, 2], vec![1, 2]));
    let array = through(whole(
        DataType::FixedSizeList(item(), 2),
        1,
        Values::FixedSizeList(Box::new(int32s(vec![1, 2]))),
    ));
    let Values::FixedSizeList(child) = &array.values else { panic!() };
    assert_eq!(as_int32s(child), vec![1, 2]);
}

#[test]
fn export_and_import_keep_structs_and_mappings() {
    let fields = || Arc::new(vec![field("a", DataType::Int32), field("b", DataType::Null)]);
    let entries = || {
        whole(
            DataType::Struct(fields()),
            2,
            Values::Struct(vec![int32s(vec![1, 2]), whole(DataType::Null, 2, Values::Null)]),
        )
    };
    let array = through(entries());
    let Values::Struct(children) = &array.values else { panic!() };
    assert_eq!(children.len(), 2);
    assert_eq!(as_int32s(&children[0]), vec![1, 2]);
    assert!(matches!(children[1].values, Values::Null));
    let array = through(whole(
        DataType::Mapping(Arc::new(field("entries", DataType::Struct(fields()))), false),
        1,
        Values::Mapping(buffer_from_vec(vec![0, 2]), Box::new(entries())),
    ));
    let Values::Mapping(offsets, child) = &array.values else { panic!() };
    assert_eq!(items(offsets), vec![0, 2]);
    assert_eq!(child.length, 2);
}

#[test]
fn export_and_import_keep_dictionaries() {
    let array = through(whole(
        DataType::Dictionary(IntegerType::UInt8, Arc::new(DataType::Int32), false),
        3,
        Values::Dictionary(
            PrimitiveValues::UInt8(buffer_from_vec(vec![1, 0, 1])),
            Box::new(int32s(vec![10, 20])),
        ),
    ));
    let Values::Dictionary(PrimitiveValues::UInt8(keys), values) = &array.values else { panic!() };
    assert_eq!((items(keys), as_int32s(values)), (vec![1, 0, 1], vec![10, 20]));
}

#[test]
fn extension_of_a_dictionary_is_read() {
    let plain = DataType::Dictionary(IntegerType::Int8, Arc::new(DataType::Int32), false);
    let data_type = DataType::Extension("name".to_owned(), Arc::new(plain), None);
    let array = through(whole(
        data_type,
        1,
        Values::Dictionary(
            PrimitiveValues::Int8(buffer_from_vec(vec![0])),
            Box::new(int32s(vec![10])),
        ),
    ));
    let Values::Dictionary(PrimitiveValues::Int8(keys), values) = &array.values else { panic!() };
    assert_eq!((items(keys), as_int32s(values)), (vec![0], vec![10]));
    assert!(matches!(array.data_type, DataType::Extension(..)));
}

#[test]
fn arrays_as_long_as_can_be_written_are_exported() {
    let longest = i64::MAX as usize;
    let array = whole(DataType::Null, longest, Values::Null);
    assert!(array.is_well_formed());
    let exported = ArrowArray::new(Box::new(array));
    assert_eq!((exported.length, exported.null_count), (i64::MAX, i64::MAX));
    let array = through(whole(DataType::Null, longest, Values::Null));
    assert_eq!(array.length, longest);
    assert!(!whole(DataType::Null, longest + 1, Values::Null).is_well_formed());
}

#[test]
fn arrays_are_well_formed_where_their_type_says_so() {
    assert!(int32s(vec![1, 2]).is_well_formed());
    // another type, another number of slots, another place
    assert!(!Array { data_type: DataType::Int64, ..int32s(vec![1, 2]) }.is_well_formed());
    assert!(!Array { length: 1, ..int32s(vec![1, 2]) }.is_well_formed());
    assert!(!Array { offset: 1, ..int32s(vec![1, 2]) }.is_well_formed());
    let validity = Some(bits(vec![1], 0, 2));
    assert!(Array { validity, ..int32s(vec![1, 2]) }.is_well_formed());
    let validity = Some(bits(vec![1], 0, 3));
    assert!(!Array { validity, ..int32s(vec![1, 2]) }.is_well_formed());
    let validity = Some(bits(vec![1], 0, 2));
    assert!(!Array { validity, ..whole(DataType::Null, 2, Values::Null) }.is_well_formed());
    let string = |offsets: Vec<i32>, bytes: Vec<u8>| {
        let values = Values::Utf8(buffer_from_vec(offsets), buffer_from_vec(bytes));
        whole(DataType::Utf8, 1, values).is_well_formed()
    };
    assert!(string(vec![0, 2], vec![1, 2]));
    assert!(!string(vec![0, 3], vec![1, 2]));
    assert!(!string(vec![0], vec![1, 2]));
    assert!(!string(vec![0, -1], vec![1, 2]));
    let fixed = |size, length| {
        let values = Values::FixedSizeBinary(buffer_from_vec(vec![0; 6]));
        whole(DataType::FixedSizeBinary(size), length, values).is_well_formed()
    };
    assert!(fixed(2, 3) && fixed(6, 1) && !fixed(2, 2) && !fixed(usize::MAX, usize::MAX));
}

#[test]
fn nested_arrays_are_well_formed_where_their_parts_are() {
    let fields = || Arc::new(vec![field("a", DataType::Int32), field("b", DataType::Null)]);
    let null = || whole(DataType::Null, 2, Values::Null);
    let is_struct = |parts| {
        whole(DataType::Struct(fields()), 2, Values::Struct(parts)).is_well_formed()
    };
    assert!(is_struct(vec![int32s(vec![1, 2]), null()]));
    assert!(!is_struct(vec![int32s(vec![1, 2])]));
    assert!(!is_struct(vec![null(), int32s(vec![1, 2])]));
    let is_union = |mode, offsets| {
        let values = Values::Union(
            buffer_from_vec(vec![0, 1]),
            offsets,
            vec![int32s(vec![1, 2]), null()],
        );
        whole(DataType::Union(fields(), None, mode), 2, values).is_well_formed()
    };
    assert!(is_union(UnionMode::Sparse, None));
    assert!(is_union(UnionMode::Dense, Some(buffer_from_vec(vec![0, 0]))));
    assert!(!is_union(UnionMode::Dense, None));
    assert!(!is_union(UnionMode::Sparse, Some(buffer_from_vec(vec![0, 0]))));
    let is_list = |item, child| {
        let values = Values::List(buffer_from_vec(vec![0, 2]), Box::new(child));
        whole(DataType::List(Arc::new(field("item", item))), 1, values).is_well_formed()
    };
    assert!(is_list(DataType::Int32, int32s(vec![1, 2])));
    assert!(!is_list(DataType::Int8, int32s(vec![1, 2])));
    let dictionary = |key| {
        let values = Values::Dictionary(
            PrimitiveValues::Int8(buffer_from_vec(vec![0])),
            Box::new(int32s(vec![10])),
        );
        let data_type = DataType::Dictionary(key, Arc::new(DataType::Int32), false);
        whole(data_type, 1, values).is_well_formed()
    };
    assert!(dictionary(IntegerType::Int8) && !dictionary(IntegerType::Int16));
}

#[test]
fn buffers_hold_what_their_layout_says() {
    let kind = |data_type: DataType, i| slots_of(data_type.to_physical_type(), i);
    let item = || Arc::new(field("item", DataType::Null));
    assert_eq!(kind(DataType::Null, 0), None);
    assert_eq!(kind(DataType::Boolean, 0), Some(Slots::Bits));
    assert_eq!(kind(DataType::Boolean, 1), Some(Slots::Bits));
    assert_eq!(kind(DataType::Date32, 1), Some(Slots::Values(PrimitiveType::Int32)));
    assert_eq!(kind(DataType::Utf8, 1), Some(Slots::Values(PrimitiveType::Int32)));
    assert_eq!(kind(DataType::LargeUtf8, 1), Some(Slots::Values(PrimitiveType::Int64)));
    assert_eq!(kind(DataType::LargeUtf8, 2), Some(Slots::Values(PrimitiveType::UInt8)));
    assert_eq!(kind(DataType::FixedSizeBinary(3), 1), Some(Slots::Values(PrimitiveType::UInt8)));
    assert_eq!(kind(DataType::FixedSizeList(item(), 3), 1), None);
    assert_eq!(kind(DataType::LargeList(item()), 1), Some(Slots::Values(PrimitiveType::Int64)));
    let union = || DataType::Union(Arc::new(vec![]), None, UnionMode::Dense);
    assert_eq!(kind(union(), 0), Some(Slots::Values(PrimitiveType::Int8)));
    assert_eq!(kind(union(), 1), Some(Slots::Values(PrimitiveType::Int32)));
    assert_eq!(kind(DataType::Int8, 2), None);
}

#[test]
fn extension_is_read_as_what_it_is_stored_as() {
    let data_type = DataType::Extension("name".to_owned(), Arc::new(DataType::Int32), None);
    let array = through(Array { data_type, ..int32s(vec![4]) });
    assert_eq!(as_int32s(&array), vec![4]);
    assert!(matches!(array.data_type, DataType::Extension(..)));
}

#[test]
fn export_and_import_keep_unions() {
    let fields = || Arc::new(vec![field("a", DataType::Int32), field("b", DataType::Null)]);
    let children = || vec![int32s(vec![5, 6]), whole(DataType::Null, 2, Values::Null)];
    let array = through(whole(
        DataType::Union(fields(), None, UnionMode::Dense),
        2,
        Values::Union(buffer_from_vec(vec![0, 1]), Some(buffer_from_vec(vec![1, 0])), children()),
    ));
    let Values::Union(types, Some(offsets), parts) = &array.values else { panic!() };
    assert_eq!((items(types), items(offsets)), (vec![0, 1], vec![1, 0]));
    assert_eq!(as_int32s(&parts[0]), vec![5, 6]);
    let array = through(whole(
        DataType::Union(fields(), None, UnionMode::Sparse),
        2,
        Values::Union(buffer_from_vec(vec![1, 0]), None, children()),
    ));
    let Values::Union(types, None, parts) = &array.values else { panic!() };
    assert_eq!((items(types), parts.len()), (vec![1, 0], 2));
}

#[test]
fn null_pointers_are_refused() {
    let mut array = described(1, 0, 0, vec![None, Some(Region::I32(Arc::new(vec![1])))]);
    array.buffers = None;
    assert_eq!(refused(array, DataType::Int32), "The array buffers are null");
    let array = described(1, 0, 0, vec![None, None]);
    assert_eq!(refused(array, DataType::Int32), "The buffer at position 1 is null");
    let array = described(1, 0, 1, vec![None, Some(Region::I32(Arc::new(vec![1])))]);
    assert_eq!(
        refused(array, DataType::Int32),
        "The buffer 0 is a null pointer and cannot be interpreted as a bitmap"
    );
    let array = described(1, 0, 0, vec![None, None]);
    assert_eq!(
        refused(array, DataType::Boolean),
        "The buffer 1 is a null pointer and cannot be interpreted as a bitmap"
    );
}

#[test]
fn null_buffers_are_refused_whatever_their_number() {
    for n_buffers in [0, 1, -1] {
        let array = ArrowArray { length: 1, null_count: 1, n_buffers, ..ArrowArray::empty() };
        assert_eq!(refused(array, DataType::Boolean), "The array buffers are null");
        let array = ArrowArray { length: 1, n_buffers, ..ArrowArray::empty() };
        assert_eq!(refused(array, DataType::Boolean), "The array buffers are null");
    }
}

#[test]
fn buffers_that_do_not_fit_are_refused() {
    let message = "The buffer at position 1 does not hold the slots of the array";
    // too few values, values of another type, and no such pointer
    let array = described(2, 0, 0, vec![None, Some(Region::I32(Arc::new(vec![1])))]);
    assert_eq!(refused(array, DataType::Int32), message);
    let array = described(1, 0, 0, vec![None, Some(Region::I64(Arc::new(vec![1])))]);
    assert_eq!(refused(array, DataType::Int32), message);
    let array = described(1, 0, 0, vec![None]);
    assert_eq!(refused(array, DataType::Int32), message);
    let array = described(9, 0, 0, vec![None, Some(Region::U8(Arc::new(vec![0])))]);
    assert_eq!(refused(array, DataType::Boolean), message);
    // the last offset points behind the bytes
    let offsets = Some(Region::I32(Arc::new(vec![0, 3])));
    let array = described(1, 0, 0, vec![None, offsets, Some(Region::U8(Arc::new(vec![1, 2])))]);
    assert_eq!(
        refused(array, DataType::Utf8),
        "The buffer at position 2 does not hold the slots of the array"
    );
}

#[test]
fn negative_numbers_of_slots_are_refused() {
    let message = "The array has no valid number of slots";
    assert_eq!(refused(described(-1, 0, 0, vec![None]), DataType::Null), message);
    assert_eq!(refused(described(0, -1, 0, vec![None]), DataType::Null), message);
}

#[test]
fn missing_children_and_dictionaries_are_refused() {
    let list = DataType::List(Arc::new(field("item", DataType::Int32)));
    let array = described(0, 0, 0, vec![None, Some(Region::I32(Arc::new(vec![0])))]);
    assert_eq!(refused(array, list), "The child at position 0 is not there");
    let dictionary = DataType::Dictionary(IntegerType::Int32, Arc::new(DataType::Int32), false);
    let array = described(0, 0, 0, vec![None, Some(Region::I32(Arc::new(vec![])))]);
    assert_eq!(refused(array, dictionary), "The dictionary is not there");
}

#[test]
fn arrays_without_buffers_are_nulls_or_empty_structs() {
    let read = |data_type| {
        try_from(Box::new(InternalArrowArray::new(ArrowArray::empty(), data_type))).is_ok()
    };
    assert!(read(DataType::Null));
    assert!(read(DataType::Struct(Arc::new(vec![]))));
    assert!(!read(DataType::Struct(Arc::new(vec![field("a", DataType::Null)]))));
    assert!(!read(DataType::Int32));
    assert!(!read(DataType::Utf8));
}

#[test]
fn dropping_releases_once() {
    let mut array = ArrowArray::new(Box::new(int32s(vec![1, 2])));
    array.drop();
    assert!(!array.release);
    assert!(array.buffers.is_none() && array.children.is_none() && array.dictionary.is_none());
    assert_eq!((array.length, array.n_buffers), (2, 2));
    array.drop();
    assert!(!array.release);
    assert_eq!((array.length, array.n_buffers), (2, 2));
}

#[test]
fn dropping_without_callback_changes_nothing() {
    let mut array = described(1, 0, 0, vec![None, Some(Region::I32(Arc::new(vec![1])))]);
    array.drop();
    assert!(array.buffers.is_some());
    assert_eq!(array.length, 1);
}

#[test]
fn releasing_gives_up_the_memory() {
    let values = buffer_from_vec(vec![1, 2]);
    let memory = values.share().data;
    let mut array = ArrowArray::new(Box::new(whole(
        DataType::Int32,
        2,
        Values::Primitive(PrimitiveValues::Int32(values)),
    )));
    assert_eq!(Arc::strong_count(&memory), 2);
    c_release_array(Some(&mut array));
    assert_eq!(Arc::strong_count(&memory), 1);
    assert!(!array.release);
    c_release_array(None);
}

#[test]
fn buffers_have_the_length_that_their_layout_says() {
    let array = described(
        3,
        2,
        0,
        vec![None, Some(Region::I32(Arc::new(vec![0, 1, 2, 4, 8, 16]))), None],
    );
    let large = described(
        3,
        2,
        0,
        vec![None, Some(Region::I64(Arc::new(vec![0, 1, 2, 4, 8, 32]))), None],
    );
    let item = || Arc::new(field("item", DataType::Null));
    let len = |array: &ArrowArray, data_type: DataType, i| buffer_len(array, &data_type, i).unwrap();
    assert_eq!(len(&array, DataType::Int32, 1), 5);
    assert_eq!(len(&array, DataType::Int32, 0), 5);
    assert_eq!(len(&array, DataType::FixedSizeBinary(4), 1), 20);
    assert_eq!(len(&array, DataType::FixedSizeList(item(), 7), 1), 35);
    assert_eq!(len(&array, DataType::Utf8, 1), 6);
    assert_eq!(len(&array, DataType::LargeUtf8, 1), 6);
    assert_eq!(len(&array, DataType::Binary, 1), 6);
    assert_eq!(len(&array, DataType::LargeBinary, 1), 6);
    assert_eq!(len(&array, DataType::List(item()), 1), 6);
    assert_eq!(len(&array, DataType::LargeList(item()), 1), 6);
    assert_eq!(len(&array, DataType::Mapping(item(), true), 1), 6);
    assert_eq!(len(&array, DataType::Utf8, 2), 16);
    assert_eq!(len(&array, DataType::Binary, 2), 16);
    assert_eq!(len(&large, DataType::LargeUtf8, 2), 32);
    assert_eq!(len(&large, DataType::LargeBinary, 2), 32);
}

#[test]
fn buffers_start_where_their_layout_says() {
    let array = described(3, 2, 0, vec![None, None, None]);
    assert_eq!(buffer_offset(&array, &DataType::Int32, 1), 2);
    assert_eq!(buffer_offset(&array, &DataType::FixedSizeBinary(4), 1), 8);
    assert_eq!(buffer_offset(&array, &DataType::FixedSizeBinary(4), 0), 2);
    assert_eq!(buffer_offset(&array, &DataType::Utf8, 1), 2);
    assert_eq!(buffer_offset(&array, &DataType::Utf8, 2), 0);
    assert_eq!(buffer_offset(&array, &DataType::LargeUtf8, 2), 0);
    assert_eq!(buffer_offset(&array, &DataType::Binary, 2), 0);
    assert_eq!(buffer_offset(&array, &DataType::LargeBinary, 2), 0);
}

#[test]
fn own_slots_are_as_many_as_the_array_is_long() {
    let values = Some(Region::I32(Arc::new(vec![7, 8, 9, 10, 11])));
    let array = described(2, 1, 0, vec![Some(Region::U8(Arc::new(vec![0b110]))), values]);
    let buffer = create_buffer::<i32>(&array, &DataType::Int32, 1).unwrap();
    assert_eq!(items(&buffer), vec![8, 9]);
    let offsets = create_buffer::<i32>(&array, &DataType::Utf8, 1).unwrap();
    assert_eq!(items(&offsets), vec![8, 9, 10]);
    let bitmap = create_bitmap(&array, 0).unwrap();
    assert_eq!(flags(&bitmap), vec![true, true]);
}

#[test]
fn null_pointers_are_named_by_their_position() {
    let array = described(1, 0, 0, vec![None, None]);
    let Err(Error::OutOfSpec(message)) = create_buffer::<u8>(&array, &DataType::UInt8, 1) else {
        panic!()
    };
    assert_eq!(message, "The buffer at position 1 is null");
    let Err(Error::OutOfSpec(message)) = create_bitmap(&array, 0) else { panic!() };
    assert_eq!(message, "The buffer 0 is a null pointer and cannot be interpreted as a bitmap");
    let empty = ArrowArray::empty();
    let Err(Error::OutOfSpec(message)) = create_buffer::<u8>(&empty, &DataType::UInt8, 0) else {
        panic!()
    };
    assert_eq!(message, "The array buffers are null");
    let nowhere = ArrowArray { n_buffers: 1, ..ArrowArray::empty() };
    let Err(Error::OutOfSpec(message)) = create_bitmap(&nowhere, 0) else { panic!() };
    assert_eq!(message, "The array buffers are null");
}

#[test]
fn positions_are_written_in_decimal() {
    let array = described(0, 0, 0, (0..205).map(|_| None).collect());
    for (index, text) in [(0, "0"), (9, "9"), (10, "10"), (204, "204")] {
        let Err(Error::OutOfSpec(message)) = create_buffer::<u8>(&array, &DataType::UInt8, index)
        else {
            panic!()
        };
        assert_eq!(message, format!("The buffer at position {} is null", text));
    }
}

#[test]
fn handles_give_their_parts() {
    let item = Arc::new(field("item", DataType::Int32));
    let mut list = whole(
        DataType::List(item),
        1,
        Values::List(buffer_from_vec(vec![0, 2]), Box::new(int32s(vec![1, 2]))),
    );
    list.validity = Some(bits(vec![0], 0, 1));
    let data_type = list.data_type.clone();
    let handle = Box::new(InternalArrowArray::new(ArrowArray::new(Box::new(list)), data_type));
    assert_eq!(handle.n_buffers(), 2);
    assert_eq!(handle.array().length, 1);
    assert_eq!(handle.data_type().to_physical_type(), PhysicalType::List);
    assert!(Arc::ptr_eq(&handle.parent().array, &handle.array));
    assert_eq!(flags(&handle.validity().unwrap().unwrap()), vec![false]);
    assert_eq!(flags(&handle.bitmap(0).unwrap()), vec![false]);
    assert_eq!(items(&handle.buffer::<i32>(1).unwrap()), vec![0, 2]);
    assert!(handle.dictionary().unwrap().is_none());
    let child = handle.child(0).unwrap();
    assert!(matches!(child.data_type(), DataType::Int32));
    assert_eq!(child.n_buffers(), 2);
    assert!(child.validity().unwrap().is_none());
    assert_eq!(items(&child.buffer::<i32>(1).unwrap()), vec![1, 2]);
    assert!(Arc::ptr_eq(&child.parent().array, &handle.array));
    assert_eq!(as_int32s(&try_from(child).unwrap()), vec![1, 2]);
}

#[test]
fn children_and_dictionaries_come_with_their_type() {
    let data_type = DataType::Dictionary(IntegerType::Int8, Arc::new(DataType::Int32), true);
    let exported = ArrowArray::new(Box::new(whole(
        data_type.clone(),
        1,
        Values::Dictionary(
            PrimitiveValues::Int8(buffer_from_vec(vec![0])),
            Box::new(int32s(vec![10])),
        ),
    )));
    let parent = || Box::new(InternalArrowArray::new(ArrowArray::empty(), DataType::Null));
    let dictionary = create_dictionary(&exported, &data_type, parent()).unwrap().unwrap();
    assert!(matches!(dictionary.data_type, DataType::Int32));
    assert_eq!(dictionary.array.length, 1);
    assert!(create_dictionary(&exported, &DataType::Int8, parent()).unwrap().is_none());
    let Err(Error::OutOfSpec(message)) = create_child(&exported, &DataType::Int8, parent(), 3)
    else {
        panic!()
    };
    assert_eq!(message, "Requested child 3 of a type that has no such child");
}

#[test]
fn types_give_their_children() {
    let fields = Arc::new(vec![field("a", DataType::Int32), field("b", DataType::Utf8)]);
    let child = |data_type: &DataType, i| get_child(data_type, i).unwrap().to_physical_type();
    assert_eq!(child(&DataType::Struct(fields.clone()), 1), PhysicalType::Utf8);
    let union = DataType::Union(fields, None, UnionMode::Sparse);
    assert_eq!(child(&union, 0), PhysicalType::Primitive(PrimitiveType::Int32));
    let item = Arc::new(field("item", DataType::Boolean));
    let list = DataType::FixedSizeList(item, 3);
    assert_eq!(child(&list, 0), PhysicalType::Boolean);
    let extension = DataType::Extension("name".to_owned(), Arc::new(list), None);
    assert_eq!(child(&extension, 0), PhysicalType::Boolean);
    assert!(get_child(&extension, 1).is_err());
    assert!(get_child(&DataType::Int8, 0).is_err());
}

#[test]
fn arrays_hand_over_their_parts() {
    let array = whole(
        DataType::Dictionary(IntegerType::Int8, Arc::new(DataType::Int32), true),
        1,
        Values::Dictionary(
            PrimitiveValues::Int8(buffer_from_vec(vec![0])),
            Box::new(int32s(vec![10])),
        ),
    );
    let (offset, buffers, children, dictionary) = offset_buffers_children_dictionary(&array);
    assert_eq!((offset, buffers.len(), children.len()), (0, 2, 0));
    assert_eq!(as_int32s(dictionary.unwrap()), vec![10]);
}
