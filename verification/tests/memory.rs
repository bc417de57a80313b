//! Bitmaps, buffers and types of fixed size.
use arrow_interop::bitmap::{bytes_for, Bitmap};
use arrow_interop::buffer::buffer_from_vec;
use arrow_interop::error::Error;
use arrow_interop::types::{DaysMs, MonthsDaysNs, NativeType};

#[test]
fn bytes_for_rounds_up() {
    assert_eq!(bytes_for(0), 0);
    assert_eq!(bytes_for(1), 1);
    assert_eq!(bytes_for(8), 1);
    assert_eq!(bytes_for(9), 2);
    assert_eq!(bytes_for(usize::MAX), usize::MAX / 8);
}

#[test]
fn bitmap_has_the_least_significant_bit_first() {
    let bitmap = Bitmap::try_new(vec![0b0000_0101, 0b1], 9).unwrap();
    let bits: Vec<bool> = (0..9).map(|i| bitmap.get_bit(i)).collect();
    assert_eq!(bits, vec![true, false, true, false, false, false, false, false, true]);
    assert_eq!(bitmap.unset_bits(), 6);
    let bitmap = bitmap.slice(2, 7);
    assert_eq!(bitmap.len(), 7);
    assert!(bitmap.get_bit(0) && bitmap.get_bit(6));
    assert_eq!(bitmap.unset_bits(), 5);
}

#[test]
fn bitmap_needs_enough_bytes() {
    let Err(Error::BitmapTooShort { length, number_of_bits }) = Bitmap::try_new(vec![0], 9) else {
        panic!()
    };
    assert_eq!((length, number_of_bits), (9, 8));
    assert!(Bitmap::try_new(vec![0], 8).is_ok());
}

#[test]
fn buffer_is_narrowed() {
    let buffer = buffer_from_vec(vec![1, 2, 3, 4]).slice(1, 3).slice(1, 1);
    assert_eq!((buffer.len(), *buffer.get(0)), (1, 3));
}

#[test]
fn values_are_read_in_both_orders() {
    assert_eq!(u8::from_le_bytes([7]), 7);
    assert_eq!(<u16 as NativeType>::from_le_bytes([1, 2]), 0x0201);
    assert_eq!(<u16 as NativeType>::from_be_bytes([1, 2]), 0x0102);
    assert_eq!(<u32 as NativeType>::from_le_bytes([1, 2, 3, 4]), 0x0403_0201);
    assert_eq!(<u32 as NativeType>::from_be_bytes([1, 2, 3, 4]), 0x0102_0304);
    assert_eq!(<u64 as NativeType>::from_be_bytes([0, 0, 0, 0, 0, 0, 1, 0]), 256);
    assert_eq!(<i8 as NativeType>::from_le_bytes([0xff]), -1);
    assert_eq!(<i8 as NativeType>::from_be_bytes([0x80]), i8::MIN);
    assert_eq!(<i16 as NativeType>::from_be_bytes([0xff, 0xfe]), -2);
    assert_eq!(<i32 as NativeType>::from_le_bytes([0, 0, 0, 0x80]), i32::MIN);
    assert_eq!(<i64 as NativeType>::from_le_bytes([0xff; 8]), -1);
    let mut lowest = [0u8; 16];
    lowest[0] = 0x80;
    assert_eq!(<i128 as NativeType>::from_be_bytes(lowest), i128::MIN);
    assert_eq!(<i128 as NativeType>::from_le_bytes(lowest), 0x80);
}

#[test]
fn values_are_read_as_the_standard_library_reads_them() {
    let bytes = [0x81, 0x02, 0xf3, 0x44, 0x95, 0x66, 0x07, 0xe8];
    assert_eq!(<i64 as NativeType>::from_le_bytes(bytes), i64::from_le_bytes(bytes));
    assert_eq!(<i64 as NativeType>::from_be_bytes(bytes), i64::from_be_bytes(bytes));
    assert_eq!(<u64 as NativeType>::from_le_bytes(bytes), u64::from_le_bytes(bytes));
    assert_eq!(<u64 as NativeType>::from_be_bytes(bytes), u64::from_be_bytes(bytes));
}

#[test]
fn intervals_are_read_part_by_part() {
    let little = [1, 0, 0, 0, 2, 0, 0, 0];
    let big = [0, 0, 0, 1, 0, 0, 0, 2];
    let expected = DaysMs { days: 1, milliseconds: 2 };
    assert_eq!(DaysMs::from_le_bytes(little), expected);
    assert_eq!(DaysMs::from_be_bytes(big), expected);
    let little = [1, 0, 0, 0, 2, 0, 0, 0, 3, 0, 0, 0, 0, 0, 0, 0];
    let big = [0, 0, 0, 1, 0, 0, 0, 2, 0, 0, 0, 0, 0, 0, 0, 3];
    let expected = MonthsDaysNs { months: 1, days: 2, nanoseconds: 3 };
    assert_eq!(MonthsDaysNs::from_le_bytes(little), expected);
    assert_eq!(MonthsDaysNs::from_be_bytes(big), expected);
}

#[test]
fn slots_are_bytes_in_order() {
    let mut slots = <u16 as NativeType>::zeroed(2);
    assert_eq!(slots, vec![[0, 0], [0, 0]]);
    let bytes = <u16 as NativeType>::as_bytes_mut(&mut slots);
    assert_eq!(bytes.len(), 4);
    bytes[1] = 1;
    bytes[2] = 2;
    assert_eq!(slots, vec![[0, 1], [2, 0]]);
}

fn named<T: NativeType>() -> (&'static str, usize, usize) {
    (T::slot_type(), T::slot_size(), std::mem::size_of::<T>())
}

#[test]
fn types_have_their_name_and_size() {
    assert_eq!(named::<u8>(), ("u8", 1, 1));
    assert_eq!(named::<u16>(), ("u16", 2, 2));
    assert_eq!(named::<u32>(), ("u32", 4, 4));
    assert_eq!(named::<u64>(), ("u64", 8, 8));
    assert_eq!(named::<i8>(), ("i8", 1, 1));
    assert_eq!(named::<i16>(), ("i16", 2, 2));
    assert_eq!(named::<i32>(), ("i32", 4, 4));
    assert_eq!(named::<i64>(), ("i64", 8, 8));
    assert_eq!(named::<i128>(), ("i128", 16, 16));
    assert_eq!(named::<DaysMs>(), ("arrow_interop::types::DaysMs", 8, 8));
    assert_eq!(named::<MonthsDaysNs>(), ("arrow_interop::types::MonthsDaysNs", 16, 16));
}
