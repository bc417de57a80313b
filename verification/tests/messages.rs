//! Buffers in the body of an IPC message.
use std::collections::VecDeque;
use std::io::Write;

use arrow_interop::array::{Array, PrimitiveValues, Values};
use arrow_interop::bitmap::Bitmap;
use arrow_interop::buffer::Buffer;
use arrow_interop::datatypes::DataType;
use arrow_interop::error::{Error, InvalidCodec, OutOfSpecKind};
use arrow_interop::ipc::compression::{decompress, Compression, CompressionType};
use arrow_interop::ipc::endianess::{is_little_endian_one, is_native_little_endian};
use arrow_interop::ipc::read_basic::{
    next_block, read_bitmap, read_bitmap_here, read_bitmap_here_on, read_bitmap_on, read_buffer,
    read_buffer_here, read_buffer_here_on, read_buffer_on, read_compressed_bitmap,
    read_compressed_bitmap_on, read_compressed_buffer, read_compressed_buffer_on, read_swapped,
    read_uncompressed_bitmap, read_uncompressed_bitmap_on, read_uncompressed_buffer,
    read_uncompressed_buffer_on, read_validity, read_validity_on, required_bytes,
    values_from_slots, Block, IpcBuffer, Node,
};
use arrow_interop::ipc::reader::ByteReader;
use arrow_interop::types::{DaysMs, NativeType};

const LZ4: Compression = Compression { codec: Some(0) };
const ZSTD: Compression = Compression { codec: Some(1) };

fn items<T: Clone>(buffer: &Buffer<T>) -> Vec<T> {
    (0..buffer.len()).map(|i| buffer.get(i).clone()).collect()
}

fn flags(bitmap: &Bitmap) -> Vec<bool> {
    (0..bitmap.len()).map(|i| bitmap.get_bit(i)).collect()
}

fn queue(buffers: &[(i64, i64)]) -> VecDeque<IpcBuffer> {
    buffers.iter().map(|&(offset, length)| IpcBuffer { offset, length }).collect()
}

fn framed(uncompressed: usize, body: Vec<u8>) -> Vec<u8> {
    let mut bytes = (uncompressed as u64).to_le_bytes().to_vec();
    bytes.extend(body);
    bytes
}

fn lz4_frame(bytes: &[u8]) -> Vec<u8> {
    let mut encoder = lz4::EncoderBuilder::new().build(Vec::new()).unwrap();
    encoder.write_all(bytes).unwrap();
    let (frame, outcome) = encoder.finish();
    outcome.unwrap();
    frame
}

fn zstd_frame(bytes: &[u8]) -> Vec<u8> {
    zstd::encode_all(bytes, 0).unwrap()
}

#[test]
fn reader_reads_what_is_there() {
    let bytes = [1, 2, 3, 4];
    let mut reader = ByteReader::new(&bytes);
    let mut two = [0; 2];
    reader.read_exact(&mut two).unwrap();
    assert_eq!((two, reader.position), ([1, 2], 2));
    let mut rest = vec![9];
    reader.read_at_most(10, &mut rest);
    assert_eq!((rest, reader.position), (vec![9, 3, 4], 4));
    reader.seek(3);
    let e = reader.read_exact(&mut two).unwrap_err();
    assert_eq!(e.kind(), std::io::ErrorKind::UnexpectedEof);
    assert_eq!((two, reader.position), ([1, 2], 3));
    let mut one = vec![];
    reader.read_at_most(1, &mut one);
    assert_eq!(one, vec![4]);
    reader.seek(u64::MAX);
    reader.read_at_most(1, &mut one);
    reader.read_exact(&mut []).unwrap();
    assert_eq!((one, reader.position), (vec![4], u64::MAX));
}

#[test]
fn machine_has_a_byte_order() {
    assert_eq!(is_native_little_endian(), u16::from_ne_bytes([1, 0]) == 1);
    assert!(is_little_endian_one(1u16.to_le_bytes()));
    assert!(!is_little_endian_one(1u16.to_be_bytes()));
}

#[test]
fn codecs_have_tags() {
    assert_eq!(LZ4.codec(), Ok(CompressionType::Lz4Frame));
    assert_eq!(ZSTD.codec(), Ok(CompressionType::Zstd));
    for tag in [-1, 2, i8::MAX, i8::MIN] {
        let unknown = Compression { codec: Some(tag) };
        assert_eq!(unknown.codec(), Err(InvalidCodec::UnknownTag(tag)));
    }
    assert_eq!(Compression { codec: None }.codec(), Err(InvalidCodec::Unreadable));
}

#[test]
fn codecs_give_back_what_was_compressed() {
    let bytes: Vec<u8> = (0..1000).map(|i| (i % 7) as u8).collect();
    let mut out = vec![0; 1000];
    decompress(CompressionType::Lz4Frame, &lz4_frame(&bytes), &mut out).unwrap();
    assert_eq!(out, bytes);
    let mut out = vec![0; 1000];
    decompress(CompressionType::Zstd, &zstd_frame(&bytes), &mut out).unwrap();
    assert_eq!(out, bytes);
    // a part of it
    let mut out = vec![0; 10];
    decompress(CompressionType::Lz4Frame, &lz4_frame(&bytes), &mut out).unwrap();
    assert_eq!(out, bytes[..10]);
    let mut out = vec![0; 10];
    decompress(CompressionType::Zstd, &zstd_frame(&bytes), &mut out).unwrap();
    assert_eq!(out, bytes[..10]);
}

#[test]
fn stored_values_are_read() {
    let values = [1i64, -2, i64::MIN, i64::MAX];
    let mut little = Vec::new();
    let mut big = Vec::new();
    for value in values {
        little.extend(value.to_le_bytes());
        big.extend(value.to_be_bytes());
    }
    for (native, bytes, is_little_endian) in
        [(true, &little, true), (true, &big, false), (false, &big, false)]
    {
        let mut reader = ByteReader::new(bytes);
        let read =
            read_uncompressed_buffer_on::<i64>(native, &mut reader, 32, 4, is_little_endian);
        assert_eq!(read.unwrap(), values);
    }
    for (native, bytes) in [(true, &little), (false, &big)] {
        let compressed = framed(32, lz4_frame(bytes));
        let mut reader = ByteReader::new(&compressed);
        let read = read_compressed_buffer_on::<i64>(
            native, true, &mut reader, compressed.len(), 4, native, LZ4, &mut vec![],
        );
        assert_eq!(read.unwrap(), values);
    }
}

#[test]
fn stored_values_are_swapped() {
    let values = [1i32, -2, i32::MIN];
    let mut bytes = Vec::new();
    for value in values {
        bytes.extend(value.to_be_bytes());
    }
    bytes.push(9);
    for held in [0, 7] {
        let mut buffer = vec![held; 3];
        read_swapped(&mut ByteReader::new(&bytes), 3, &mut buffer, false).unwrap();
        assert_eq!(buffer, values);
    }
}

#[test]
fn compressed_prefix_is_not_read() {
    let frame = zstd_frame(&[1, 2, 3, 4]);
    let length = frame.len() + 8;
    let mut one = framed(4, frame.clone());
    let mut other = framed(999, frame);
    one.extend([1, 2]);
    other.extend([3, 4, 5]);
    for bytes in [one, other] {
        for mut scratch in [vec![], vec![7; 50]] {
            let mut reader = ByteReader::new(&bytes);
            let values = read_compressed_buffer_on::<u16>(
                true, true, &mut reader, length, 2, true, ZSTD, &mut scratch,
            );
            assert_eq!(values.unwrap(), vec![0x0201, 0x0403]);
            let mut reader = ByteReader::new(&bytes);
            let bitmap =
                read_compressed_bitmap_on(true, 32, length, ZSTD, &mut reader, &mut scratch);
            assert_eq!(bitmap.unwrap(), vec![1, 2, 3, 4]);
        }
    }
}

#[test]
fn bitmaps_have_no_byte_order() {
    for (compression, body) in [
        (None, vec![0b101]),
        (Some(LZ4), framed(1, lz4_frame(&[0b101]))),
        (Some(ZSTD), framed(1, zstd_frame(&[0b101]))),
    ] {
        for is_little_endian in [true, false] {
            let mut buffers = queue(&[(0, body.len() as i64)]);
            let mut reader = ByteReader::new(&body);
            let mut scratch = vec![];
            let bitmap = read_bitmap(
                &mut buffers, 3, &mut reader, 0, is_little_endian, compression, &mut scratch,
            )
            .unwrap();
            assert_eq!(flags(&bitmap), vec![true, false, true]);
            assert_eq!((bitmap.offset, bitmap.length), (0, 3));
            assert_eq!(reader.position as usize, body.len());
            // the validity of a field with nulls is that bitmap
            let mut buffers = queue(&[(0, body.len() as i64)]);
            let mut other_reader = ByteReader::new(&body);
            let mut other_scratch = vec![];
            let validity = read_validity(
                &mut buffers,
                Node { length: 3, null_count: 1 },
                &mut other_reader,
                0,
                is_little_endian,
                compression,
                &mut other_scratch,
            );
            assert_eq!(flags(&validity.unwrap().unwrap()), flags(&bitmap));
            assert_eq!(other_reader.position, reader.position);
            assert_eq!(other_scratch, scratch);
        }
    }
}

#[test]
fn what_is_read_starts_at_its_first_slot() {
    let body = [0, 1, 2, 3];
    let mut buffers = queue(&[(1, 3)]);
    let mut reader = ByteReader::new(&body);
    let buffer = read_buffer::<u8>(&mut buffers, 2, &mut reader, 0, true, None, &mut vec![]);
    let values = buffer.unwrap();
    assert_eq!((values.offset, values.length), (0, 2));
    let array = Array {
        data_type: DataType::UInt8,
        offset: 0,
        length: 2,
        validity: None,
        values: Values::Primitive(PrimitiveValues::UInt8(values)),
    };
    assert!(array.is_well_formed());
}

#[test]
fn buffers_are_read_on_every_machine() {
    let body = [9, 1, 0, 2, 0, 9];
    let read = |native, is_little_endian| {
        let mut buffers = queue(&[(1, 4), (0, 0)]);
        let mut reader = ByteReader::new(&body);
        let mut scratch = vec![7];
        let buffer = read_buffer_on::<u16>(
            native, false, &mut buffers, 2, &mut reader, 0, is_little_endian, None, &mut scratch,
        );
        assert_eq!((buffers.len(), reader.position, scratch), (1, 5, vec![7]));
        buffer
    };
    assert_eq!(items(&read(true, true).unwrap()), vec![1, 2]);
    assert_eq!(items(&read(true, false).unwrap()), vec![0x100, 0x200]);
    assert_eq!(items(&read(false, false).unwrap()), vec![0x100, 0x200]);
    assert!(matches!(read(false, true), Err(Error::NotYetImplemented(_))));
}

#[test]
fn compressed_buffers_are_read_on_every_machine() {
    let body = framed(4, lz4_frame(&[1, 0, 2, 0]));
    for (native, expected) in [(true, vec![1, 2]), (false, vec![0x100, 0x200])] {
        let mut buffers = queue(&[(0, body.len() as i64)]);
        let mut reader = ByteReader::new(&body);
        let mut scratch = vec![7];
        let buffer = read_buffer_on::<u16>(
            native, true, &mut buffers, 2, &mut reader, 0, native, Some(LZ4), &mut scratch,
        );
        assert_eq!(items(&buffer.unwrap()), expected);
        assert_eq!(scratch, body);
        let outcome = read_buffer_here_on::<u16>(
            native, false, &mut reader, body.len(), 2, native, Some(LZ4), &mut scratch,
        );
        assert!(matches!(outcome, Err(Error::Overflow)));
        assert!(scratch.is_empty());
        let outcome = read_buffer_here_on::<u16>(
            native, true, &mut reader, body.len(), 2, !native, Some(LZ4), &mut scratch,
        );
        assert!(matches!(outcome, Err(Error::NotYetImplemented(_))));
    }
    let mut buffers = queue(&[(0, -1)]);
    let mut reader = ByteReader::new(&body);
    let outcome = read_buffer_on::<u16>(
        true, true, &mut buffers, 2, &mut reader, 0, true, Some(LZ4), &mut vec![],
    );
    assert!(matches!(outcome, Err(Error::Ipc(OutOfSpecKind::NegativeFooterLength))));
}

#[test]
fn bitmaps_are_read_where_there_is_memory() {
    let body = [0b101, 0b1];
    let read = |space, front, length, scratch: &mut Vec<u8>| {
        let mut buffers = queue(&[front]);
        let mut reader = ByteReader::new(&body);
        read_bitmap_on(space, &mut buffers, length, &mut reader, 0, true, None, scratch)
    };
    let mut scratch = vec![7];
    let bitmap = read(Some(vec![]), (0, 2), 9, &mut scratch).unwrap();
    assert_eq!(flags(&bitmap), vec![true, false, true, false, false, false, false, false, true]);
    assert!(matches!(read(None, (0, 2), 9, &mut scratch), Err(Error::Overflow)));
    // exactly as many bits as the buffer and the file have
    assert!(read(Some(vec![]), (0, 2), 16, &mut scratch).is_ok());
    assert!(matches!(
        read(Some(vec![]), (0, 2), 17, &mut scratch),
        Err(Error::Ipc(OutOfSpecKind::InvalidBitmap { length: 17, number_of_bits: 16 }))
    ));
    assert!(matches!(
        read(Some(vec![]), (1, 2), 9, &mut scratch),
        Err(Error::BitmapTooShort { length: 9, number_of_bits: 8 })
    ));
    assert_eq!(scratch, vec![7]);
    assert!(matches!(
        read(None, (-1, 2), 9, &mut scratch),
        Err(Error::Ipc(OutOfSpecKind::NegativeFooterLength))
    ));
}

#[test]
fn compressed_bitmaps_are_read_where_there_is_memory() {
    let body = framed(1, zstd_frame(&[0b10]));
    let mut reader = ByteReader::new(&body);
    let mut scratch = vec![7];
    let outcome =
        read_bitmap_here_on(None, &mut reader, 2, body.len(), Some(ZSTD), &mut scratch);
    assert!(matches!(outcome, Err(Error::Overflow)));
    assert!(scratch.is_empty());
    let bitmap =
        read_bitmap_here_on(Some(vec![]), &mut reader, 2, body.len(), Some(ZSTD), &mut scratch);
    assert_eq!(flags(&bitmap.unwrap()), vec![false, true]);
    assert_eq!(scratch, body);
    let mut reader = ByteReader::new(&body);
    let bitmap = read_bitmap_here(&mut reader, 2, body.len(), Some(ZSTD), &mut scratch);
    assert_eq!(flags(&bitmap.unwrap()), vec![false, true]);
}

#[test]
fn validity_is_read_where_there_is_memory() {
    let body = [0b10];
    let read = |space, length, null_count| {
        let mut buffers = queue(&[(0, 1)]);
        let mut reader = ByteReader::new(&body);
        let node = Node { length, null_count };
        read_validity_on(space, &mut buffers, node, &mut reader, 0, true, None, &mut vec![])
    };
    assert_eq!(flags(&read(Some(vec![]), 2, 1).unwrap().unwrap()), vec![false, true]);
    assert!(matches!(read(None, 2, 1), Err(Error::Overflow)));
    assert!(read(None, 2, 0).unwrap().is_none());
    assert!(matches!(
        read(None, -1, 1),
        Err(Error::Ipc(OutOfSpecKind::NegativeFooterLength))
    ));
}

#[test]
fn codecs_refuse_other_bytes() {
    let mut out = vec![0; 4];
    assert!(decompress(CompressionType::Lz4Frame, &[1; 20], &mut out).is_err());
    assert!(decompress(CompressionType::Zstd, &[1; 20], &mut out).is_err());
    assert!(decompress(CompressionType::Lz4Frame, &zstd_frame(&[1, 2, 3, 4]), &mut out).is_err());
    assert!(decompress(CompressionType::Zstd, &lz4_frame(&[1, 2, 3, 4]), &mut out).is_err());
    // too short
    assert!(decompress(CompressionType::Lz4Frame, &lz4_frame(&[1, 2, 3]), &mut out).is_err());
    assert!(decompress(CompressionType::Zstd, &zstd_frame(&[1, 2, 3]), &mut out).is_err());
}

#[test]
fn slots_have_values_in_both_orders() {
    let slots = vec![[1, 0, 0, 0], [0, 0, 0, 1]];
    assert_eq!(values_from_slots::<i32>(&slots, true), vec![1, 1 << 24]);
    assert_eq!(values_from_slots::<i32>(&slots, false), vec![1 << 24, 1]);
}

#[test]
fn swapped_slots_are_read_into_the_first_slots() {
    let bytes = [0, 1, 0, 2, 0, 3];
    let mut reader = ByteReader::new(&bytes);
    let mut buffer = vec![9u16, 9, 9];
    read_swapped(&mut reader, 2, &mut buffer, false).unwrap();
    assert_eq!((buffer, reader.position), (vec![1, 2, 9], 4));
    // fewer slots than values
    let mut reader = ByteReader::new(&bytes);
    let mut buffer = vec![9u16];
    read_swapped(&mut reader, 3, &mut buffer, false).unwrap();
    assert_eq!((buffer, reader.position), (vec![1], 6));
}

#[test]
fn swapped_little_endian_slots_are_not_implemented() {
    let bytes = [0, 1];
    let mut reader = ByteReader::new(&bytes);
    let mut buffer = vec![9u16];
    let Err(Error::NotYetImplemented(message)) = read_swapped(&mut reader, 1, &mut buffer, true)
    else {
        panic!()
    };
    assert_eq!(message, "Reading little endian files from big endian machines");
    assert_eq!((buffer, reader.position), (vec![9], 2));
    let mut buffer = vec![9u16];
    assert!(matches!(read_swapped(&mut reader, 1, &mut buffer, true), Err(Error::Io(_))));
    assert_eq!(buffer, vec![9]);
}

#[test]
fn slots_take_their_bytes() {
    assert_eq!(required_bytes::<i32>(100, 3).unwrap(), 12);
    assert_eq!(required_bytes::<DaysMs>(16, 2).unwrap(), 16);
    let Err(Error::Ipc(OutOfSpecKind::InvalidBuffer {
        length,
        slot_type,
        required_number_of_bytes,
        buffer_length,
    })) = required_bytes::<u64>(100, usize::MAX)
    else {
        panic!()
    };
    assert_eq!((length, slot_type), (usize::MAX, "u64"));
    assert_eq!((required_number_of_bytes, buffer_length), (usize::MAX, 100));
}

#[test]
fn uncompressed_buffers_are_read_on_every_machine() {
    let bytes = [1, 0, 2, 0, 7, 7];
    let read = |native: bool, is_little_endian: bool| {
        read_uncompressed_buffer_on::<u16>(native, &mut ByteReader::new(&bytes), 6, 2, is_little_endian)
    };
    assert_eq!(read(true, true).unwrap(), vec![1, 2]);
    assert_eq!(read(true, false).unwrap(), vec![0x100, 0x200]);
    assert_eq!(read(false, false).unwrap(), vec![0x100, 0x200]);
    let Err(Error::NotYetImplemented(message)) = read(false, true) else { panic!() };
    assert_eq!(message, "Reading little endian files from big endian machines");
}

#[test]
fn byte_orders_agree() {
    let little = [1, 2, 3, 4, 5, 6, 7, 8, 9, 10, 11, 12, 13, 14, 15, 16];
    let mut big = little;
    for part in big.chunks_exact_mut(4) {
        part.reverse();
    }
    let read = |bytes: &[u8], is_little_endian| {
        read_uncompressed_buffer_on::<DaysMs>(true, &mut ByteReader::new(bytes), 16, 2, is_little_endian)
            .unwrap()
    };
    assert_eq!(read(&little, true), read(&big, false));
}

#[test]
fn short_buffers_are_refused() {
    let bytes = [0; 16];
    let mut reader = ByteReader::new(&bytes);
    let Err(Error::Ipc(OutOfSpecKind::InvalidBuffer {
        length,
        slot_type,
        required_number_of_bytes,
        buffer_length,
    })) = read_uncompressed_buffer::<i32>(&mut reader, 11, 3, true)
    else {
        panic!()
    };
    assert_eq!((length, slot_type), (3, "i32"));
    assert_eq!((required_number_of_bytes, buffer_length), (12, 11));
    assert_eq!(reader.position, 0);
    // there is less to read than the buffer should have
    let outcome = read_uncompressed_buffer::<i64>(&mut reader, 100, 3, true);
    let Err(Error::Io(e)) = outcome else { panic!() };
    assert_eq!(e.kind(), std::io::ErrorKind::UnexpectedEof);
}

#[test]
fn padding_is_not_read() {
    let bytes = [1, 0, 0, 0, 2, 0, 0, 0, 0xff, 0xff];
    let mut reader = ByteReader::new(&bytes);
    let values = read_uncompressed_buffer_on::<i32>(true, &mut reader, 64, 2, true).unwrap();
    assert_eq!((values, reader.position), (vec![1, 2], 8));
}

#[test]
fn buffers_are_read_at_their_place() {
    let native = is_native_little_endian();
    let mut body = vec![0xee; 4];
    body.extend(5i32.to_ne_bytes());
    body.extend((-6i32).to_ne_bytes());
    body.extend([0xee; 4]);
    let mut buffers = queue(&[(1, 8), (0, 4)]);
    let mut reader = ByteReader::new(&body);
    let mut scratch = vec![1, 2];
    let buffer =
        read_buffer::<i32>(&mut buffers, 2, &mut reader, 3, native, None, &mut scratch).unwrap();
    assert_eq!(items(&buffer), vec![5, -6]);
    assert_eq!(buffers, queue(&[(0, 4)]));
    assert_eq!(reader.position, 12);
    assert_eq!(scratch, vec![1, 2]);
}

#[test]
fn reads_take_one_buffer_each() {
    let body = [1, 2, 3];
    let mut buffers = queue(&[(2, 1), (0, 1), (1, 1)]);
    let mut reader = ByteReader::new(&body);
    let mut read = |buffers: &mut VecDeque<IpcBuffer>| {
        read_buffer::<u8>(buffers, 1, &mut reader, 0, true, None, &mut vec![])
    };
    assert_eq!(items(&read(&mut buffers).unwrap()), vec![3]);
    assert_eq!(items(&read(&mut buffers).unwrap()), vec![1]);
    assert_eq!(items(&read(&mut buffers).unwrap()), vec![2]);
    assert!(matches!(read(&mut buffers), Err(Error::Ipc(OutOfSpecKind::ExpectedBuffer))));
}

#[test]
fn queue_says_what_is_wrong_with_it() {
    let block = next_block(&mut queue(&[(5, 7)]), 10).unwrap();
    assert_eq!(block, Block { position: 15, length: 7 });
    let mut buffers = queue(&[]);
    assert!(matches!(next_block(&mut buffers, 0), Err(Error::Ipc(OutOfSpecKind::ExpectedBuffer))));
    for wrong in [(-1, 0), (0, -1), (i64::MIN, i64::MIN)] {
        let mut buffers = queue(&[wrong, (0, 0)]);
        assert!(matches!(
            next_block(&mut buffers, u64::MAX),
            Err(Error::Ipc(OutOfSpecKind::NegativeFooterLength))
        ));
        assert_eq!(buffers.len(), 1);
    }
}

#[test]
fn wrong_fronts_are_taken_and_refused() {
    let body = [0; 8];
    for wrong in [(-1, 1), (1, -1)] {
        let mut buffers = queue(&[wrong]);
        let mut reader = ByteReader::new(&body);
        let outcome =
            read_buffer::<u8>(&mut buffers, 1, &mut reader, 0, true, None, &mut vec![]);
        assert!(matches!(outcome, Err(Error::Ipc(OutOfSpecKind::NegativeFooterLength))));
        assert!(buffers.is_empty());
        let mut buffers = queue(&[wrong]);
        let outcome = read_bitmap(&mut buffers, 1, &mut reader, 0, true, None, &mut vec![]);
        assert!(matches!(outcome, Err(Error::Ipc(OutOfSpecKind::NegativeFooterLength))));
        assert!(buffers.is_empty());
    }
}

#[test]
fn compressed_buffers_are_read() {
    let native = is_native_little_endian();
    let mut values = Vec::new();
    for i in 0..100i32 {
        values.extend(i.to_ne_bytes());
    }
    for (compression, frame) in [(LZ4, lz4_frame(&values)), (ZSTD, zstd_frame(&values))] {
        let buffer_bytes = framed(values.len(), frame);
        let mut body = vec![7; 3];
        body.extend(&buffer_bytes);
        body.push(7);
        let mut buffers = queue(&[(3, buffer_bytes.len() as i64)]);
        let mut reader = ByteReader::new(&body);
        let mut scratch = vec![9; 5];
        let buffer = read_buffer::<i32>(
            &mut buffers, 100, &mut reader, 0, native, Some(compression), &mut scratch,
        )
        .unwrap();
        assert_eq!(items(&buffer), (0..100).collect::<Vec<i32>>());
        assert_eq!(scratch, buffer_bytes);
        assert_eq!(reader.position as usize, body.len() - 1);
    }
}

#[test]
fn compressed_buffers_of_the_other_order_are_not_implemented() {
    let bytes = framed(4, zstd_frame(&[1, 0, 0, 0]));
    let mut reader = ByteReader::new(&bytes);
    let mut scratch = vec![9];
    let native = is_native_little_endian();
    let outcome = read_compressed_buffer::<i32>(
        &mut reader, bytes.len(), 1, !native, ZSTD, &mut scratch,
    );
    let Err(Error::NotYetImplemented(message)) = outcome else { panic!() };
    assert_eq!(message, "Reading compressed and big endian IPC");
    assert_eq!((reader.position, scratch), (0, vec![9]));
}

#[test]
fn compressed_buffers_need_memory() {
    let bytes = framed(4, zstd_frame(&[1, 0, 0, 0]));
    let mut reader = ByteReader::new(&bytes);
    let mut scratch = vec![9];
    let outcome = read_compressed_buffer_on::<i32>(
        true, false, &mut reader, bytes.len(), 1, true, ZSTD, &mut scratch,
    );
    assert!(matches!(outcome, Err(Error::Overflow)));
    assert_eq!((reader.position, scratch), (0, vec![]));
    let mut scratch = vec![];
    let values = read_compressed_buffer_on::<i32>(
        false, true, &mut reader, bytes.len(), 1, false, ZSTD, &mut scratch,
    );
    assert_eq!(values.unwrap(), vec![1 << 24]);
}

#[test]
fn memory_that_cannot_be_had_is_an_error() {
    let bytes = framed(1, zstd_frame(&[1]));
    let native = is_native_little_endian();
    let mut reader = ByteReader::new(&bytes);
    let outcome =
        read_compressed_buffer::<u8>(&mut reader, usize::MAX, 1, native, ZSTD, &mut vec![]);
    assert!(matches!(outcome, Err(Error::Overflow)));
    let outcome = read_compressed_bitmap(1, usize::MAX, ZSTD, &mut reader, &mut vec![]);
    assert!(matches!(outcome, Err(Error::Overflow)));
}

#[test]
fn unknown_codecs_are_refused() {
    let bytes = [0; 4];
    let native = is_native_little_endian();
    for (codec, reason) in [
        (Some(2), InvalidCodec::UnknownTag(2)),
        (Some(-1), InvalidCodec::UnknownTag(-1)),
        (None, InvalidCodec::Unreadable),
    ] {
        let mut reader = ByteReader::new(&bytes);
        let mut scratch = vec![];
        let outcome = read_compressed_buffer::<u8>(
            &mut reader, 4, 1, native, Compression { codec }, &mut scratch,
        );
        let Err(Error::Ipc(OutOfSpecKind::InvalidFlatbufferCompression(e))) = outcome else {
            panic!()
        };
        assert_eq!((e, scratch.len(), reader.position), (reason, 4, 4));
        let mut reader = ByteReader::new(&bytes);
        let outcome =
            read_compressed_bitmap(1, 4, Compression { codec }, &mut reader, &mut scratch);
        let Err(Error::Ipc(OutOfSpecKind::InvalidFlatbufferCompression(e))) = outcome else {
            panic!()
        };
        assert_eq!(e, reason);
    }
}

#[test]
fn bytes_of_no_codec_are_an_error_of_reading() {
    let bytes = framed(4, vec![1; 20]);
    let native = is_native_little_endian();
    for compression in [LZ4, ZSTD] {
        let mut reader = ByteReader::new(&bytes);
        let outcome = read_buffer_here::<i32>(
            &mut reader, bytes.len(), 1, native, Some(compression), &mut vec![],
        );
        assert!(matches!(outcome, Err(Error::Io(_))));
    }
}

#[test]
fn bitmaps_are_read() {
    let body = [0xff, 0b0000_0101, 0b1, 0xff];
    let mut buffers = queue(&[(1, 3)]);
    let mut reader = ByteReader::new(&body);
    let bitmap =
        read_bitmap(&mut buffers, 9, &mut reader, 0, false, None, &mut vec![]).unwrap();
    assert_eq!(flags(&bitmap), vec![true, false, true, false, false, false, false, false, true]);
    assert_eq!(reader.position, 4);
    assert!(buffers.is_empty());
}

#[test]
fn compressed_bitmaps_are_read() {
    for (compression, frame) in [(LZ4, lz4_frame(&[0b101, 0b1])), (ZSTD, zstd_frame(&[0b101, 0b1]))] {
        let body = framed(2, frame);
        let mut buffers = queue(&[(0, body.len() as i64)]);
        let mut reader = ByteReader::new(&body);
        let mut scratch = vec![];
        let bitmap = read_bitmap(
            &mut buffers, 9, &mut reader, 0, true, Some(compression), &mut scratch,
        )
        .unwrap();
        assert_eq!(bitmap.len(), 9);
        assert!(bitmap.get_bit(0) && !bitmap.get_bit(1) && bitmap.get_bit(2) && bitmap.get_bit(8));
        assert_eq!(scratch, body);
    }
}

#[test]
fn short_bitmaps_are_refused() {
    let body = [0xff];
    let mut reader = ByteReader::new(&body);
    let Err(Error::Ipc(OutOfSpecKind::InvalidBitmap { length, number_of_bits })) =
        read_uncompressed_bitmap(17, 2, &mut reader)
    else {
        panic!()
    };
    assert_eq!((length, number_of_bits, reader.position), (17, 16, 0));
    // as long as it should be, but cut off
    let mut buffers = queue(&[(0, 2)]);
    let outcome = read_bitmap(&mut buffers, 16, &mut reader, 0, true, None, &mut vec![]);
    let Err(Error::BitmapTooShort { length, number_of_bits }) = outcome else { panic!() };
    assert_eq!((length, number_of_bits), (16, 8));
}

#[test]
fn bitmaps_need_memory() {
    let body = [0xff];
    let mut reader = ByteReader::new(&body);
    assert!(matches!(read_uncompressed_bitmap_on(None, 8, 1, &mut reader), Err(Error::Overflow)));
    assert_eq!(read_uncompressed_bitmap_on(Some(vec![]), 8, 1, &mut reader).unwrap(), vec![0xff]);
    let mut scratch = vec![1];
    let outcome = read_compressed_bitmap_on(false, 8, 1, ZSTD, &mut reader, &mut scratch);
    assert!(matches!(outcome, Err(Error::Overflow)));
    assert!(scratch.is_empty());
    let bytes = framed(1, zstd_frame(&[0b10]));
    let mut reader = ByteReader::new(&bytes);
    let outcome =
        read_compressed_bitmap_on(true, 8, bytes.len(), ZSTD, &mut reader, &mut scratch);
    assert_eq!(outcome.unwrap(), vec![0b10]);
}

#[test]
fn validity_is_there_for_nulls() {
    let body = [0b10];
    let read = |buffers: &mut VecDeque<IpcBuffer>, length, null_count| {
        let mut reader = ByteReader::new(&body);
        let node = Node { length, null_count };
        read_validity(buffers, node, &mut reader, 0, true, None, &mut vec![])
    };
    let mut buffers = queue(&[(0, 1), (0, 1)]);
    assert_eq!(flags(&read(&mut buffers, 2, 1).unwrap().unwrap()), vec![false, true]);
    assert_eq!(buffers.len(), 1);
    // a field without nulls has a buffer, which is taken and not looked at
    let mut buffers = queue(&[(-1, -1), (0, 1)]);
    assert!(read(&mut buffers, 2, 0).unwrap().is_none());
    assert_eq!(buffers.len(), 1);
    assert!(read(&mut buffers, 2, -1).unwrap().is_none());
    assert!(buffers.is_empty());
}

#[test]
fn validity_needs_a_length_and_a_buffer() {
    let body = [0b10];
    let read = |buffers: &mut VecDeque<IpcBuffer>, length, null_count| {
        let mut reader = ByteReader::new(&body);
        let node = Node { length, null_count };
        read_validity(buffers, node, &mut reader, 0, true, None, &mut vec![])
    };
    let mut buffers = queue(&[(0, 1)]);
    let outcome = read(&mut buffers, -1, 0);
    assert!(matches!(outcome, Err(Error::Ipc(OutOfSpecKind::NegativeFooterLength))));
    assert_eq!(buffers.len(), 1);
    for null_count in [0, 1] {
        let outcome = read(&mut queue(&[]), 2, null_count);
        assert!(matches!(outcome, Err(Error::Ipc(OutOfSpecKind::ExpectedBuffer))));
    }
    let outcome = read(&mut buffers, 9, 1);
    assert!(matches!(
        outcome,
        Err(Error::Ipc(OutOfSpecKind::InvalidBitmap { length: 9, number_of_bits: 8 }))
    ));
}

#[test]
fn errors_come_from_their_kind() {
    let e = Error::from(OutOfSpecKind::ExpectedBuffer);
    assert!(matches!(e, Error::Ipc(OutOfSpecKind::ExpectedBuffer)));
}

#[test]
fn slots_of_every_width_are_read() {
    fn read<T: NativeType>(bytes: &[u8]) -> Vec<T> {
        read_uncompressed_buffer_on::<T>(true, &mut ByteReader::new(bytes), bytes.len(), 1, true)
            .unwrap()
    }
    assert_eq!(read::<u8>(&[1]), vec![1]);
    assert_eq!(read::<i8>(&[0xff]), vec![-1]);
    assert_eq!(read::<u16>(&[1, 2]), vec![0x0201]);
    assert_eq!(read::<i16>(&[0xfe, 0xff]), vec![-2]);
    assert_eq!(read::<u32>(&[1, 2, 3, 4]), vec![0x0403_0201]);
    assert_eq!(read::<i64>(&[0xfd, 0xff, 0xff, 0xff, 0xff, 0xff, 0xff, 0xff]), vec![-3]);
    assert_eq!(read::<u64>(&1234567890123u64.to_le_bytes()), vec![1234567890123]);
    assert_eq!(read::<i128>(&i128::MIN.to_le_bytes()), vec![i128::MIN]);
    assert_eq!(
        read::<DaysMs>(&[1, 0, 0, 0, 2, 0, 0, 0]),
        vec![DaysMs { days: 1, milliseconds: 2 }]
    );
}
