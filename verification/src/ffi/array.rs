//! Reading arrays from the C data interface and writing them to it.
use std::sync::Arc;
use vstd::prelude::*;

use crate::bitmap::Bitmap;
use crate::buffer::Buffer;
use crate::datatypes::{share, DataType, PhysicalType};
use crate::error::Error;
use crate::ffi::schema::get_child;
use crate::text::write_around;
use crate::types::{NativeType, Region};

verus! {

/// An array as the C data interface describes it. An absent value stands for a null
/// pointer or, once the array is released, for one to memory that was given up.
#[derive(Debug)]
pub struct ArrowArray {
    pub length: i64,
    pub null_count: i64,
    pub offset: i64,
    pub n_buffers: i64,
    pub n_children: i64,
    pub buffers: Option<Vec<Option<Region>>>,
    pub children: Option<Vec<Option<Box<ArrowArray>>>>,
    pub dictionary: Option<Box<ArrowArray>>,
    /// Whether the callback that releases the array is set
    pub release: bool,
}

impl ArrowArray {
    /// The slot after the last one, counted from the start of the memory.
    pub open spec fn end(self) -> int {
        (self.offset as usize) + (self.length as usize)
    }

    /// The region that the pointer `i` points to.
    pub open spec fn region(self, i: int) -> Option<Region> {
        self.buffers->0@[i]
    }

    /// Whether there is a pointer `i` to a buffer.
    pub open spec fn has_buffer(self, i: int) -> bool {
        &&& self.buffers is Some
        &&& 0 <= i < self.n_buffers as usize
        &&& i < self.buffers->0@.len()
    }

    /// The child `i`, when its pointer is there and is not null.
    pub open spec fn child(self, i: int) -> Option<Box<ArrowArray>> {
        match self.children {
            Some(children) if 0 <= i < children@.len() && i < self.n_children as usize =>
                children@[i],
            _ => None,
        }
    }
}

impl ArrowArray {
    /// Creates an empty [`ArrowArray`], which can be used to import data into.
    pub fn empty() -> (r: Self)
        ensures
            r == (ArrowArray {
                length: 0,
                null_count: 0,
                offset: 0,
                n_buffers: 0,
                n_children: 0,
                buffers: None,
                children: None,
                dictionary: None,
                release: false,
            }),
    {
        ArrowArray {
            length: 0,
            null_count: 0,
            offset: 0,
            n_buffers: 0,
            n_children: 0,
            buffers: None,
            children: None,
            dictionary: None,
            release: false,
        }
    }

    /// The length of the array
    pub fn len(&self) -> (r: usize)
        ensures
            r == self.length as usize,
    {
        self.length as usize
    }

    /// The offset of the array
    pub fn offset(&self) -> (r: usize)
        ensures
            r == self.offset as usize,
    {
        self.offset as usize
    }

    /// The null count of the array
    pub fn null_count(&self) -> (r: usize)
        ensures
            r == self.null_count as usize,
    {
        self.null_count as usize
    }

    /// This array once it has been released: its memory is given up, so that there is
    /// nothing left to point to, and there is no callback.
    pub open spec fn released(self) -> ArrowArray {
        ArrowArray { buffers: None, children: None, dictionary: None, release: false, ..self }
    }

    /// This array once it has been dropped: released, where it had a callback for that.
    pub open spec fn dropped(self) -> ArrowArray {
        if self.release {
            self.released()
        } else {
            self
        }
    }

    /// Releases the array, unless it has been released before.
    pub fn drop(&mut self)
        ensures
            *final(self) == old(self).dropped(),
    {
        if self.release {
            c_release_array(Some(self));
        }
    }
}

/// The callback that releases an exported array: gives up its buffers, its
/// children and its dictionary, and marks it as released.
pub fn c_release_array(array: Option<&mut ArrowArray>)
    requires
        array matches Some(a) ==> a.release,
    ensures
        array matches Some(a) ==> *final(a) == (*a).released(),
{
    match array {
        None => {},
        Some(array) => {
            array.buffers = None;
            array.children = None;
            array.dictionary = None;
            array.release = false;
        },
    }
}

/// Whether buffer 1 of this layout holds one offset more than there are slots.
pub open spec fn has_offsets(layout: PhysicalType) -> bool {
    match layout {
        PhysicalType::Utf8
        | PhysicalType::LargeUtf8
        | PhysicalType::Binary
        | PhysicalType::LargeBinary
        | PhysicalType::List
        | PhysicalType::LargeList
        | PhysicalType::Mapping => true,
        _ => false,
    }
}

/// The layouts whose buffer 2 is as long as the last offset of 32 bits says.
pub open spec fn has_bytes(layout: PhysicalType) -> bool {
    layout is Utf8 || layout is Binary
}

/// The layouts whose buffer 2 is as long as the last offset of 64 bits says.
pub open spec fn has_large_bytes(layout: PhysicalType) -> bool {
    layout is LargeUtf8 || layout is LargeBinary
}

/// Whether buffer `i` holds, for each slot, as many items as the type says.
pub open spec fn is_fixed_size(layout: PhysicalType, i: int) -> bool {
    i == 1 && (layout is FixedSizeBinary || layout is FixedSizeList)
}

/// Whether buffer 1 holds values of this type for all slots and one more.
pub open spec fn offsets_readable<T: NativeType>(array: ArrowArray) -> bool {
    &&& array.buffers is Some
    &&& array.buffers->0@.len() > 1
    &&& array.region(1) is Some
    &&& T::spec_values(array.region(1)->0) is Some
    &&& array.end() < T::spec_values(array.region(1)->0)->0@.len()
}

/// The offset after that of the last slot.
pub open spec fn last_offset<T: NativeType>(array: ArrowArray) -> T {
    T::spec_values(array.region(1)->0)->0@[array.end()]
}

/// The first slot that buffer `i` of the array has of the array's own.
pub open spec fn spec_buffer_offset(array: ArrowArray, data_type: DataType, i: int) -> int {
    let layout = data_type.physical();
    if i == 2 && (has_bytes(layout) || has_large_bytes(layout)) {
        0
    } else if i == 1 && layout is FixedSizeBinary {
        (array.offset as usize) * data_type.fixed_size()
    } else {
        (array.offset as usize) as int
    }
}

/// The number of slots of buffer `i`, those before the array's own included.
pub open spec fn spec_buffer_len(array: ArrowArray, data_type: DataType, i: int) -> int {
    let layout = data_type.physical();
    if is_fixed_size(layout, i) {
        data_type.fixed_size() * array.end()
    } else if i == 1 && has_offsets(layout) {
        array.end() + 1
    } else if i == 2 && has_bytes(layout) {
        (last_offset::<i32>(array) as usize) as int
    } else if i == 2 && has_large_bytes(layout) {
        (last_offset::<i64>(array) as usize) as int
    } else {
        array.end()
    }
}

/// Whether the number of slots of buffer `i` can be computed: it is in range,
/// and the offsets that it depends on can be read.
pub open spec fn len_defined(array: ArrowArray, data_type: DataType, i: int) -> bool {
    let layout = data_type.physical();
    &&& array.end() <= usize::MAX
    &&& is_fixed_size(layout, i) ==> data_type.fixed_size() * array.end() <= usize::MAX
    &&& i == 1 && has_offsets(layout) ==> array.end() < usize::MAX
    &&& i == 2 && has_bytes(layout) ==> array.end() < usize::MAX && offsets_readable::<i32>(array)
    &&& i == 2 && has_large_bytes(layout) ==> array.end() < usize::MAX && offsets_readable::<i64>(
        array,
    )
}

/// Returns the first slot of buffer `i` that is the array's own.
pub fn buffer_offset(array: &ArrowArray, data_type: &DataType, i: usize) -> (r: usize)
    requires
        spec_buffer_offset(*array, *data_type, i as int) <= usize::MAX,
    ensures
        r == spec_buffer_offset(*array, *data_type, i as int),
{
    match (data_type.to_physical_type(), i) {
        (PhysicalType::LargeUtf8, 2)
        | (PhysicalType::LargeBinary, 2)
        | (PhysicalType::Utf8, 2)
        | (PhysicalType::Binary, 2) => 0,
        (PhysicalType::FixedSizeBinary, 1) => {
            if let DataType::FixedSizeBinary(size) = data_type.to_logical_type() {
                (array.offset as usize) * *size
            } else {
                assert(false);
                0
            }
        },
        _ => array.offset as usize,
    }
}

/// Returns the length, in slots, of the buffer `i` (indexed according to the C data interface).
///
/// The bytes of a string array are as many as the last offset says, so that their
/// number is read from the buffer of offsets.
pub fn buffer_len(array: &ArrowArray, data_type: &DataType, i: usize) -> (r: Result<usize, Error>)
    requires
        len_defined(*array, *data_type, i as int),
    ensures
        r matches Ok(n) && n == spec_buffer_len(*array, *data_type, i as int),
    decreases i,
{
    Ok(
        match (data_type.to_physical_type(), i) {
            (PhysicalType::FixedSizeBinary, 1) => {
                if let DataType::FixedSizeBinary(size) = data_type.to_logical_type() {
                    *size * (array.offset as usize + array.length as usize)
                } else {
                    assert(false);
                    0
                }
            },
            (PhysicalType::FixedSizeList, 1) => {
                if let DataType::FixedSizeList(_, size) = data_type.to_logical_type() {
                    *size * (array.offset as usize + array.length as usize)
                } else {
                    assert(false);
                    0
                }
            },
            (PhysicalType::Utf8, 1)
            | (PhysicalType::LargeUtf8, 1)
            | (PhysicalType::Binary, 1)
            | (PhysicalType::LargeBinary, 1)
            | (PhysicalType::List, 1)
            | (PhysicalType::LargeList, 1)
            | (PhysicalType::Mapping, 1) => {
                // the offsets (buffer 1) are one more than the slots
                array.offset as usize + array.length as usize + 1
            },
            (PhysicalType::Utf8, 2) | (PhysicalType::Binary, 2) => {
                // the bytes (buffer 2) are as many as the last offset (buffer 1) says
                let len = buffer_len(array, data_type, 1)?;
                match last_value::<i32>(array, len) {
                    Some(offset) => offset as usize,
                    None => {
                        assert(false);
                        0
                    },
                }
            },
            (PhysicalType::LargeUtf8, 2) | (PhysicalType::LargeBinary, 2) => {
                // the bytes (buffer 2) are as many as the last offset (buffer 1) says
                let len = buffer_len(array, data_type, 1)?;
                match last_value::<i64>(array, len) {
                    Some(offset) => offset as usize,
                    None => {
                        assert(false);
                        0
                    },
                }
            },
            // the slots of every other buffer
            _ => array.offset as usize + array.length as usize,
        },
    )
}

/// The last of the first `len` values of buffer 1.
fn last_value<T: NativeType>(array: &ArrowArray, len: usize) -> (r: Option<T>)
    requires
        len == array.end() + 1,
    ensures
        r is Some <==> offsets_readable::<T>(*array),
        r matches Some(v) ==> v == last_offset::<T>(*array),
{
    if let Some(buffers) = &array.buffers {
        if buffers.len() > 1 {
            if let Some(region) = &buffers[1] {
                if let Some(values) = T::values(region) {
                    if len <= values.len() {
                        return Some(values[len - 1]);
                    }
                }
            }
        }
    }
    None
}

/// The text of the error for a null pointer to the buffers.
pub open spec fn null_buffers_message() -> Seq<char> {
    "The array buffers are null"@
}

/// The text of the error for a null pointer to buffer `i`.
pub open spec fn null_buffer_message(i: nat) -> Seq<char> {
    crate::text::around("The buffer at position "@, i, " is null"@)
}

/// The text of the error for a null pointer to the bitmap `i`.
pub open spec fn null_bitmap_message(i: nat) -> Seq<char> {
    crate::text::around(
        "The buffer "@,
        i,
        " is a null pointer and cannot be interpreted as a bitmap"@,
    )
}

/// Whether buffer `i` can be read as values of type `T`: its pointer exists, its
/// number of slots is defined, and what the pointer points to, if anything, are
/// at least that many values of that type.
pub open spec fn buffer_readable<T: NativeType>(
    array: ArrowArray,
    data_type: DataType,
    i: int,
) -> bool {
    &&& array.has_buffer(i)
    &&& len_defined(array, data_type, i)
    &&& spec_buffer_offset(array, data_type, i) <= spec_buffer_len(array, data_type, i)
    &&& array.region(i) matches Some(region) ==> {
        &&& T::spec_values(region) is Some
        &&& spec_buffer_len(array, data_type, i) <= T::spec_values(region)->0@.len()
    }
}

/// Whether buffer `i` can be read as bits: its pointer exists, and what it points
/// to, if anything, are bytes enough for all slots.
pub open spec fn bitmap_readable(array: ArrowArray, i: int) -> bool {
    &&& array.has_buffer(i)
    &&& array.end() + 7 <= usize::MAX
    &&& array.region(i) matches Some(region) ==> {
        &&& u8::spec_values(region) is Some
        &&& crate::bitmap::spec_bytes_for(array.end()) <= u8::spec_values(region)->0@.len()
    }
}

/// The slice of buffer `i` that is the array's own.
pub open spec fn own_buffer<T: NativeType>(
    array: ArrowArray,
    data_type: DataType,
    i: int,
) -> Buffer<T> {
    let offset = spec_buffer_offset(array, data_type, i);
    Buffer {
        data: T::spec_values(array.region(i)->0)->0,
        offset: offset as usize,
        length: (spec_buffer_len(array, data_type, i) - offset) as usize,
    }
}

/// The slice of the bitmap `i` that is the array's own.
pub open spec fn own_bitmap(array: ArrowArray, i: int) -> Bitmap {
    Bitmap {
        bytes: u8::spec_values(array.region(i)->0)->0,
        offset: array.offset as usize,
        length: array.length as usize,
    }
}

/// Interprets the buffer `index` as a [`Buffer`] of the array's own slots.
///
/// The caller guarantees that the buffer `index`, where its pointer is not null,
/// holds values of type `T`, as many as the array needs.
pub fn create_buffer<T: NativeType>(
    array: &ArrowArray,
    data_type: &DataType,
    index: usize,
) -> (r: Result<Buffer<T>, Error>)
    requires
        array.buffers is Some ==> buffer_readable::<T>(*array, *data_type, index as int),
    ensures
        match r {
            Ok(buffer) => {
                &&& array.buffers is Some && array.region(index as int) is Some
                &&& buffer.wf()
                &&& buffer == own_buffer::<T>(*array, *data_type, index as int)
            },
            Err(e) => if array.buffers is None {
                e.is_out_of_spec(null_buffers_message())
            } else {
                array.region(index as int) is None && e.is_out_of_spec(
                    null_buffer_message(index as nat),
                )
            },
        },
{
    let buffers = match &array.buffers {
        Some(buffers) => buffers,
        None => {
            return Err(Error::OutOfSpec("The array buffers are null".to_owned()));
        },
    };
    let region = &buffers[index];
    let len = buffer_len(array, data_type, index)?;
    let offset = buffer_offset(array, data_type, index);
    let values = match region {
        Some(region) => T::values(region),
        None => {
            return Err(
                Error::OutOfSpec(write_around("The buffer at position ", index, " is null")),
            );
        },
    };
    match values {
        Some(values) => Ok(Buffer::from_memory(values, len).slice(offset, len - offset)),
        None => {
            assert(false);
            Err(Error::Overflow)
        },
    }
}

/// Interprets the buffer `index` as a [`Bitmap`] of the array's own slots.
///
/// The caller guarantees that there is a buffer `index`, and that it holds bytes, as
/// many as the array needs, where its pointer is not null.
pub fn create_bitmap(array: &ArrowArray, index: usize) -> (r: Result<Bitmap, Error>)
    requires
        index < array.n_buffers as usize,
        array.buffers is Some ==> bitmap_readable(*array, index as int),
    ensures
        match r {
            Ok(bitmap) => {
                &&& array.buffers is Some && array.region(index as int) is Some
                &&& bitmap.wf()
                &&& bitmap == own_bitmap(*array, index as int)
            },
            Err(e) => if array.buffers is None {
                e.is_out_of_spec(null_buffers_message())
            } else {
                array.region(index as int) is None && e.is_out_of_spec(
                    null_bitmap_message(index as nat),
                )
            },
        },
{
    let buffers = match &array.buffers {
        Some(buffers) => buffers,
        None => {
            return Err(Error::OutOfSpec("The array buffers are null".to_owned()));
        },
    };
    let len = array.length as usize;
    let offset = array.offset as usize;
    let bytes = match &buffers[index] {
        Some(region) => u8::values(region),
        None => {
            return Err(
                Error::OutOfSpec(
                    write_around(
                        "The buffer ",
                        index,
                        " is a null pointer and cannot be interpreted as a bitmap",
                    ),
                ),
            );
        },
    };
    match bytes {
        Some(bytes) => Ok(Bitmap::from_memory(bytes, offset + len).slice(offset, len)),
        None => {
            assert(false);
            Err(Error::Overflow)
        },
    }
}

/// Whether there is a child `index`, as the type and the pointers say.
pub open spec fn child_readable(array: ArrowArray, data_type: DataType, index: int) -> bool {
    &&& !crate::ffi::schema::beyond_fields(data_type, index)
    &&& data_type.child(index) is Some ==> array.child(index) is Some
}

/// The child `index` of the array.
///
/// The caller guarantees that a child `index` that the type has is there.
pub fn create_child<'a>(
    array: &'a ArrowArray,
    field: &DataType,
    parent: Box<InternalArrowArray>,
    index: usize,
) -> (r: Result<ArrowArrayChild<'a>, Error>)
    requires
        child_readable(*array, *field, index as int),
    ensures
        match r {
            Ok(child) => {
                &&& field.child(index as int) == Some(child.data_type)
                &&& array.child(index as int) == Some(Box::new(*child.array))
                &&& child.parent == parent
            },
            Err(e) => field.child(index as int) is None && e.is_out_of_spec(
                crate::ffi::schema::no_child_message(index as nat),
            ),
        },
{
    let data_type = get_child(field, index)?;
    if let Some(children) = &array.children {
        if let Some(child) = &children[index] {
            return Ok(ArrowArrayChild::from_raw(child, data_type, parent));
        }
    }
    assert(false);
    Err(Error::Overflow)
}

/// The dictionary of the array; none for an array whose type is no dictionary.
///
/// The caller guarantees that the dictionary of a dictionary array is there.
pub fn create_dictionary<'a>(
    array: &'a ArrowArray,
    data_type: &DataType,
    parent: Box<InternalArrowArray>,
) -> (r: Result<Option<ArrowArrayChild<'a>>, Error>)
    requires
        data_type is Dictionary ==> array.dictionary is Some,
    ensures
        match *data_type {
            DataType::Dictionary(_, values, _) => {
                &&& r matches Ok(Some(child)) && child.data_type == *values
                    && *child.array == *array.dictionary->0 && child.parent == parent
            },
            _ => r matches Ok(None),
        },
{
    if let DataType::Dictionary(_, values, _) = data_type {
        let data_type = (**values).clone();
        if let Some(array) = &array.dictionary {
            Ok(Some(ArrowArrayChild::from_raw(array, data_type, parent)))
        } else {
            assert(false);
            Ok(None)
        }
    } else {
        Ok(None)
    }
}

/// An array together with its type, to be read from the C data interface.
#[derive(Debug)]
pub struct InternalArrowArray {
    // shared, since it does not change
    pub array: Arc<ArrowArray>,
    pub data_type: Arc<DataType>,
}

impl InternalArrowArray {
    /// Takes an array and its type.
    pub fn new(array: ArrowArray, data_type: DataType) -> (r: Self)
        ensures
            *r.array == array,
            *r.data_type == data_type,
    {
        InternalArrowArray { array: Arc::new(array), data_type: Arc::new(data_type) }
    }
}

impl Clone for InternalArrowArray {
    fn clone(&self) -> (r: Self)
        ensures
            r == *self,
    {
        InternalArrowArray { array: share(&self.array), data_type: share(&self.data_type) }
    }
}

/// A part of an [`InternalArrowArray`], together with its type.
#[derive(Debug)]
pub struct ArrowArrayChild<'a> {
    pub array: &'a ArrowArray,
    pub data_type: DataType,
    pub parent: Box<InternalArrowArray>,
}

impl<'a> ArrowArrayChild<'a> {
    /// Takes a part of `parent` and its type.
    pub fn from_raw(
        array: &'a ArrowArray,
        data_type: DataType,
        parent: Box<InternalArrowArray>,
    ) -> (r: Self)
        ensures
            *r.array == *array,
            r.data_type == data_type,
            r.parent == parent,
    {
        ArrowArrayChild { array, data_type, parent }
    }
}

/// An array, or a part of one, that can be read from the C data interface.
pub trait ArrowArrayRef {
    /// The array
    spec fn spec_array(&self) -> ArrowArray;

    /// The type of the array
    spec fn spec_data_type(&self) -> DataType;

    /// The array that this is a part of
    spec fn spec_parent(&self) -> Box<InternalArrowArray>;

    /// Another handle on the array that this is a part of.
    fn owner(&self) -> (r: Box<InternalArrowArray>)
        ensures
            r == self.spec_parent(),
    {
        Box::new((**self.parent()).clone())
    }

    /// The bits that say which slots are valid; none, where all of them are.
    ///
    /// The caller guarantees that the buffer 0 of an array with invalid slots holds bits.
    fn validity(&self) -> (r: Result<Option<Bitmap>, Error>)
        requires
            self.spec_array().null_count as usize != 0 ==> 0 < self.spec_array().n_buffers as usize,
            self.spec_array().null_count as usize != 0 && self.spec_array().buffers is Some
                ==> bitmap_readable(self.spec_array(), 0),
        ensures
            match r {
                Ok(None) => self.spec_array().null_count as usize == 0,
                Ok(Some(bitmap)) => {
                    &&& self.spec_array().null_count as usize != 0
                    &&& self.spec_array().buffers is Some && self.spec_array().region(0) is Some
                    &&& bitmap.wf()
                    &&& bitmap == own_bitmap(self.spec_array(), 0)
                },
                Err(e) => {
                    &&& self.spec_array().null_count as usize != 0
                    &&& if self.spec_array().buffers is None {
                        e.is_out_of_spec(null_buffers_message())
                    } else {
                        self.spec_array().region(0) is None && e.is_out_of_spec(
                            null_bitmap_message(0),
                        )
                    }
                },
            },
    {
        if self.array().null_count() == 0 {
            Ok(None)
        } else {
            match create_bitmap(self.array(), 0) {
                Ok(bitmap) => Ok(Some(bitmap)),
                Err(e) => Err(e),
            }
        }
    }

    /// The buffer `index`, as values of type `T`.
    ///
    /// The caller guarantees that the buffer `index` holds values of type `T`.
    fn buffer<T: NativeType>(&self, index: usize) -> (r: Result<Buffer<T>, Error>)
        requires
            self.spec_array().buffers is Some ==> buffer_readable::<T>(
                self.spec_array(),
                self.spec_data_type(),
                index as int,
            ),
        ensures
            match r {
                Ok(buffer) => {
                    &&& self.spec_array().buffers is Some
                    &&& self.spec_array().region(index as int) is Some
                    &&& buffer.wf()
                    &&& buffer == own_buffer::<T>(
                        self.spec_array(),
                        self.spec_data_type(),
                        index as int,
                    )
                },
                Err(e) => if self.spec_array().buffers is None {
                    e.is_out_of_spec(null_buffers_message())
                } else {
                    self.spec_array().region(index as int) is None && e.is_out_of_spec(
                        null_buffer_message(index as nat),
                    )
                },
            },
    {
        create_buffer::<T>(self.array(), self.data_type(), index)
    }

    /// The buffer `index`, as bits.
    ///
    /// The caller guarantees that the buffer `index` holds bits.
    fn bitmap(&self, index: usize) -> (r: Result<Bitmap, Error>)
        requires
            index < self.spec_array().n_buffers as usize,
            self.spec_array().buffers is Some ==> bitmap_readable(
                self.spec_array(),
                index as int,
            ),
        ensures
            match r {
                Ok(bitmap) => {
                    &&& self.spec_array().buffers is Some
                    &&& self.spec_array().region(index as int) is Some
                    &&& bitmap.wf()
                    &&& bitmap == own_bitmap(self.spec_array(), index as int)
                },
                Err(e) => if self.spec_array().buffers is None {
                    e.is_out_of_spec(null_buffers_message())
                } else {
                    self.spec_array().region(index as int) is None && e.is_out_of_spec(
                        null_bitmap_message(index as nat),
                    )
                },
            },
    {
        create_bitmap(self.array(), index)
    }

    /// The child `index`.
    ///
    /// The caller guarantees that a child `index` that the type has is there.
    fn child(&self, index: usize) -> (r: Result<ArrowArrayChild<'_>, Error>)
        requires
            child_readable(self.spec_array(), self.spec_data_type(), index as int),
        ensures
            match r {
                Ok(child) => {
                    &&& self.spec_data_type().child(index as int) == Some(child.data_type)
                    &&& self.spec_array().child(index as int) == Some(Box::new(*child.array))
                    &&& child.parent == self.spec_parent()
                },
                Err(e) => self.spec_data_type().child(index as int) is None && e.is_out_of_spec(
                    crate::ffi::schema::no_child_message(index as nat),
                ),
            },
    {
        create_child(self.array(), self.data_type(), self.owner(), index)
    }

    /// The dictionary; none for an array whose type is no dictionary.
    ///
    /// The caller guarantees that the dictionary of a dictionary array is there.
    fn dictionary(&self) -> (r: Result<Option<ArrowArrayChild<'_>>, Error>)
        requires
            self.spec_data_type() is Dictionary ==> self.spec_array().dictionary is Some,
        ensures
            match self.spec_data_type() {
                DataType::Dictionary(_, values, _) => {
                    &&& r matches Ok(Some(child)) && child.data_type == *values && *child.array
                        == *self.spec_array().dictionary->0 && child.parent == self.spec_parent()
                },
                _ => r matches Ok(None),
            },
    {
        create_dictionary(self.array(), self.data_type(), self.owner())
    }

    /// The number of buffers
    fn n_buffers(&self) -> (r: usize)
        ensures
            r == self.spec_array().n_buffers as usize,
    ;

    /// The array that this is a part of
    fn parent(&self) -> (r: &Box<InternalArrowArray>)
        ensures
            *r == self.spec_parent(),
    ;

    /// The array
    fn array(&self) -> (r: &ArrowArray)
        ensures
            *r == self.spec_array(),
    ;

    /// The type of the array
    fn data_type(&self) -> (r: &DataType)
        ensures
            *r == self.spec_data_type(),
    ;
}

impl ArrowArrayRef for Box<InternalArrowArray> {
    open spec fn spec_array(&self) -> ArrowArray {
        *self.array
    }

    open spec fn spec_data_type(&self) -> DataType {
        *self.data_type
    }

    open spec fn spec_parent(&self) -> Box<InternalArrowArray> {
        *self
    }

    fn n_buffers(&self) -> (r: usize) {
        self.array.n_buffers as usize
    }

    fn parent(&self) -> (r: &Box<InternalArrowArray>) {
        self
    }

    fn array(&self) -> (r: &ArrowArray) {
        &self.array
    }

    fn data_type(&self) -> (r: &DataType) {
        &self.data_type
    }
}

impl<'a> ArrowArrayRef for ArrowArrayChild<'a> {
    open spec fn spec_array(&self) -> ArrowArray {
        *self.array
    }

    open spec fn spec_data_type(&self) -> DataType {
        self.data_type
    }

    open spec fn spec_parent(&self) -> Box<InternalArrowArray> {
        self.parent
    }

    fn n_buffers(&self) -> (r: usize) {
        self.array.n_buffers as usize
    }

    fn parent(&self) -> (r: &Box<InternalArrowArray>) {
        &self.parent
    }

    fn array(&self) -> (r: &ArrowArray) {
        self.array
    }

    fn data_type(&self) -> (r: &DataType) {
        &self.data_type
    }
}

} // verus!
