//! The types of fixed size that a slot can be stored as.
use std::sync::Arc;
use vstd::prelude::*;
use vstd::slice::slice_subrange;

use crate::byte_order::{be_uint, le_uint};

verus! {

/// Days and milliseconds
#[derive(Debug, Clone, Copy, PartialEq, Eq, Structural)]
pub struct DaysMs {
    pub days: i32,
    pub milliseconds: i32,
}

/// Months, days and nanoseconds
#[derive(Debug, Clone, Copy, PartialEq, Eq, Structural)]
pub struct MonthsDaysNs {
    pub months: i32,
    pub days: i32,
    pub nanoseconds: i64,
}

/// A region of memory that holds values of one type. Floating point numbers
/// are held by their bits.
#[derive(Debug)]
pub enum Region {
    U8(Arc<Vec<u8>>),
    U16(Arc<Vec<u16>>),
    U32(Arc<Vec<u32>>),
    U64(Arc<Vec<u64>>),
    I8(Arc<Vec<i8>>),
    I16(Arc<Vec<i16>>),
    I32(Arc<Vec<i32>>),
    I64(Arc<Vec<i64>>),
    I128(Arc<Vec<i128>>),
    DaysMs(Arc<Vec<DaysMs>>),
    MonthsDaysNs(Arc<Vec<MonthsDaysNs>>),
}

impl Region {
    /// Another handle on the same memory.
    pub fn share(&self) -> (r: Region)
        ensures
            r == *self,
    {
        match self {
            Region::U8(values) => Region::U8(crate::datatypes::share(values)),
            Region::U16(values) => Region::U16(crate::datatypes::share(values)),
            Region::U32(values) => Region::U32(crate::datatypes::share(values)),
            Region::U64(values) => Region::U64(crate::datatypes::share(values)),
            Region::I8(values) => Region::I8(crate::datatypes::share(values)),
            Region::I16(values) => Region::I16(crate::datatypes::share(values)),
            Region::I32(values) => Region::I32(crate::datatypes::share(values)),
            Region::I64(values) => Region::I64(crate::datatypes::share(values)),
            Region::I128(values) => Region::I128(crate::datatypes::share(values)),
            Region::DaysMs(values) => Region::DaysMs(crate::datatypes::share(values)),
            Region::MonthsDaysNs(values) => Region::MonthsDaysNs(crate::datatypes::share(values)),
        }
    }
}

/// The `i`-th of the pieces of `n` bytes that `bytes` is made of.
pub open spec fn piece(bytes: Seq<u8>, n: nat, i: int) -> Seq<u8> {
    bytes.subrange(i * n, i * n + n)
}

/// `bytemuck::cast_slice_mut` from `[u8; N]` to `u8`: the slots as one slice of
/// bytes. The slice has `N` bytes for each slot, holds what the slots held, and
/// what is written to it is written to the slots.
#[verifier::external_body]
fn slots_as_bytes<const N: usize>(slots: &mut Vec<[u8; N]>) -> (r: &mut [u8])
    requires
        N > 0,
    ensures
        r@.len() == old(slots)@.len() * N,
        forall|i: int|
            0 <= i < old(slots)@.len() ==> (#[trigger] old(slots)@[i])@ == piece(r@, N as nat, i),
        final(slots)@.len() == old(slots)@.len(),
        forall|i: int|
            0 <= i < final(slots)@.len() ==> (#[trigger] final(slots)@[i])@ == piece(
                final(r)@,
                N as nat,
                i,
            ),
{
    bytemuck::cast_slice_mut::<[u8; N], u8>(slots)
}

/// `length` slots of `N` bytes each, all zero.
fn zero_slots<const N: usize>(zero: [u8; N], length: usize) -> (r: Vec<[u8; N]>)
    requires
        zero@ == Seq::new(N as nat, |k: int| 0u8),
        length * N <= isize::MAX,
    ensures
        r@.len() == length,
        forall|i: int|
            0 <= i < length ==> (#[trigger] r@[i])@ == Seq::new(N as nat, |k: int| 0u8),
{
    let mut r: Vec<[u8; N]> = Vec::with_capacity(length);
    while r.len() < length
        invariant
            zero@ == Seq::new(N as nat, |k: int| 0u8),
            r@.len() <= length,
            forall|i: int|
                0 <= i < r@.len() ==> (#[trigger] r@[i])@ == Seq::new(N as nat, |k: int| 0u8),
        decreases length - r@.len(),
    {
        r.push(zero);
    }
    r
}

/// A type of fixed size whose values can be read from memory and from bytes.
pub trait NativeType: Sized + Copy {
    /// The bytes of one value
    type Bytes: Copy;

    /// The number of bytes of one value
    spec fn spec_slot_size() -> nat;

    /// The name of the type
    spec fn spec_slot_type() -> Seq<char>;

    /// The value that these bytes hold, the least significant byte first
    spec fn spec_from_le(bytes: Seq<u8>) -> Self;

    /// The value that these bytes hold, the most significant byte first
    spec fn spec_from_be(bytes: Seq<u8>) -> Self;

    /// The bytes of this value, the least significant byte first
    spec fn spec_to_le(self) -> Seq<u8>;

    /// The bytes of one value, put into the other order
    spec fn spec_swapped(bytes: Seq<u8>) -> Seq<u8>;

    /// The bytes of one value, in order
    spec fn spec_bytes(bytes: Self::Bytes) -> Seq<u8>;

    /// The values of a region of this type; none for a region of another type
    spec fn spec_values(region: Region) -> Option<Arc<Vec<Self>>>;

    /// The bytes of a value are read as that value.
    proof fn law_to_le(self)
        ensures
            self.spec_to_le().len() == Self::spec_slot_size() > 0,
            Self::spec_from_le(self.spec_to_le()) == self,
    ;

    /// Reading the swapped bytes in the other order gives the same value, and swapping
    /// twice gives the bytes back.
    proof fn law_swapped(bytes: Seq<u8>)
        requires
            bytes.len() == Self::spec_slot_size(),
        ensures
            Self::spec_swapped(bytes).len() == bytes.len(),
            Self::spec_swapped(Self::spec_swapped(bytes)) == bytes,
            Self::spec_from_be(Self::spec_swapped(bytes)) == Self::spec_from_le(bytes),
            Self::spec_from_le(Self::spec_swapped(bytes)) == Self::spec_from_be(bytes),
    ;

    /// The number of bytes of one value
    fn slot_size() -> (r: usize)
        ensures
            r == Self::spec_slot_size(),
            0 < r <= 16,
    ;

    /// The name of the type
    fn slot_type() -> (r: &'static str)
        ensures
            r@ == Self::spec_slot_type(),
    ;

    /// As many values as asked for, all of whose bytes are zero
    fn zeroed(length: usize) -> (r: Vec<Self::Bytes>)
        requires
            length * Self::spec_slot_size() <= isize::MAX,
        ensures
            r@.len() == length,
            forall|i: int|
                0 <= i < length ==> Self::spec_bytes(#[trigger] r@[i]) == Seq::new(
                    Self::spec_slot_size(),
                    |k: int| 0u8,
                ),
    ;

    /// The bytes of all slots as one slice
    fn as_bytes_mut(slots: &mut Vec<Self::Bytes>) -> (r: &mut [u8])
        ensures
            r@.len() == old(slots)@.len() * Self::spec_slot_size(),
            final(slots)@.len() == old(slots)@.len(),
            forall|i: int|
                0 <= i < final(slots)@.len() ==> Self::spec_bytes(#[trigger] final(slots)@[i])
                    == piece(final(r)@, Self::spec_slot_size(), i),
    ;

    /// Reads a value, the least significant byte first
    fn from_le_bytes(bytes: Self::Bytes) -> (r: Self)
        ensures
            r == Self::spec_from_le(Self::spec_bytes(bytes)),
    ;

    /// Reads a value, the most significant byte first
    fn from_be_bytes(bytes: Self::Bytes) -> (r: Self)
        ensures
            r == Self::spec_from_be(Self::spec_bytes(bytes)),
    ;

    /// The values of a region of this type
    fn values(region: &Region) -> (r: Option<&Arc<Vec<Self>>>)
        ensures
            match r {
                Some(values) => Self::spec_values(*region) == Some(*values),
                None => Self::spec_values(*region) is None,
            },
    ;

    /// The region that holds these values
    fn into_region(values: Arc<Vec<Self>>) -> (r: Region)
        ensures
            Self::spec_values(r) == Some(values),
    ;
}

fn i8_from_bits(bits: u8) -> (r: i8)
    ensures
        r == crate::byte_order::signed(bits as nat, 0x80),
{
    if bits < 0x80 {
        bits as i8
    } else {
        -((u8::MAX - bits) as i8) - 1
    }
}

fn i16_from_bits(bits: u16) -> (r: i16)
    ensures
        r == crate::byte_order::signed(bits as nat, 0x8000),
{
    if bits < 0x8000 {
        bits as i16
    } else {
        -((u16::MAX - bits) as i16) - 1
    }
}

fn i32_from_bits(bits: u32) -> (r: i32)
    ensures
        r == crate::byte_order::signed(bits as nat, 0x8000_0000),
{
    if bits < 0x8000_0000 {
        bits as i32
    } else {
        -((u32::MAX - bits) as i32) - 1
    }
}

fn i64_from_bits(bits: u64) -> (r: i64)
    ensures
        r == crate::byte_order::signed(bits as nat, 0x8000_0000_0000_0000),
{
    if bits < 0x8000_0000_0000_0000 {
        bits as i64
    } else {
        -((u64::MAX - bits) as i64) - 1
    }
}

fn i128_from_bits(bits: u128) -> (r: i128)
    ensures
        r == crate::byte_order::signed(bits as nat, 0x8000_0000_0000_0000_0000_0000_0000_0000),
{
    if bits < 0x8000_0000_0000_0000_0000_0000_0000_0000 {
        bits as i128
    } else {
        -((u128::MAX - bits) as i128) - 1
    }
}

impl NativeType for u8 {
    type Bytes = [u8; 1];

    open spec fn spec_slot_size() -> nat {
        1
    }

    open spec fn spec_slot_type() -> Seq<char> {
        "u8"@
    }

    open spec fn spec_from_le(bytes: Seq<u8>) -> u8 {
        crate::byte_order::le_value(bytes) as u8
    }

    open spec fn spec_from_be(bytes: Seq<u8>) -> u8 {
        crate::byte_order::be_value(bytes) as u8
    }

    open spec fn spec_to_le(self) -> Seq<u8> {
        crate::byte_order::le_bytes(self as nat, 1)
    }

    proof fn law_to_le(self) {
        crate::byte_order::lemma_pow256_values();
        crate::byte_order::lemma_le_bytes(self as nat, 1);
    }

    open spec fn spec_swapped(bytes: Seq<u8>) -> Seq<u8> {
        bytes
    }

    proof fn law_swapped(bytes: Seq<u8>) {
        assert(bytes.reverse() =~= bytes);
    }

    open spec fn spec_bytes(bytes: [u8; 1]) -> Seq<u8> {
        bytes@
    }

    open spec fn spec_values(region: Region) -> Option<Arc<Vec<u8>>> {
        match region {
            Region::U8(values) => Some(values),
            _ => None,
        }
    }

    fn slot_size() -> (r: usize) {
        1
    }

    fn slot_type() -> (r: &'static str) {
        "u8"
    }

    fn zeroed(length: usize) -> (r: Vec<[u8; 1]>) {
        let zero: [u8; 1] = [0];
        assert(zero@ =~= Seq::new(1, |k: int| 0u8));
        zero_slots::<1>(zero, length)
    }

    fn as_bytes_mut(slots: &mut Vec<[u8; 1]>) -> (r: &mut [u8]) {
        slots_as_bytes::<1>(slots)
    }

    fn from_le_bytes(bytes: [u8; 1]) -> (r: u8) {
        proof {
            crate::byte_order::lemma_pow256_values();
        }
        le_uint(bytes.as_slice()) as u8
    }

    fn from_be_bytes(bytes: [u8; 1]) -> (r: u8) {
        proof {
            crate::byte_order::lemma_pow256_values();
        }
        be_uint(bytes.as_slice()) as u8
    }

    fn values(region: &Region) -> (r: Option<&Arc<Vec<u8>>>) {
        match region {
            Region::U8(values) => Some(values),
            _ => None,
        }
    }

    fn into_region(values: Arc<Vec<u8>>) -> (r: Region) {
        Region::U8(values)
    }
}

impl NativeType for u16 {
    type Bytes = [u8; 2];

    open spec fn spec_slot_size() -> nat {
        2
    }

    open spec fn spec_slot_type() -> Seq<char> {
        "u16"@
    }

    open spec fn spec_from_le(bytes: Seq<u8>) -> u16 {
        crate::byte_order::le_value(bytes) as u16
    }

    open spec fn spec_from_be(bytes: Seq<u8>) -> u16 {
        crate::byte_order::be_value(bytes) as u16
    }

    open spec fn spec_to_le(self) -> Seq<u8> {
        crate::byte_order::le_bytes(self as nat, 2)
    }

    proof fn law_to_le(self) {
        crate::byte_order::lemma_pow256_values();
        crate::byte_order::lemma_le_bytes(self as nat, 2);
    }

    open spec fn spec_swapped(bytes: Seq<u8>) -> Seq<u8> {
        bytes.reverse()
    }

    proof fn law_swapped(bytes: Seq<u8>) {
        assert(bytes.reverse().reverse() =~= bytes);
    }

    open spec fn spec_bytes(bytes: [u8; 2]) -> Seq<u8> {
        bytes@
    }

    open spec fn spec_values(region: Region) -> Option<Arc<Vec<u16>>> {
        match region {
            Region::U16(values) => Some(values),
            _ => None,
        }
    }

    fn slot_size() -> (r: usize) {
        2
    }

    fn slot_type() -> (r: &'static str) {
        "u16"
    }

    fn zeroed(length: usize) -> (r: Vec<[u8; 2]>) {
        let zero: [u8; 2] = [0, 0];
        assert(zero@ =~= Seq::new(2, |k: int| 0u8));
        zero_slots::<2>(zero, length)
    }

    fn as_bytes_mut(slots: &mut Vec<[u8; 2]>) -> (r: &mut [u8]) {
        slots_as_bytes::<2>(slots)
    }

    fn from_le_bytes(bytes: [u8; 2]) -> (r: u16) {
        proof {
            crate::byte_order::lemma_pow256_values();
        }
        le_uint(bytes.as_slice()) as u16
    }

    fn from_be_bytes(bytes: [u8; 2]) -> (r: u16) {
        proof {
            crate::byte_order::lemma_pow256_values();
        }
        be_uint(bytes.as_slice()) as u16
    }

    fn values(region: &Region) -> (r: Option<&Arc<Vec<u16>>>) {
        match region {
            Region::U16(values) => Some(values),
            _ => None,
        }
    }

    fn into_region(values: Arc<Vec<u16>>) -> (r: Region) {
        Region::U16(values)
    }
}

impl NativeType for u32 {
    type Bytes = [u8; 4];

    open spec fn spec_slot_size() -> nat {
        4
    }

    open spec fn spec_slot_type() -> Seq<char> {
        "u32"@
    }

    open spec fn spec_from_le(bytes: Seq<u8>) -> u32 {
        crate::byte_order::le_value(bytes) as u32
    }

    open spec fn spec_from_be(bytes: Seq<u8>) -> u32 {
        crate::byte_order::be_value(bytes) as u32
    }

    open spec fn spec_to_le(self) -> Seq<u8> {
        crate::byte_order::le_bytes(self as nat, 4)
    }

    proof fn law_to_le(self) {
        crate::byte_order::lemma_pow256_values();
        crate::byte_order::lemma_le_bytes(self as nat, 4);
    }

    open spec fn spec_swapped(bytes: Seq<u8>) -> Seq<u8> {
        bytes.reverse()
    }

    proof fn law_swapped(bytes: Seq<u8>) {
        assert(bytes.reverse().reverse() =~= bytes);
    }

    open spec fn spec_bytes(bytes: [u8; 4]) -> Seq<u8> {
        bytes@
    }

    open spec fn spec_values(region: Region) -> Option<Arc<Vec<u32>>> {
        match region {
            Region::U32(values) => Some(values),
            _ => None,
        }
    }

    fn slot_size() -> (r: usize) {
        4
    }

    fn slot_type() -> (r: &'static str) {
        "u32"
    }

    fn zeroed(length: usize) -> (r: Vec<[u8; 4]>) {
        let zero: [u8; 4] = [0, 0, 0, 0];
        assert(zero@ =~= Seq::new(4, |k: int| 0u8));
        zero_slots::<4>(zero, length)
    }

    fn as_bytes_mut(slots: &mut Vec<[u8; 4]>) -> (r: &mut [u8]) {
        slots_as_bytes::<4>(slots)
    }

    fn from_le_bytes(bytes: [u8; 4]) -> (r: u32) {
        proof {
            crate::byte_order::lemma_pow256_values();
        }
        le_uint(bytes.as_slice()) as u32
    }

    fn from_be_bytes(bytes: [u8; 4]) -> (r: u32) {
        proof {
            crate::byte_order::lemma_pow256_values();
        }
        be_uint(bytes.as_slice()) as u32
    }

    fn values(region: &Region) -> (r: Option<&Arc<Vec<u32>>>) {
        match region {
            Region::U32(values) => Some(values),
            _ => None,
        }
    }

    fn into_region(values: Arc<Vec<u32>>) -> (r: Region) {
        Region::U32(values)
    }
}

impl NativeType for u64 {
    type Bytes = [u8; 8];

    open spec fn spec_slot_size() -> nat {
        8
    }

    open spec fn spec_slot_type() -> Seq<char> {
        "u64"@
    }

    open spec fn spec_from_le(bytes: Seq<u8>) -> u64 {
        crate::byte_order::le_value(bytes) as u64
    }

    open spec fn spec_from_be(bytes: Seq<u8>) -> u64 {
        crate::byte_order::be_value(bytes) as u64
    }

    open spec fn spec_to_le(self) -> Seq<u8> {
        crate::byte_order::le_bytes(self as nat, 8)
    }

    proof fn law_to_le(self) {
        crate::byte_order::lemma_pow256_values();
        crate::byte_order::lemma_le_bytes(self as nat, 8);
    }

    open spec fn spec_swapped(bytes: Seq<u8>) -> Seq<u8> {
        bytes.reverse()
    }

    proof fn law_swapped(bytes: Seq<u8>) {
        assert(bytes.reverse().reverse() =~= bytes);
    }

    open spec fn spec_bytes(bytes: [u8; 8]) -> Seq<u8> {
        bytes@
    }

    open spec fn spec_values(region: Region) -> Option<Arc<Vec<u64>>> {
        match region {
            Region::U64(values) => Some(values),
            _ => None,
        }
    }

    fn slot_size() -> (r: usize) {
        8
    }

    fn slot_type() -> (r: &'static str) {
        "u64"
    }

    fn zeroed(length: usize) -> (r: Vec<[u8; 8]>) {
        let zero: [u8; 8] = [0, 0, 0, 0, 0, 0, 0, 0];
        assert(zero@ =~= Seq::new(8, |k: int| 0u8));
        zero_slots::<8>(zero, length)
    }

    fn as_bytes_mut(slots: &mut Vec<[u8; 8]>) -> (r: &mut [u8]) {
        slots_as_bytes::<8>(slots)
    }

    fn from_le_bytes(bytes: [u8; 8]) -> (r: u64) {
        proof {
            crate::byte_order::lemma_pow256_values();
        }
        le_uint(bytes.as_slice()) as u64
    }

    fn from_be_bytes(bytes: [u8; 8]) -> (r: u64) {
        proof {
            crate::byte_order::lemma_pow256_values();
        }
        be_uint(bytes.as_slice()) as u64
    }

    fn values(region: &Region) -> (r: Option<&Arc<Vec<u64>>>) {
        match region {
            Region::U64(values) => Some(values),
            _ => None,
        }
    }

    fn into_region(values: Arc<Vec<u64>>) -> (r: Region) {
        Region::U64(values)
    }
}

impl NativeType for i8 {
    type Bytes = [u8; 1];

    open spec fn spec_slot_size() -> nat {
        1
    }

    open spec fn spec_slot_type() -> Seq<char> {
        "i8"@
    }

    open spec fn spec_from_le(bytes: Seq<u8>) -> i8 {
        crate::byte_order::signed(crate::byte_order::le_value(bytes), 0x80) as i8
    }

    open spec fn spec_from_be(bytes: Seq<u8>) -> i8 {
        crate::byte_order::signed(crate::byte_order::be_value(bytes), 0x80) as i8
    }

    open spec fn spec_to_le(self) -> Seq<u8> {
        crate::byte_order::le_bytes(
            crate::byte_order::unsigned(self as int, 0x80),
            1,
        )
    }

    proof fn law_to_le(self) {
        crate::byte_order::lemma_pow256_values();
        crate::byte_order::lemma_le_bytes(
            crate::byte_order::unsigned(self as int, 0x80),
            1,
        );
    }

    open spec fn spec_swapped(bytes: Seq<u8>) -> Seq<u8> {
        bytes
    }

    proof fn law_swapped(bytes: Seq<u8>) {
        assert(bytes.reverse() =~= bytes);
    }

    open spec fn spec_bytes(bytes: [u8; 1]) -> Seq<u8> {
        bytes@
    }

    open spec fn spec_values(region: Region) -> Option<Arc<Vec<i8>>> {
        match region {
            Region::I8(values) => Some(values),
            _ => None,
        }
    }

    fn slot_size() -> (r: usize) {
        1
    }

    fn slot_type() -> (r: &'static str) {
        "i8"
    }

    fn zeroed(length: usize) -> (r: Vec<[u8; 1]>) {
        let zero: [u8; 1] = [0];
        assert(zero@ =~= Seq::new(1, |k: int| 0u8));
        zero_slots::<1>(zero, length)
    }

    fn as_bytes_mut(slots: &mut Vec<[u8; 1]>) -> (r: &mut [u8]) {
        slots_as_bytes::<1>(slots)
    }

    fn from_le_bytes(bytes: [u8; 1]) -> (r: i8) {
        proof {
            crate::byte_order::lemma_pow256_values();
        }
        i8_from_bits(le_uint(bytes.as_slice()) as u8)
    }

    fn from_be_bytes(bytes: [u8; 1]) -> (r: i8) {
        proof {
            crate::byte_order::lemma_pow256_values();
        }
        i8_from_bits(be_uint(bytes.as_slice()) as u8)
    }

    fn values(region: &Region) -> (r: Option<&Arc<Vec<i8>>>) {
        match region {
            Region::I8(values) => Some(values),
            _ => None,
        }
    }

    fn into_region(values: Arc<Vec<i8>>) -> (r: Region) {
        Region::I8(values)
    }
}

impl NativeType for i16 {
    type Bytes = [u8; 2];

    open spec fn spec_slot_size() -> nat {
        2
    }

    open spec fn spec_slot_type() -> Seq<char> {
        "i16"@
    }

    open spec fn spec_from_le(bytes: Seq<u8>) -> i16 {
        crate::byte_order::signed(crate::byte_order::le_value(bytes), 0x8000) as i16
    }

    open spec fn spec_from_be(bytes: Seq<u8>) -> i16 {
        crate::byte_order::signed(crate::byte_order::be_value(bytes), 0x8000) as i16
    }

    open spec fn spec_to_le(self) -> Seq<u8> {
        crate::byte_order::le_bytes(
            crate::byte_order::unsigned(self as int, 0x8000),
            2,
        )
    }

    proof fn law_to_le(self) {
        crate::byte_order::lemma_pow256_values();
        crate::byte_order::lemma_le_bytes(
            crate::byte_order::unsigned(self as int, 0x8000),
            2,
        );
    }

    open spec fn spec_swapped(bytes: Seq<u8>) -> Seq<u8> {
        bytes.reverse()
    }

    proof fn law_swapped(bytes: Seq<u8>) {
        assert(bytes.reverse().reverse() =~= bytes);
    }

    open spec fn spec_bytes(bytes: [u8; 2]) -> Seq<u8> {
        bytes@
    }

    open spec fn spec_values(region: Region) -> Option<Arc<Vec<i16>>> {
        match region {
            Region::I16(values) => Some(values),
            _ => None,
        }
    }

    fn slot_size() -> (r: usize) {
        2
    }

    fn slot_type() -> (r: &'static str) {
        "i16"
    }

    fn zeroed(length: usize) -> (r: Vec<[u8; 2]>) {
        let zero: [u8; 2] = [0, 0];
        assert(zero@ =~= Seq::new(2, |k: int| 0u8));
        zero_slots::<2>(zero, length)
    }

    fn as_bytes_mut(slots: &mut Vec<[u8; 2]>) -> (r: &mut [u8]) {
        slots_as_bytes::<2>(slots)
    }

    fn from_le_bytes(bytes: [u8; 2]) -> (r: i16) {
        proof {
            crate::byte_order::lemma_pow256_values();
        }
        i16_from_bits(le_uint(bytes.as_slice()) as u16)
    }

    fn from_be_bytes(bytes: [u8; 2]) -> (r: i16) {
        proof {
            crate::byte_order::lemma_pow256_values();
        }
        i16_from_bits(be_uint(bytes.as_slice()) as u16)
    }

    fn values(region: &Region) -> (r: Option<&Arc<Vec<i16>>>) {
        match region {
            Region::I16(values) => Some(values),
            _ => None,
        }
    }

    fn into_region(values: Arc<Vec<i16>>) -> (r: Region) {
        Region::I16(values)
    }
}

impl NativeType for i32 {
    type Bytes = [u8; 4];

    open spec fn spec_slot_size() -> nat {
        4
    }

    open spec fn spec_slot_type() -> Seq<char> {
        "i32"@
    }

    open spec fn spec_from_le(bytes: Seq<u8>) -> i32 {
        crate::byte_order::signed(crate::byte_order::le_value(bytes), 0x8000_0000) as i32
    }

    open spec fn spec_from_be(bytes: Seq<u8>) -> i32 {
        crate::byte_order::signed(crate::byte_order::be_value(bytes), 0x8000_0000) as i32
    }

    open spec fn spec_to_le(self) -> Seq<u8> {
        crate::byte_order::le_bytes(
            crate::byte_order::unsigned(self as int, 0x8000_0000),
            4,
        )
    }

    proof fn law_to_le(self) {
        crate::byte_order::lemma_pow256_values();
        crate::byte_order::lemma_le_bytes(
            crate::byte_order::unsigned(self as int, 0x8000_0000),
            4,
        );
    }

    open spec fn spec_swapped(bytes: Seq<u8>) -> Seq<u8> {
        bytes.reverse()
    }

    proof fn law_swapped(bytes: Seq<u8>) {
        assert(bytes.reverse().reverse() =~= bytes);
    }

    open spec fn spec_bytes(bytes: [u8; 4]) -> Seq<u8> {
        bytes@
    }

    open spec fn spec_values(region: Region) -> Option<Arc<Vec<i32>>> {
        match region {
            Region::I32(values) => Some(values),
            _ => None,
        }
    }

    fn slot_size() -> (r: usize) {
        4
    }

    fn slot_type() -> (r: &'static str) {
        "i32"
    }

    fn zeroed(length: usize) -> (r: Vec<[u8; 4]>) {
        let zero: [u8; 4] = [0, 0, 0, 0];
        assert(zero@ =~= Seq::new(4, |k: int| 0u8));
        zero_slots::<4>(zero, length)
    }

    fn as_bytes_mut(slots: &mut Vec<[u8; 4]>) -> (r: &mut [u8]) {
        slots_as_bytes::<4>(slots)
    }

    fn from_le_bytes(bytes: [u8; 4]) -> (r: i32) {
        proof {
            crate::byte_order::lemma_pow256_values();
        }
        i32_from_bits(le_uint(bytes.as_slice()) as u32)
    }

    fn from_be_bytes(bytes: [u8; 4]) -> (r: i32) {
        proof {
            crate::byte_order::lemma_pow256_values();
        }
        i32_from_bits(be_uint(bytes.as_slice()) as u32)
    }

    fn values(region: &Region) -> (r: Option<&Arc<Vec<i32>>>) {
        match region {
            Region::I32(values) => Some(values),
            _ => None,
        }
    }

    fn into_region(values: Arc<Vec<i32>>) -> (r: Region) {
        Region::I32(values)
    }
}

impl NativeType for i64 {
    type Bytes = [u8; 8];

    open spec fn spec_slot_size() -> nat {
        8
    }

    open spec fn spec_slot_type() -> Seq<char> {
        "i64"@
    }

    open spec fn spec_from_le(bytes: Seq<u8>) -> i64 {
        crate::byte_order::signed(crate::byte_order::le_value(bytes), 0x8000_0000_0000_0000) as i64
    }

    open spec fn spec_from_be(bytes: Seq<u8>) -> i64 {
        crate::byte_order::signed(crate::byte_order::be_value(bytes), 0x8000_0000_0000_0000) as i64
    }

    open spec fn spec_to_le(self) -> Seq<u8> {
        crate::byte_order::le_bytes(
            crate::byte_order::unsigned(self as int, 0x8000_0000_0000_0000),
            8,
        )
    }

    proof fn law_to_le(self) {
        crate::byte_order::lemma_pow256_values();
        crate::byte_order::lemma_le_bytes(
            crate::byte_order::unsigned(self as int, 0x8000_0000_0000_0000),
            8,
        );
    }

    open spec fn spec_swapped(bytes: Seq<u8>) -> Seq<u8> {
        bytes.reverse()
    }

    proof fn law_swapped(bytes: Seq<u8>) {
        assert(bytes.reverse().reverse() =~= bytes);
    }

    open spec fn spec_bytes(bytes: [u8; 8]) -> Seq<u8> {
        bytes@
    }

    open spec fn spec_values(region: Region) -> Option<Arc<Vec<i64>>> {
        match region {
            Region::I64(values) => Some(values),
            _ => None,
        }
    }

    fn slot_size() -> (r: usize) {
        8
    }

    fn slot_type() -> (r: &'static str) {
        "i64"
    }

    fn zeroed(length: usize) -> (r: Vec<[u8; 8]>) {
        let zero: [u8; 8] = [0, 0, 0, 0, 0, 0, 0, 0];
        assert(zero@ =~= Seq::new(8, |k: int| 0u8));
        zero_slots::<8>(zero, length)
    }

    fn as_bytes_mut(slots: &mut Vec<[u8; 8]>) -> (r: &mut [u8]) {
        slots_as_bytes::<8>(slots)
    }

    fn from_le_bytes(bytes: [u8; 8]) -> (r: i64) {
        proof {
            crate::byte_order::lemma_pow256_values();
        }
        i64_from_bits(le_uint(bytes.as_slice()) as u64)
    }

    fn from_be_bytes(bytes: [u8; 8]) -> (r: i64) {
        proof {
            crate::byte_order::lemma_pow256_values();
        }
        i64_from_bits(be_uint(bytes.as_slice()) as u64)
    }

    fn values(region: &Region) -> (r: Option<&Arc<Vec<i64>>>) {
        match region {
            Region::I64(values) => Some(values),
            _ => None,
        }
    }

    fn into_region(values: Arc<Vec<i64>>) -> (r: Region) {
        Region::I64(values)
    }
}

impl NativeType for i128 {
    type Bytes = [u8; 16];

    open spec fn spec_slot_size() -> nat {
        16
    }

    open spec fn spec_slot_type() -> Seq<char> {
        "i128"@
    }

    open spec fn spec_from_le(bytes: Seq<u8>) -> i128 {
        crate::byte_order::signed(crate::byte_order::le_value(bytes), 0x8000_0000_0000_0000_0000_0000_0000_0000) as i128
    }

    open spec fn spec_from_be(bytes: Seq<u8>) -> i128 {
        crate::byte_order::signed(crate::byte_order::be_value(bytes), 0x8000_0000_0000_0000_0000_0000_0000_0000) as i128
    }

    open spec fn spec_to_le(self) -> Seq<u8> {
        crate::byte_order::le_bytes(
            crate::byte_order::unsigned(self as int, 0x8000_0000_0000_0000_0000_0000_0000_0000),
            16,
        )
    }

    proof fn law_to_le(self) {
        crate::byte_order::lemma_pow256_values();
        crate::byte_order::lemma_le_bytes(
            crate::byte_order::unsigned(self as int, 0x8000_0000_0000_0000_0000_0000_0000_0000),
            16,
        );
    }

    open spec fn spec_swapped(bytes: Seq<u8>) -> Seq<u8> {
        bytes.reverse()
    }

    proof fn law_swapped(bytes: Seq<u8>) {
        assert(bytes.reverse().reverse() =~= bytes);
    }

    open spec fn spec_bytes(bytes: [u8; 16]) -> Seq<u8> {
        bytes@
    }

    open spec fn spec_values(region: Region) -> Option<Arc<Vec<i128>>> {
        match region {
            Region::I128(values) => Some(values),
            _ => None,
        }
    }

    fn slot_size() -> (r: usize) {
        16
    }

    fn slot_type() -> (r: &'static str) {
        "i128"
    }

    fn zeroed(length: usize) -> (r: Vec<[u8; 16]>) {
        let zero: [u8; 16] = [0, 0, 0, 0, 0, 0, 0, 0, 0, 0, 0, 0, 0, 0, 0, 0];
        assert(zero@ =~= Seq::new(16, |k: int| 0u8));
        zero_slots::<16>(zero, length)
    }

    fn as_bytes_mut(slots: &mut Vec<[u8; 16]>) -> (r: &mut [u8]) {
        slots_as_bytes::<16>(slots)
    }

    fn from_le_bytes(bytes: [u8; 16]) -> (r: i128) {
        proof {
            crate::byte_order::lemma_pow256_values();
        }
        i128_from_bits(le_uint(bytes.as_slice()))
    }

    fn from_be_bytes(bytes: [u8; 16]) -> (r: i128) {
        proof {
            crate::byte_order::lemma_pow256_values();
        }
        i128_from_bits(be_uint(bytes.as_slice()))
    }

    fn values(region: &Region) -> (r: Option<&Arc<Vec<i128>>>) {
        match region {
            Region::I128(values) => Some(values),
            _ => None,
        }
    }

    fn into_region(values: Arc<Vec<i128>>) -> (r: Region) {
        Region::I128(values)
    }
}

impl NativeType for DaysMs {
    type Bytes = [u8; 8];

    open spec fn spec_slot_size() -> nat {
        8
    }

    open spec fn spec_slot_type() -> Seq<char> {
        "arrow_interop::types::DaysMs"@
    }

    open spec fn spec_from_le(bytes: Seq<u8>) -> DaysMs {
        DaysMs {
            days: i32::spec_from_le(bytes.subrange(0, 4)),
            milliseconds: i32::spec_from_le(bytes.subrange(4, 8)),
        }
    }

    open spec fn spec_from_be(bytes: Seq<u8>) -> DaysMs {
        DaysMs {
            days: i32::spec_from_be(bytes.subrange(0, 4)),
            milliseconds: i32::spec_from_be(bytes.subrange(4, 8)),
        }
    }

    open spec fn spec_to_le(self) -> Seq<u8> {
        self.days.spec_to_le() + self.milliseconds.spec_to_le()
    }

    proof fn law_to_le(self) {
        self.days.law_to_le();
        self.milliseconds.law_to_le();
        let bytes = self.spec_to_le();
        assert(bytes.subrange(0, 4) =~= self.days.spec_to_le());
        assert(bytes.subrange(4, 8) =~= self.milliseconds.spec_to_le());
    }

    open spec fn spec_swapped(bytes: Seq<u8>) -> Seq<u8> {
        bytes.subrange(0, 4).reverse() + bytes.subrange(4, 8).reverse()
    }

    proof fn law_swapped(bytes: Seq<u8>) {
        let swapped = Self::spec_swapped(bytes);
        assert(swapped.subrange(0, 4) =~= bytes.subrange(0, 4).reverse());
        assert(swapped.subrange(4, 8) =~= bytes.subrange(4, 8).reverse());
        assert(Self::spec_swapped(swapped) =~= bytes);
        i32::law_swapped(bytes.subrange(0, 4));
        i32::law_swapped(bytes.subrange(4, 8));
    }

    open spec fn spec_bytes(bytes: [u8; 8]) -> Seq<u8> {
        bytes@
    }

    open spec fn spec_values(region: Region) -> Option<Arc<Vec<DaysMs>>> {
        match region {
            Region::DaysMs(values) => Some(values),
            _ => None,
        }
    }

    fn slot_size() -> (r: usize) {
        8
    }

    fn slot_type() -> (r: &'static str) {
        "arrow_interop::types::DaysMs"
    }

    fn zeroed(length: usize) -> (r: Vec<[u8; 8]>) {
        let zero: [u8; 8] = [0, 0, 0, 0, 0, 0, 0, 0];
        assert(zero@ =~= Seq::new(8, |k: int| 0u8));
        zero_slots::<8>(zero, length)
    }

    fn as_bytes_mut(slots: &mut Vec<[u8; 8]>) -> (r: &mut [u8]) {
        slots_as_bytes::<8>(slots)
    }

    fn from_le_bytes(bytes: [u8; 8]) -> (r: DaysMs) {
        proof {
            crate::byte_order::lemma_pow256_values();
        }
        let all = bytes.as_slice();
        DaysMs {
            days: i32_from_bits(le_uint(slice_subrange(all, 0, 4)) as u32),
            milliseconds: i32_from_bits(le_uint(slice_subrange(all, 4, 8)) as u32),
        }
    }

    fn from_be_bytes(bytes: [u8; 8]) -> (r: DaysMs) {
        proof {
            crate::byte_order::lemma_pow256_values();
        }
        let all = bytes.as_slice();
        DaysMs {
            days: i32_from_bits(be_uint(slice_subrange(all, 0, 4)) as u32),
            milliseconds: i32_from_bits(be_uint(slice_subrange(all, 4, 8)) as u32),
        }
    }

    fn values(region: &Region) -> (r: Option<&Arc<Vec<DaysMs>>>) {
        match region {
            Region::DaysMs(values) => Some(values),
            _ => None,
        }
    }

    fn into_region(values: Arc<Vec<DaysMs>>) -> (r: Region) {
        Region::DaysMs(values)
    }
}

impl NativeType for MonthsDaysNs {
    type Bytes = [u8; 16];

    open spec fn spec_slot_size() -> nat {
        16
    }

    open spec fn spec_slot_type() -> Seq<char> {
        "arrow_interop::types::MonthsDaysNs"@
    }

    open spec fn spec_from_le(bytes: Seq<u8>) -> MonthsDaysNs {
        MonthsDaysNs {
            months: i32::spec_from_le(bytes.subrange(0, 4)),
            days: i32::spec_from_le(bytes.subrange(4, 8)),
            nanoseconds: i64::spec_from_le(bytes.subrange(8, 16)),
        }
    }

    open spec fn spec_from_be(bytes: Seq<u8>) -> MonthsDaysNs {
        MonthsDaysNs {
            months: i32::spec_from_be(bytes.subrange(0, 4)),
            days: i32::spec_from_be(bytes.subrange(4, 8)),
            nanoseconds: i64::spec_from_be(bytes.subrange(8, 16)),
        }
    }

    open spec fn spec_to_le(self) -> Seq<u8> {
        self.months.spec_to_le() + self.days.spec_to_le() + self.nanoseconds.spec_to_le()
    }

    proof fn law_to_le(self) {
        self.months.law_to_le();
        self.days.law_to_le();
        self.nanoseconds.law_to_le();
        let bytes = self.spec_to_le();
        assert(bytes.subrange(0, 4) =~= self.months.spec_to_le());
        assert(bytes.subrange(4, 8) =~= self.days.spec_to_le());
        assert(bytes.subrange(8, 16) =~= self.nanoseconds.spec_to_le());
    }

    open spec fn spec_swapped(bytes: Seq<u8>) -> Seq<u8> {
        bytes.subrange(0, 4).reverse() + bytes.subrange(4, 8).reverse() + bytes.subrange(
            8,
            16,
        ).reverse()
    }

    proof fn law_swapped(bytes: Seq<u8>) {
        let swapped = Self::spec_swapped(bytes);
        assert(swapped.subrange(0, 4) =~= bytes.subrange(0, 4).reverse());
        assert(swapped.subrange(4, 8) =~= bytes.subrange(4, 8).reverse());
        assert(swapped.subrange(8, 16) =~= bytes.subrange(8, 16).reverse());
        assert(Self::spec_swapped(swapped) =~= bytes);
        i32::law_swapped(bytes.subrange(0, 4));
        i32::law_swapped(bytes.subrange(4, 8));
        i64::law_swapped(bytes.subrange(8, 16));
    }

    open spec fn spec_bytes(bytes: [u8; 16]) -> Seq<u8> {
        bytes@
    }

    open spec fn spec_values(region: Region) -> Option<Arc<Vec<MonthsDaysNs>>> {
        match region {
            Region::MonthsDaysNs(values) => Some(values),
            _ => None,
        }
    }

    fn slot_size() -> (r: usize) {
        16
    }

    fn slot_type() -> (r: &'static str) {
        "arrow_interop::types::MonthsDaysNs"
    }

    fn zeroed(length: usize) -> (r: Vec<[u8; 16]>) {
        let zero: [u8; 16] = [0, 0, 0, 0, 0, 0, 0, 0, 0, 0, 0, 0, 0, 0, 0, 0];
        assert(zero@ =~= Seq::new(16, |k: int| 0u8));
        zero_slots::<16>(zero, length)
    }

    fn as_bytes_mut(slots: &mut Vec<[u8; 16]>) -> (r: &mut [u8]) {
        slots_as_bytes::<16>(slots)
    }

    fn from_le_bytes(bytes: [u8; 16]) -> (r: MonthsDaysNs) {
        proof {
            crate::byte_order::lemma_pow256_values();
        }
        let all = bytes.as_slice();
        MonthsDaysNs {
            months: i32_from_bits(le_uint(slice_subrange(all, 0, 4)) as u32),
            days: i32_from_bits(le_uint(slice_subrange(all, 4, 8)) as u32),
            nanoseconds: i64_from_bits(le_uint(slice_subrange(all, 8, 16)) as u64),
        }
    }

    fn from_be_bytes(bytes: [u8; 16]) -> (r: MonthsDaysNs) {
        proof {
            crate::byte_order::lemma_pow256_values();
        }
        let all = bytes.as_slice();
        MonthsDaysNs {
            months: i32_from_bits(be_uint(slice_subrange(all, 0, 4)) as u32),
            days: i32_from_bits(be_uint(slice_subrange(all, 4, 8)) as u32),
            nanoseconds: i64_from_bits(be_uint(slice_subrange(all, 8, 16)) as u64),
        }
    }

    fn values(region: &Region) -> (r: Option<&Arc<Vec<MonthsDaysNs>>>) {
        match region {
            Region::MonthsDaysNs(values) => Some(values),
            _ => None,
        }
    }

    fn into_region(values: Arc<Vec<MonthsDaysNs>>) -> (r: Region) {
        Region::MonthsDaysNs(values)
    }
}

/// The value that the bytes of an `u8` hold, in either order.
pub proof fn law_value_of_u8(b: Seq<u8>)
    requires
        b.len() == 1,
    ensures
        u8::spec_slot_size() == 1,
        u8::spec_from_le(b) == b[0],
        u8::spec_from_be(b) == b[0],
{
    crate::byte_order::law_value_of_1(b);
}

/// The value that the bytes of an `u16` hold, in either order.
pub proof fn law_value_of_u16(b: Seq<u8>)
    requires
        b.len() == 2,
    ensures
        u16::spec_slot_size() == 2,
        u16::spec_from_le(b) == b[0] +
                0x100 * b[1],
        u16::spec_from_be(b) == b[1] +
                0x100 * b[0],
{
    crate::byte_order::law_value_of_2(b);
}

/// The value that the bytes of an `u32` hold, in either order.
pub proof fn law_value_of_u32(b: Seq<u8>)
    requires
        b.len() == 4,
    ensures
        u32::spec_slot_size() == 4,
        u32::spec_from_le(b) == b[0] +
                0x100 * b[1] +
                0x1_0000 * b[2] +
                0x100_0000 * b[3],
        u32::spec_from_be(b) == b[3] +
                0x100 * b[2] +
                0x1_0000 * b[1] +
                0x100_0000 * b[0],
{
    crate::byte_order::law_value_of_4(b);
}

/// The value that the bytes of an `u64` hold, in either order.
pub proof fn law_value_of_u64(b: Seq<u8>)
    requires
        b.len() == 8,
    ensures
        u64::spec_slot_size() == 8,
        u64::spec_from_le(b) == b[0] +
                0x100 * b[1] +
                0x1_0000 * b[2] +
                0x100_0000 * b[3] +
                0x1_0000_0000 * b[4] +
                0x100_0000_0000 * b[5] +
                0x1_0000_0000_0000 * b[6] +
                0x100_0000_0000_0000 * b[7],
        u64::spec_from_be(b) == b[7] +
                0x100 * b[6] +
                0x1_0000 * b[5] +
                0x100_0000 * b[4] +
                0x1_0000_0000 * b[3] +
                0x100_0000_0000 * b[2] +
                0x1_0000_0000_0000 * b[1] +
                0x100_0000_0000_0000 * b[0],
{
    crate::byte_order::law_value_of_8(b);
}

/// The value that the bytes of an `i8` hold, in either order, the highest bit of which weighs negatively.
pub proof fn law_value_of_i8(b: Seq<u8>)
    requires
        b.len() == 1,
    ensures
        i8::spec_slot_size() == 1,
        i8::spec_from_le(b) == b[0] - (if b[0] < 0x80 {
            0int
        } else {
            0x100int
        }),
        i8::spec_from_be(b) == b[0] - (if b[0] < 0x80 {
            0int
        } else {
            0x100int
        }),
{
    crate::byte_order::law_value_of_1(b);
}

/// The value that the bytes of an `i16` hold, in either order, the highest bit of which weighs negatively.
pub proof fn law_value_of_i16(b: Seq<u8>)
    requires
        b.len() == 2,
    ensures
        i16::spec_slot_size() == 2,
        i16::spec_from_le(b) == b[0] +
                0x100 * b[1] - (if b[1] < 0x80 {
            0int
        } else {
            0x1_0000int
        }),
        i16::spec_from_be(b) == b[1] +
                0x100 * b[0] - (if b[0] < 0x80 {
            0int
        } else {
            0x1_0000int
        }),
{
    crate::byte_order::law_value_of_2(b);
}

/// The value that the bytes of an `i32` hold, in either order, the highest bit of which weighs negatively.
pub proof fn law_value_of_i32(b: Seq<u8>)
    requires
        b.len() == 4,
    ensures
        i32::spec_slot_size() == 4,
        i32::spec_from_le(b) == b[0] +
                0x100 * b[1] +
                0x1_0000 * b[2] +
                0x100_0000 * b[3] - (if b[3] < 0x80 {
            0int
        } else {
            0x1_0000_0000int
        }),
        i32::spec_from_be(b) == b[3] +
                0x100 * b[2] +
                0x1_0000 * b[1] +
                0x100_0000 * b[0] - (if b[0] < 0x80 {
            0int
        } else {
            0x1_0000_0000int
        }),
{
    crate::byte_order::law_value_of_4(b);
}

/// The value that the bytes of an `i64` hold, in either order, the highest bit of which weighs negatively.
pub proof fn law_value_of_i64(b: Seq<u8>)
    requires
        b.len() == 8,
    ensures
        i64::spec_slot_size() == 8,
        i64::spec_from_le(b) == b[0] +
                0x100 * b[1] +
                0x1_0000 * b[2] +
                0x100_0000 * b[3] +
                0x1_0000_0000 * b[4] +
                0x100_0000_0000 * b[5] +
                0x1_0000_0000_0000 * b[6] +
                0x100_0000_0000_0000 * b[7] - (if b[7] < 0x80 {
            0int
        } else {
            0x1_0000_0000_0000_0000int
        }),
        i64::spec_from_be(b) == b[7] +
                0x100 * b[6] +
                0x1_0000 * b[5] +
                0x100_0000 * b[4] +
                0x1_0000_0000 * b[3] +
                0x100_0000_0000 * b[2] +
                0x1_0000_0000_0000 * b[1] +
                0x100_0000_0000_0000 * b[0] - (if b[0] < 0x80 {
            0int
        } else {
            0x1_0000_0000_0000_0000int
        }),
{
    crate::byte_order::law_value_of_8(b);
}

/// The value that the bytes of an `i128` hold, in either order, the highest bit of which weighs negatively.
pub proof fn law_value_of_i128(b: Seq<u8>)
    requires
        b.len() == 16,
    ensures
        i128::spec_slot_size() == 16,
        i128::spec_from_le(b) == b[0] +
                0x100 * b[1] +
                0x1_0000 * b[2] +
                0x100_0000 * b[3] +
                0x1_0000_0000 * b[4] +
                0x100_0000_0000 * b[5] +
                0x1_0000_0000_0000 * b[6] +
                0x100_0000_0000_0000 * b[7] +
                0x1_0000_0000_0000_0000 * b[8] +
                0x100_0000_0000_0000_0000 * b[9] +
                0x1_0000_0000_0000_0000_0000 * b[10] +
                0x100_0000_0000_0000_0000_0000 * b[11] +
                0x1_0000_0000_0000_0000_0000_0000 * b[12] +
                0x100_0000_0000_0000_0000_0000_0000 * b[13] +
                0x1_0000_0000_0000_0000_0000_0000_0000 * b[14] +
                0x100_0000_0000_0000_0000_0000_0000_0000 * b[15] - (if b[15] < 0x80 {
            0int
        } else {
            0x1_0000_0000_0000_0000_0000_0000_0000_0000int
        }),
        i128::spec_from_be(b) == b[15] +
                0x100 * b[14] +
                0x1_0000 * b[13] +
                0x100_0000 * b[12] +
                0x1_0000_0000 * b[11] +
                0x100_0000_0000 * b[10] +
                0x1_0000_0000_0000 * b[9] +
                0x100_0000_0000_0000 * b[8] +
                0x1_0000_0000_0000_0000 * b[7] +
                0x100_0000_0000_0000_0000 * b[6] +
                0x1_0000_0000_0000_0000_0000 * b[5] +
                0x100_0000_0000_0000_0000_0000 * b[4] +
                0x1_0000_0000_0000_0000_0000_0000 * b[3] +
                0x100_0000_0000_0000_0000_0000_0000 * b[2] +
                0x1_0000_0000_0000_0000_0000_0000_0000 * b[1] +
                0x100_0000_0000_0000_0000_0000_0000_0000 * b[0] - (if b[0] < 0x80 {
            0int
        } else {
            0x1_0000_0000_0000_0000_0000_0000_0000_0000int
        }),
{
    crate::byte_order::law_value_of_16(b);
}

/// The values that the bytes of a `DaysMs` hold: its parts, one after the other.
pub proof fn law_value_of_days_ms(b: Seq<u8>)
    requires
        b.len() == 8,
    ensures
        DaysMs::spec_slot_size() == 8,
        DaysMs::spec_from_le(b).days == i32::spec_from_le(seq![b[0], b[1], b[2], b[3]]),
        DaysMs::spec_from_le(b).milliseconds == i32::spec_from_le(seq![b[4], b[5], b[6], b[7]]),
        DaysMs::spec_from_be(b).days == i32::spec_from_be(seq![b[0], b[1], b[2], b[3]]),
        DaysMs::spec_from_be(b).milliseconds == i32::spec_from_be(seq![b[4], b[5], b[6], b[7]]),
{
    assert(b.subrange(0, 4) =~= seq![b[0], b[1], b[2], b[3]]);
    assert(b.subrange(4, 8) =~= seq![b[4], b[5], b[6], b[7]]);
}

/// The values that the bytes of a `MonthsDaysNs` hold: its parts, one after the other.
pub proof fn law_value_of_months_days_ns(b: Seq<u8>)
    requires
        b.len() == 16,
    ensures
        MonthsDaysNs::spec_slot_size() == 16,
        MonthsDaysNs::spec_from_le(b).months == i32::spec_from_le(seq![b[0], b[1], b[2], b[3]]),
        MonthsDaysNs::spec_from_le(b).days == i32::spec_from_le(seq![b[4], b[5], b[6], b[7]]),
        MonthsDaysNs::spec_from_le(b).nanoseconds == i64::spec_from_le(
            seq![b[8], b[9], b[10], b[11], b[12], b[13], b[14], b[15]],
        ),
        MonthsDaysNs::spec_from_be(b).months == i32::spec_from_be(seq![b[0], b[1], b[2], b[3]]),
        MonthsDaysNs::spec_from_be(b).days == i32::spec_from_be(seq![b[4], b[5], b[6], b[7]]),
        MonthsDaysNs::spec_from_be(b).nanoseconds == i64::spec_from_be(
            seq![b[8], b[9], b[10], b[11], b[12], b[13], b[14], b[15]],
        ),
{
    assert(b.subrange(0, 4) =~= seq![b[0], b[1], b[2], b[3]]);
    assert(b.subrange(4, 8) =~= seq![b[4], b[5], b[6], b[7]]);
    assert(b.subrange(8, 16) =~= seq![b[8], b[9], b[10], b[11], b[12], b[13], b[14], b[15]]);
}

/// A region holds the values of one type, and of no other.
pub proof fn law_regions_hold_one_type(region: Region)
    ensures
        u8::spec_values(region) == (match region {
            Region::U8(values) => Some(values),
            _ => None,
        }),
        u16::spec_values(region) == (match region {
            Region::U16(values) => Some(values),
            _ => None,
        }),
        u32::spec_values(region) == (match region {
            Region::U32(values) => Some(values),
            _ => None,
        }),
        u64::spec_values(region) == (match region {
            Region::U64(values) => Some(values),
            _ => None,
        }),
        i8::spec_values(region) == (match region {
            Region::I8(values) => Some(values),
            _ => None,
        }),
        i16::spec_values(region) == (match region {
            Region::I16(values) => Some(values),
            _ => None,
        }),
        i32::spec_values(region) == (match region {
            Region::I32(values) => Some(values),
            _ => None,
        }),
        i64::spec_values(region) == (match region {
            Region::I64(values) => Some(values),
            _ => None,
        }),
        i128::spec_values(region) == (match region {
            Region::I128(values) => Some(values),
            _ => None,
        }),
        DaysMs::spec_values(region) == (match region {
            Region::DaysMs(values) => Some(values),
            _ => None,
        }),
        MonthsDaysNs::spec_values(region) == (match region {
            Region::MonthsDaysNs(values) => Some(values),
            _ => None,
        }),
{
}

/// The bytes of a slot are the bytes themselves, in order.
pub proof fn law_slot_bytes()
    ensures
        forall|slot: [u8; 1]| #[trigger] u8::spec_bytes(slot) == slot@,
        forall|slot: [u8; 2]| #[trigger] u16::spec_bytes(slot) == slot@,
        forall|slot: [u8; 4]| #[trigger] u32::spec_bytes(slot) == slot@,
        forall|slot: [u8; 8]| #[trigger] u64::spec_bytes(slot) == slot@,
        forall|slot: [u8; 1]| #[trigger] i8::spec_bytes(slot) == slot@,
        forall|slot: [u8; 2]| #[trigger] i16::spec_bytes(slot) == slot@,
        forall|slot: [u8; 4]| #[trigger] i32::spec_bytes(slot) == slot@,
        forall|slot: [u8; 8]| #[trigger] i64::spec_bytes(slot) == slot@,
        forall|slot: [u8; 16]| #[trigger] i128::spec_bytes(slot) == slot@,
        forall|slot: [u8; 8]| #[trigger] DaysMs::spec_bytes(slot) == slot@,
        forall|slot: [u8; 16]| #[trigger] MonthsDaysNs::spec_bytes(slot) == slot@,
{
}

/// The pieces of some bytes are those bytes, one after the other.
pub proof fn law_pieces_are_in_order(bytes: Seq<u8>, n: nat, i: int, k: int)
    requires
        0 <= i,
        0 <= k < n,
        i * n + n <= bytes.len(),
    ensures
        piece(bytes, n, i).len() == n,
        piece(bytes, n, i)[k] == bytes[i * n + k],
{
    assert(0 <= i * n) by (nonlinear_arith)
        requires
            0 <= i,
    ;
}

} // verus!
