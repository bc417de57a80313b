//! Shared, immutable slices of bits.
use std::sync::Arc;
use vstd::prelude::*;

use crate::arith::saturating_product;
use crate::datatypes::share;
use crate::error::Error;

verus! {

/// The `i`-th bit of `bytes`, the least significant bit of each byte first.
pub open spec fn bit_at(bytes: Seq<u8>, i: int) -> bool {
    (bytes[i / 8] >> ((i % 8) as u8)) & 1 == 1
}

/// The first `length` bits of `bytes`.
pub open spec fn bits_of(bytes: Seq<u8>, length: nat) -> Seq<bool> {
    Seq::new(length, |i: int| bit_at(bytes, i))
}

/// How many of `bits` are not set.
pub open spec fn count_unset(bits: Seq<bool>) -> nat
    decreases bits.len(),
{
    if bits.len() == 0 {
        0
    } else {
        count_unset(bits.drop_last()) + if bits.last() {
            0nat
        } else {
            1nat
        }
    }
}

/// No more bits are unset than there are.
pub proof fn lemma_count_unset_bound(bits: Seq<bool>)
    ensures
        count_unset(bits) <= bits.len(),
    decreases bits.len(),
{
    if bits.len() > 0 {
        lemma_count_unset_bound(bits.drop_last());
    }
}

/// The number of bytes that `bits` bits need, with the sum held at `usize::MAX`.
pub open spec fn spec_bytes_for(bits: int) -> int {
    if bits + 7 > usize::MAX {
        usize::MAX as int / 8
    } else {
        (bits + 7) / 8
    }
}

/// The number of bytes that `bits` bits need.
pub fn bytes_for(bits: usize) -> (r: usize)
    ensures
        r == spec_bytes_for(bits as int),
        bits + 7 <= usize::MAX ==> bits <= r * 8 < bits + 8,
{
    bits.saturating_add(7) / 8
}

/// A slice of shared bits: `length` bits from the bit `offset` on.
#[derive(Debug)]
pub struct Bitmap {
    pub bytes: Arc<Vec<u8>>,
    pub offset: usize,
    pub length: usize,
}

impl View for Bitmap {
    type V = Seq<bool>;

    open spec fn view(&self) -> Seq<bool> {
        Seq::new(self.length as nat, |i: int| bit_at(self.bytes@, self.offset + i))
    }
}

impl Bitmap {
    /// The slice lies within the bytes.
    pub open spec fn wf(self) -> bool {
        self.offset + self.length <= self.bytes@.len() * 8
    }

    /// Uses the first `length` bits of `bytes`.
    pub fn try_new(bytes: Vec<u8>, length: usize) -> (r: Result<Self, Error>)
        ensures
            match r {
                Ok(bitmap) => {
                    &&& length <= bytes@.len() * 8
                    &&& bitmap.wf()
                    &&& bitmap@ == bits_of(bytes@, length as nat)
                    &&& bitmap.offset == 0
                    &&& bitmap.length == length
                },
                Err(e) => {
                    &&& length > bytes@.len() * 8
                    &&& e == (Error::BitmapTooShort {
                        length,
                        number_of_bits: (bytes@.len() * 8) as usize,
                    })
                },
            },
    {
        let number_of_bits = saturating_product(bytes.len(), 8);
        if length > number_of_bits {
            return Err(Error::BitmapTooShort { length, number_of_bits });
        }
        let bitmap = Bitmap { bytes: Arc::new(bytes), offset: 0, length };
        assert(bitmap@ =~= bits_of(bytes@, length as nat));
        Ok(bitmap)
    }

    /// Uses the first `length` bits of the memory.
    pub fn from_memory(bytes: &Arc<Vec<u8>>, length: usize) -> (r: Self)
        requires
            length <= bytes@.len() * 8,
        ensures
            r.wf(),
            r == (Bitmap { bytes: *bytes, offset: 0, length }),
            r@ == bits_of(bytes@, length as nat),
    {
        let r = Bitmap { bytes: share(bytes), offset: 0, length };
        assert(r@ =~= bits_of(bytes@, length as nat));
        r
    }

    /// The number of bits
    pub fn len(&self) -> (r: usize)
        ensures
            r == self@.len(),
    {
        self.length
    }

    /// The bit at `index`
    pub fn get_bit(&self, index: usize) -> (r: bool)
        requires
            self.wf(),
            index < self@.len(),
        ensures
            r == self@[index as int],
    {
        let skipped: usize = self.offset / 8 + index / 8;
        let rest: usize = self.offset % 8 + index % 8;
        let byte: usize = skipped + rest / 8;
        let bit: u8 = (rest % 8) as u8;
        assert((self.offset + index) / 8 == byte && (self.offset + index) % 8 == bit);
        (self.bytes[byte] >> bit) & 1 == 1
    }

    /// The number of bits that are not set
    pub fn unset_bits(&self) -> (r: usize)
        requires
            self.wf(),
        ensures
            r == count_unset(self@),
    {
        let mut i: usize = 0;
        let mut r: usize = 0;
        assert(self@.subrange(0, 0) =~= Seq::<bool>::empty());
        while i < self.length
            invariant
                self.wf(),
                i <= self.length,
                r <= i,
                r == count_unset(self@.subrange(0, i as int)),
            decreases self.length - i,
        {
            assert(self@.subrange(0, i + 1).drop_last() =~= self@.subrange(0, i as int));
            if !self.get_bit(i) {
                r = r + 1;
            }
            i = i + 1;
        }
        assert(self@.subrange(0, self.length as int) =~= self@);
        r
    }

    /// Narrows this slice to `length` bits from `offset` on.
    pub fn slice(self, offset: usize, length: usize) -> (r: Self)
        requires
            self.wf(),
            self.offset + offset <= usize::MAX,
            offset + length <= self@.len(),
        ensures
            r.wf(),
            r == (Bitmap { bytes: self.bytes, offset: (self.offset + offset) as usize, length }),
            r@ == self@.subrange(offset as int, offset + length),
    {
        let r = Bitmap { bytes: self.bytes, offset: self.offset + offset, length };
        assert(r@ =~= self@.subrange(offset as int, offset + length));
        r
    }

    /// Another handle on the same slice.
    pub fn share(&self) -> (r: Self)
        ensures
            r == *self,
    {
        Bitmap { bytes: share(&self.bytes), offset: self.offset, length: self.length }
    }
}

/// The bits of a byte weigh up to the byte: each is a digit of it to the base 2, the least
/// significant first.
pub proof fn law_bits_weigh_up(byte: u8)
    ensures
        byte == (if bit_at(seq![byte], 0) {
            1int
        } else {
            0
        }) + (if bit_at(seq![byte], 1) {
            2int
        } else {
            0
        }) + (if bit_at(seq![byte], 2) {
            4int
        } else {
            0
        }) + (if bit_at(seq![byte], 3) {
            8int
        } else {
            0
        }) + (if bit_at(seq![byte], 4) {
            16int
        } else {
            0
        }) + (if bit_at(seq![byte], 5) {
            32int
        } else {
            0
        }) + (if bit_at(seq![byte], 6) {
            64int
        } else {
            0
        }) + (if bit_at(seq![byte], 7) {
            128int
        } else {
            0
        }),
{
    assert(byte == ((byte >> 0u8) & 1) * 1 + ((byte >> 1u8) & 1) * 2 + ((byte >> 2u8) & 1) * 4 + ((
    byte >> 3u8) & 1) * 8 + ((byte >> 4u8) & 1) * 16 + ((byte >> 5u8) & 1) * 32 + ((byte >> 6u8)
        & 1) * 64 + ((byte >> 7u8) & 1) * 128) by (bit_vector);
    assert(forall|k: u8| #![trigger byte >> k] (byte >> k) & 1 == 0 || (byte >> k) & 1 == 1)
        by (bit_vector);
}

/// Bit `i` is the digit `i % 8`, to the base 2 and counted from the least significant, of the
/// byte `i / 8`.
pub proof fn law_bit_is_digit(bytes: Seq<u8>, i: int)
    requires
        0 <= i < bytes.len() * 8,
    ensures
        bit_at(bytes, i) == ((bytes[i / 8] as int / vstd::arithmetic::power2::pow2(
            (i % 8) as nat,
        ) as int) % 2 == 1),
{
    let b = bytes[i / 8];
    vstd::arithmetic::power2::lemma2_to64();
    assert((b >> 0u8) & 1 == (b / 1) % 2 && (b >> 1u8) & 1 == (b / 2) % 2 && (b >> 2u8) & 1 == (b
        / 4) % 2 && (b >> 3u8) & 1 == (b / 8) % 2 && (b >> 4u8) & 1 == (b / 16) % 2 && (b >> 5u8)
        & 1 == (b / 32) % 2 && (b >> 6u8) & 1 == (b / 64) % 2 && (b >> 7u8) & 1 == (b / 128) % 2)
        by (bit_vector);
    let k = i % 8;
    assert(k == 0 || k == 1 || k == 2 || k == 3 || k == 4 || k == 5 || k == 6 || k == 7);
}

proof fn lemma_digit_of_weights(b: int, w: Seq<int>, k: int)
    requires
        w.len() == 8,
        forall|j: int| 0 <= j < 8 ==> 0 <= #[trigger] w[j] <= 1,
        b == w[0] + 2 * w[1] + 4 * w[2] + 8 * w[3] + 16 * w[4] + 32 * w[5] + 64 * w[6] + 128
            * w[7],
        0 <= k < 8,
    ensures
        (b / vstd::arithmetic::power2::pow2(k as nat) as int) % 2 == w[k],
{
    vstd::arithmetic::power2::lemma2_to64();
    let b1 = w[1] + 2 * w[2] + 4 * w[3] + 8 * w[4] + 16 * w[5] + 32 * w[6] + 64 * w[7];
    let b2 = w[2] + 2 * w[3] + 4 * w[4] + 8 * w[5] + 16 * w[6] + 32 * w[7];
    let b3 = w[3] + 2 * w[4] + 4 * w[5] + 8 * w[6] + 16 * w[7];
    let b4 = w[4] + 2 * w[5] + 4 * w[6] + 8 * w[7];
    let b5 = w[5] + 2 * w[6] + 4 * w[7];
    let b6 = w[6] + 2 * w[7];
    assert(b / 1 == b && b / 2 == b1 && b / 4 == b2 && b / 8 == b3 && b / 16 == b4 && b / 32 == b5
        && b / 64 == b6 && b / 128 == w[7]);
    assert(b % 2 == w[0] && b1 % 2 == w[1] && b2 % 2 == w[2] && b3 % 2 == w[3] && b4 % 2 == w[4]
        && b5 % 2 == w[5] && b6 % 2 == w[6] && w[7] % 2 == w[7]);
    assert(k == 0 || k == 1 || k == 2 || k == 3 || k == 4 || k == 5 || k == 6 || k == 7);
}

/// Bits that were written into bytes, eight to a byte and the first with the least weight,
/// are read back.
pub proof fn law_written_bits_are_read(bits: Seq<bool>, bytes: Seq<u8>)
    requires
        bits.len() == bytes.len() * 8,
        forall|j: int|
            0 <= j < bytes.len() ==> #[trigger] bytes[j] == (if bits[8 * j] {
                1int
            } else {
                0
            }) + (if bits[8 * j + 1] {
                2int
            } else {
                0
            }) + (if bits[8 * j + 2] {
                4int
            } else {
                0
            }) + (if bits[8 * j + 3] {
                8int
            } else {
                0
            }) + (if bits[8 * j + 4] {
                16int
            } else {
                0
            }) + (if bits[8 * j + 5] {
                32int
            } else {
                0
            }) + (if bits[8 * j + 6] {
                64int
            } else {
                0
            }) + (if bits[8 * j + 7] {
                128int
            } else {
                0
            }),
    ensures
        bits_of(bytes, bits.len()) == bits,
{
    assert forall|i: int| 0 <= i < bits.len() implies bit_at(bytes, i) == bits[i] by {
        law_bit_is_digit(bytes, i);
        let j = i / 8;
        let k = i % 8;
        let w = Seq::new(
            8,
            |k: int|
                if bits[8 * j + k] {
                    1int
                } else {
                    0
                },
        );
        assert(bytes[j] == w[0] + 2 * w[1] + 4 * w[2] + 8 * w[3] + 16 * w[4] + 32 * w[5] + 64 * w[6]
            + 128 * w[7]);
        lemma_digit_of_weights(bytes[j] as int, w, k);
        assert(i == 8 * j + k);
    }
    assert(bits_of(bytes, bits.len()) =~= bits);
}

/// Bit `i` of a bitmap is bit `offset + i` of its bytes.
pub proof fn law_bitmap_is_a_slice(bitmap: Bitmap, i: int)
    requires
        bitmap.wf(),
        0 <= i < bitmap.length,
    ensures
        bitmap@.len() == bitmap.length,
        bitmap@[i] == ((bitmap.bytes@[(bitmap.offset + i) / 8] as int
            / vstd::arithmetic::power2::pow2(((bitmap.offset + i) % 8) as nat) as int) % 2 == 1),
{
    law_bit_is_digit(bitmap.bytes@, bitmap.offset + i);
}

/// Whether a slice lies within its memory is a matter of where it ends.
pub proof fn law_bitmap_lies_within(bitmap: Bitmap)
    ensures
        bitmap.wf() <==> bitmap.offset + bitmap.length <= bitmap.bytes@.len() * 8,
{
}

/// The positions of the bits that are not set.
pub open spec fn unset_positions(bits: Seq<bool>) -> Set<int> {
    Set::new(|i: int| 0 <= i < bits.len() && !bits[i])
}

/// The bits that are not set are as many as their positions.
pub proof fn law_unset_bits_are_counted(bits: Seq<bool>)
    ensures
        unset_positions(bits).finite(),
        count_unset(bits) == unset_positions(bits).len(),
    decreases bits.len(),
{
    if bits.len() == 0 {
        assert(unset_positions(bits) =~= Set::empty());
    } else {
        let before = bits.drop_last();
        law_unset_bits_are_counted(before);
        if bits.last() {
            assert(unset_positions(bits) =~= unset_positions(before));
        } else {
            assert(unset_positions(bits) =~= unset_positions(before).insert(bits.len() - 1));
        }
    }
}

/// The bytes that hold a number of bits are the fewest that do, as far as can be counted.
pub proof fn law_bytes_hold_bits(bits: int)
    requires
        0 <= bits,
    ensures
        bits + 7 <= usize::MAX ==> bits <= spec_bytes_for(bits) * 8 < bits + 8,
        bits + 7 > usize::MAX ==> usize::MAX - 8 < spec_bytes_for(bits) * 8 <= usize::MAX,
{
}

/// The first bits of some bytes are their digits to the base 2, in order.
pub proof fn law_bits_are_digits(bytes: Seq<u8>, length: nat, i: int)
    requires
        length <= bytes.len() * 8,
        0 <= i < length,
    ensures
        bits_of(bytes, length).len() == length,
        bits_of(bytes, length)[i] == ((bytes[i / 8] as int / vstd::arithmetic::power2::pow2(
            (i % 8) as nat,
        ) as int) % 2 == 1),
{
    law_bit_is_digit(bytes, i);
}

} // verus!
