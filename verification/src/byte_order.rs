//! Integers as sequences of bytes.
use vstd::prelude::*;

verus! {

/// The number whose digits to the base 256 are `b`, the least significant first.
pub open spec fn le_value(b: Seq<u8>) -> nat
    decreases b.len(),
{
    if b.len() == 0 {
        0
    } else {
        b[0] as nat + 256 * le_value(b.subrange(1, b.len() as int))
    }
}

/// The number whose digits to the base 256 are `b`, the most significant first.
pub open spec fn be_value(b: Seq<u8>) -> nat {
    le_value(b.reverse())
}

/// The integer that `v` stands for in two's complement, where `half` is the
/// first number that stands for a negative one.
pub open spec fn signed(v: nat, half: nat) -> int {
    if v < half {
        v as int
    } else {
        v - 2 * half
    }
}

/// The number that stands for `v` in two's complement, the other way round.
pub open spec fn unsigned(v: int, half: nat) -> nat {
    if v >= 0 {
        v as nat
    } else {
        (v + 2 * half) as nat
    }
}

/// The last `k` digits of `v` to the base 256, the least significant first.
pub open spec fn le_bytes(v: nat, k: nat) -> Seq<u8>
    decreases k,
{
    if k == 0 {
        Seq::empty()
    } else {
        seq![(v % 256) as u8] + le_bytes(v / 256, (k - 1) as nat)
    }
}

/// `256` to the power of `k`.
pub open spec fn pow256(k: nat) -> nat
    decreases k,
{
    if k == 0 {
        1
    } else {
        256 * pow256((k - 1) as nat)
    }
}

/// `k` bytes hold the numbers below `256` to the power of `k`.
pub proof fn lemma_le_value_bound(b: Seq<u8>)
    ensures
        le_value(b) < pow256(b.len()),
    decreases b.len(),
{
    if b.len() > 0 {
        lemma_le_value_bound(b.subrange(1, b.len() as int));
    }
}

/// The digits of a number are those of the number.
pub proof fn lemma_le_bytes(v: nat, k: nat)
    requires
        v < pow256(k),
    ensures
        le_bytes(v, k).len() == k,
        le_value(le_bytes(v, k)) == v,
    decreases k,
{
    if k > 0 {
        let rest = le_bytes(v / 256, (k - 1) as nat);
        lemma_le_bytes(v / 256, (k - 1) as nat);
        let all = le_bytes(v, k);
        assert(all.subrange(1, all.len() as int) =~= rest);
    }
}

pub(crate) proof fn lemma_pow256_increasing(i: nat, j: nat)
    requires
        i <= j,
    ensures
        pow256(i) <= pow256(j),
    decreases j,
{
    if i < j {
        lemma_pow256_increasing(i, (j - 1) as nat);
    }
}

pub(crate) proof fn lemma_pow256_values()
    ensures
        pow256(1) == 0x100,
        pow256(2) == 0x1_0000,
        pow256(4) == 0x1_0000_0000,
        pow256(8) == 0x1_0000_0000_0000_0000,
        pow256(16) == 0x1_0000_0000_0000_0000_0000_0000_0000_0000,
{
    reveal_with_fuel(pow256, 17);
}

/// Reads the bytes as a number, the least significant byte first.
pub(crate) fn le_uint(bytes: &[u8]) -> (r: u128)
    requires
        bytes@.len() <= 16,
    ensures
        r == le_value(bytes@),
        r < pow256(bytes@.len()),
{
    let mut i: usize = bytes.len();
    let mut r: u128 = 0;
    assert(bytes@.subrange(i as int, bytes@.len() as int) =~= Seq::<u8>::empty());
    while i > 0
        invariant
            i <= bytes@.len() <= 16,
            r == le_value(bytes@.subrange(i as int, bytes@.len() as int)),
        decreases i,
    {
        let ghost tail = bytes@.subrange(i as int, bytes@.len() as int);
        let ghost longer = bytes@.subrange(i - 1, bytes@.len() as int);
        proof {
            lemma_le_value_bound(tail);
            lemma_pow256_increasing(tail.len(), 15);
            reveal_with_fuel(pow256, 16);
            assert(longer.subrange(1, longer.len() as int) =~= tail);
        }
        i = i - 1;
        r = r * 256 + bytes[i] as u128;
    }
    assert(bytes@.subrange(0, bytes@.len() as int) =~= bytes@);
    proof {
        lemma_le_value_bound(bytes@);
    }
    r
}

/// Reads the bytes as a number, the most significant byte first.
pub(crate) fn be_uint(bytes: &[u8]) -> (r: u128)
    requires
        bytes@.len() <= 16,
    ensures
        r == be_value(bytes@),
        r < pow256(bytes@.len()),
{
    let mut i: usize = 0;
    let mut r: u128 = 0;
    assert(bytes@.subrange(0, 0).reverse() =~= Seq::<u8>::empty());
    while i < bytes.len()
        invariant
            i <= bytes@.len() <= 16,
            r == le_value(bytes@.subrange(0, i as int).reverse()),
        decreases bytes@.len() - i,
    {
        let ghost head = bytes@.subrange(0, i as int).reverse();
        let ghost longer = bytes@.subrange(0, i + 1).reverse();
        proof {
            lemma_le_value_bound(head);
            lemma_pow256_increasing(head.len(), 15);
            reveal_with_fuel(pow256, 16);
            assert(longer.subrange(1, longer.len() as int) =~= head);
        }
        r = r * 256 + bytes[i] as u128;
        i = i + 1;
    }
    assert(bytes@.subrange(0, bytes@.len() as int) =~= bytes@);
    proof {
        lemma_le_value_bound(bytes@.reverse());
    }
    r
}

/// Each byte weighs 256 times as much as the one before it.
pub proof fn law_le_value_weighs_bytes(b: Seq<u8>, k: int)
    requires
        0 <= k < b.len(),
    ensures
        le_value(b) == le_value(b.subrange(0, k)) + pow256(k as nat) * (b[k] + 256 * le_value(
            b.subrange(k + 1, b.len() as int),
        )),
        le_value(Seq::<u8>::empty()) == 0,
    decreases k,
{
    let tail = b.subrange(1, b.len() as int);
    if k == 0 {
        assert(b.subrange(0, 0) =~= Seq::<u8>::empty());
        let rest = b[0] + 256 * le_value(tail);
        assert(pow256(0) * rest == rest) by (nonlinear_arith)
            requires
                pow256(0) == 1,
        ;
    } else {
        law_le_value_weighs_bytes(tail, k - 1);
        let head = b.subrange(0, k);
        assert(head.subrange(1, head.len() as int) =~= tail.subrange(0, k - 1));
        assert(tail.subrange(k, tail.len() as int) =~= b.subrange(k + 1, b.len() as int));
        let rest = b[k] + 256 * le_value(b.subrange(k + 1, b.len() as int));
        let p = pow256((k - 1) as nat) as int;
        assert(pow256(k as nat) == 256 * p);
        assert(tail[k - 1] == b[k]);
        assert(le_value(tail) == le_value(tail.subrange(0, k - 1)) + p * rest);
        assert(256 * (p * rest) == pow256(k as nat) * rest) by (nonlinear_arith)
            requires
                pow256(k as nat) == 256 * p,
        ;
    }
}

/// The most significant byte first is the least significant byte first, read backwards.
pub proof fn law_be_value_is_le_value_backwards(b: Seq<u8>, mirrored: Seq<u8>)
    requires
        mirrored.len() == b.len(),
        forall|i: int| 0 <= i < b.len() ==> #[trigger] mirrored[i] == b[b.len() - 1 - i],
    ensures
        be_value(b) == le_value(mirrored),
{
    assert(b.reverse() =~= mirrored);
}

/// The number that a byte holds, in either order.
pub proof fn law_value_of_1(b: Seq<u8>)
    requires
        b.len() == 1,
    ensures
        le_value(b) == b[0],
        be_value(b) == b[0],
{
    lemma_le_value_1(b);
    lemma_le_value_1(b.reverse());
}

proof fn lemma_le_value_1(b: Seq<u8>)
    requires
        b.len() == 1,
    ensures
        le_value(b) == b[0],
{
    assert(b.subrange(1, 1) =~= Seq::<u8>::empty());
    assert(le_value(Seq::<u8>::empty()) == 0);
}

/// The number that 2 bytes hold, in either order.
pub proof fn law_value_of_2(b: Seq<u8>)
    requires
        b.len() == 2,
    ensures
        le_value(b) == b[0] +
            0x100 * b[1],
        be_value(b) == b[1] +
            0x100 * b[0],
{
    lemma_le_value_2(b);
    lemma_le_value_2(b.reverse());
}

proof fn lemma_le_value_2(b: Seq<u8>)
    requires
        b.len() == 2,
    ensures
        le_value(b) == b[0] +
            0x100 * b[1],
{
    let low = b.subrange(0, 1);
    let high = b.subrange(1, 2);
    lemma_le_value_1(low);
    lemma_le_value_1(high);
    law_le_value_weighs_bytes(b, 1);
    assert(b.subrange(0, 1) =~= low);
    assert(high.subrange(1, 1) =~= b.subrange(2, 2));
    lemma_pow256_values();
    let rest = le_value(high) as int;
    assert(pow256(1) * rest == 0x100 * rest) by (nonlinear_arith)
        requires
            pow256(1) == 0x100,
    ;
}

/// The number that 4 bytes hold, in either order.
pub proof fn law_value_of_4(b: Seq<u8>)
    requires
        b.len() == 4,
    ensures
        le_value(b) == b[0] +
            0x100 * b[1] +
            0x1_0000 * b[2] +
            0x100_0000 * b[3],
        be_value(b) == b[3] +
            0x100 * b[2] +
            0x1_0000 * b[1] +
            0x100_0000 * b[0],
{
    lemma_le_value_4(b);
    lemma_le_value_4(b.reverse());
}

proof fn lemma_le_value_4(b: Seq<u8>)
    requires
        b.len() == 4,
    ensures
        le_value(b) == b[0] +
            0x100 * b[1] +
            0x1_0000 * b[2] +
            0x100_0000 * b[3],
{
    let low = b.subrange(0, 2);
    let high = b.subrange(2, 4);
    lemma_le_value_2(low);
    lemma_le_value_2(high);
    law_le_value_weighs_bytes(b, 2);
    assert(b.subrange(0, 2) =~= low);
    assert(high.subrange(1, 2) =~= b.subrange(3, 4));
    lemma_pow256_values();
    let rest = le_value(high) as int;
    assert(pow256(2) * rest == 0x1_0000 * rest) by (nonlinear_arith)
        requires
            pow256(2) == 0x1_0000,
    ;
}

/// The number that 8 bytes hold, in either order.
pub proof fn law_value_of_8(b: Seq<u8>)
    requires
        b.len() == 8,
    ensures
        le_value(b) == b[0] +
            0x100 * b[1] +
            0x1_0000 * b[2] +
            0x100_0000 * b[3] +
            0x1_0000_0000 * b[4] +
            0x100_0000_0000 * b[5] +
            0x1_0000_0000_0000 * b[6] +
            0x100_0000_0000_0000 * b[7],
        be_value(b) == b[7] +
            0x100 * b[6] +
            0x1_0000 * b[5] +
            0x100_0000 * b[4] +
            0x1_0000_0000 * b[3] +
            0x100_0000_0000 * b[2] +
            0x1_0000_0000_0000 * b[1] +
            0x100_0000_0000_0000 * b[0],
{
    lemma_le_value_8(b);
    lemma_le_value_8(b.reverse());
}

proof fn lemma_le_value_8(b: Seq<u8>)
    requires
        b.len() == 8,
    ensures
        le_value(b) == b[0] +
            0x100 * b[1] +
            0x1_0000 * b[2] +
            0x100_0000 * b[3] +
            0x1_0000_0000 * b[4] +
            0x100_0000_0000 * b[5] +
            0x1_0000_0000_0000 * b[6] +
            0x100_0000_0000_0000 * b[7],
{
    let low = b.subrange(0, 4);
    let high = b.subrange(4, 8);
    lemma_le_value_4(low);
    lemma_le_value_4(high);
    law_le_value_weighs_bytes(b, 4);
    assert(b.subrange(0, 4) =~= low);
    assert(high.subrange(1, 4) =~= b.subrange(5, 8));
    lemma_pow256_values();
    let rest = le_value(high) as int;
    assert(pow256(4) * rest == 0x1_0000_0000 * rest) by (nonlinear_arith)
        requires
            pow256(4) == 0x1_0000_0000,
    ;
}

/// The number that 16 bytes hold, in either order.
pub proof fn law_value_of_16(b: Seq<u8>)
    requires
        b.len() == 16,
    ensures
        le_value(b) == b[0] +
            0x100 * b[1] +
            0x1_0000 * b[2] +
            0x100_0000 * b[3] +
            0x1_0000_0000 * b[4] +
            0x100_0000_0000 * b[5] +
            0x1_0000_0000_0000 * b[6] +
            0x100_0000_0000_0000 * b[7] +
            0x1_0000_0000_0000_0000 * b[8] +
            0x100_0000_0000_0000_0000 * b[9] +
            0x1_0000_0000_0000_0000_0000 * b[10] +
            0x100_0000_0000_0000_0000_0000 * b[11] +
            0x1_0000_0000_0000_0000_0000_0000 * b[12] +
            0x100_0000_0000_0000_0000_0000_0000 * b[13] +
            0x1_0000_0000_0000_0000_0000_0000_0000 * b[14] +
            0x100_0000_0000_0000_0000_0000_0000_0000 * b[15],
        be_value(b) == b[15] +
            0x100 * b[14] +
            0x1_0000 * b[13] +
            0x100_0000 * b[12] +
            0x1_0000_0000 * b[11] +
            0x100_0000_0000 * b[10] +
            0x1_0000_0000_0000 * b[9] +
            0x100_0000_0000_0000 * b[8] +
            0x1_0000_0000_0000_0000 * b[7] +
            0x100_0000_0000_0000_0000 * b[6] +
            0x1_0000_0000_0000_0000_0000 * b[5] +
            0x100_0000_0000_0000_0000_0000 * b[4] +
            0x1_0000_0000_0000_0000_0000_0000 * b[3] +
            0x100_0000_0000_0000_0000_0000_0000 * b[2] +
            0x1_0000_0000_0000_0000_0000_0000_0000 * b[1] +
            0x100_0000_0000_0000_0000_0000_0000_0000 * b[0],
{
    lemma_le_value_16(b);
    lemma_le_value_16(b.reverse());
}

proof fn lemma_le_value_16(b: Seq<u8>)
    requires
        b.len() == 16,
    ensures
        le_value(b) == b[0] +
            0x100 * b[1] +
            0x1_0000 * b[2] +
            0x100_0000 * b[3] +
            0x1_0000_0000 * b[4] +
            0x100_0000_0000 * b[5] +
            0x1_0000_0000_0000 * b[6] +
            0x100_0000_0000_0000 * b[7] +
            0x1_0000_0000_0000_0000 * b[8] +
            0x100_0000_0000_0000_0000 * b[9] +
            0x1_0000_0000_0000_0000_0000 * b[10] +
            0x100_0000_0000_0000_0000_0000 * b[11] +
            0x1_0000_0000_0000_0000_0000_0000 * b[12] +
            0x100_0000_0000_0000_0000_0000_0000 * b[13] +
            0x1_0000_0000_0000_0000_0000_0000_0000 * b[14] +
            0x100_0000_0000_0000_0000_0000_0000_0000 * b[15],
{
    let low = b.subrange(0, 8);
    let high = b.subrange(8, 16);
    lemma_le_value_8(low);
    lemma_le_value_8(high);
    law_le_value_weighs_bytes(b, 8);
    assert(b.subrange(0, 8) =~= low);
    assert(high.subrange(1, 8) =~= b.subrange(9, 16));
    lemma_pow256_values();
    let rest = le_value(high) as int;
    assert(pow256(8) * rest == 0x1_0000_0000_0000_0000 * rest) by (nonlinear_arith)
        requires
            pow256(8) == 0x1_0000_0000_0000_0000,
    ;
}

} // verus!
