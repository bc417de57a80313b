//! Text of error messages.
use vstd::prelude::*;
use vstd::string::StringExecFns;

verus! {

/// The decimal digit `d`, for `d < 10`.
pub open spec fn digit_char(d: nat) -> char {
    ('0' as nat + d) as char
}

/// `n` written in decimal, without leading zeros.
pub open spec fn decimal_chars(n: nat) -> Seq<char>
    decreases n,
{
    if n < 10 {
        seq![digit_char(n)]
    } else {
        decimal_chars(n / 10).push(digit_char(n % 10))
    }
}

fn digit(d: usize) -> (r: &'static str)
    requires
        d < 10,
    ensures
        r@ == seq![digit_char(d as nat)],
{
    proof {
        reveal_strlit("0");
        reveal_strlit("1");
        reveal_strlit("2");
        reveal_strlit("3");
        reveal_strlit("4");
        reveal_strlit("5");
        reveal_strlit("6");
        reveal_strlit("7");
        reveal_strlit("8");
        reveal_strlit("9");
    }
    let r = match d {
        0 => "0",
        1 => "1",
        2 => "2",
        3 => "3",
        4 => "4",
        5 => "5",
        6 => "6",
        7 => "7",
        8 => "8",
        _ => "9",
    };
    assert(r@ =~= seq![digit_char(d as nat)]);
    r
}

/// Writes `n` in decimal.
pub(crate) fn decimal(n: usize) -> (r: String)
    ensures
        r@ == decimal_chars(n as nat),
    decreases n,
{
    if n < 10 {
        digit(n).to_owned()
    } else {
        let mut r = decimal(n / 10);
        let d = digit(n % 10);
        r.append(d);
        assert(r@ =~= decimal_chars(n as nat));
        r
    }
}

/// The text `before`, then `n` in decimal, then `after`.
pub open spec fn around(before: Seq<char>, n: nat, after: Seq<char>) -> Seq<char> {
    before + decimal_chars(n) + after
}

/// Writes `n` in decimal between two texts.
pub(crate) fn write_around(before: &str, n: usize, after: &str) -> (r: String)
    ensures
        r@ == around(before@, n as nat, after@),
{
    let mut r = before.to_owned();
    let d = decimal(n);
    r.append(d.as_str());
    r.append(after);
    r
}

/// The number that some characters write in decimal.
pub open spec fn decimal_value(chars: Seq<char>) -> int
    decreases chars.len(),
{
    if chars.len() == 0 {
        0
    } else {
        10 * decimal_value(chars.drop_last()) + (chars.last() as int - '0' as int)
    }
}

/// What is written in decimal is that number: with digits alone, and without a zero in
/// front.
pub proof fn law_decimal_is_the_number(n: nat)
    ensures
        decimal_value(decimal_chars(n)) == n,
        decimal_chars(n).len() > 0,
        forall|i: int|
            0 <= i < decimal_chars(n).len() ==> '0' as int <= (#[trigger] decimal_chars(n)[i]) as int
                <= '9' as int,
        n >= 10 <==> decimal_chars(n).len() > 1,
        decimal_chars(n).len() > 1 ==> decimal_chars(n)[0] != '0',
    decreases n,
{
    if n < 10 {
        let chars = decimal_chars(n);
        assert(chars.drop_last() =~= Seq::<char>::empty());
        assert(decimal_value(chars.drop_last()) == 0);
    } else {
        law_decimal_is_the_number(n / 10);
        let chars = decimal_chars(n);
        assert(chars.drop_last() =~= decimal_chars(n / 10));
        assert(chars[0] == decimal_chars(n / 10)[0]);
        if n / 10 < 10 {
            assert(decimal_chars(n / 10) =~= seq![digit_char(n / 10)]);
        }
    }
}

/// A number between two texts has the one before it and the other behind it.
pub proof fn law_around_keeps_the_texts(before: Seq<char>, n: nat, after: Seq<char>)
    ensures
        ({
            let all = around(before, n, after);
            let middle = all.len() - after.len();
            &&& before.len() < middle
            &&& all.subrange(0, before.len() as int) == before
            &&& all.subrange(middle, all.len() as int) == after
            &&& decimal_value(all.subrange(before.len() as int, middle)) == n
        }),
{
    law_decimal_is_the_number(n);
    let all = around(before, n, after);
    let middle = all.len() - after.len();
    assert(all.subrange(0, before.len() as int) =~= before);
    assert(all.subrange(middle, all.len() as int) =~= after);
    assert(all.subrange(before.len() as int, middle) =~= decimal_chars(n));
}

} // verus!
