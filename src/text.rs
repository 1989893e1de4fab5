//! Character-level text building: decimal numbers, padding and repetition.

use vstd::prelude::*;
use vstd::string::*;

verus! {

/// The character of a decimal digit.
pub open spec fn digit_char(d: int) -> char {
    seq!['0', '1', '2', '3', '4', '5', '6', '7', '8', '9'][d]
}

/// The decimal rendering of a natural number, without leading zeros.
pub open spec fn decimal(n: nat) -> Seq<char>
    decreases n,
{
    if n < 10 {
        seq![digit_char(n as int)]
    } else {
        decimal(n / 10) + seq![digit_char((n % 10) as int)]
    }
}

/// `count` copies of the character `c`.
pub open spec fn repeated(c: char, count: nat) -> Seq<char> {
    Seq::new(count, |i: int| c)
}

/// `s` preceded by copies of `fill` so that it is at least `width` characters long.
pub open spec fn pad_left(s: Seq<char>, width: nat, fill: char) -> Seq<char> {
    if s.len() >= width {
        s
    } else {
        repeated(fill, (width - s.len()) as nat) + s
    }
}

/// `s` followed by copies of `fill` so that it is at least `width` characters long.
pub open spec fn pad_right(s: Seq<char>, width: nat, fill: char) -> Seq<char> {
    if s.len() >= width {
        s
    } else {
        s + repeated(fill, (width - s.len()) as nat)
    }
}

/// Appends the digit `d` to `out`.
fn push_digit(out: &mut String, d: u64)
    requires
        d < 10,
    ensures
        final(out)@ == old(out)@ + seq![digit_char(d as int)],
{
    let digits = "0123456789";
    proof {
        reveal_strlit("0123456789");
    }
    let one = digits.substring_char(d as usize, d as usize + 1);
    assert(one@ =~= seq![digit_char(d as int)]);
    out.append(one);
}

/// Appends the decimal rendering of `n` to `out`.
pub fn push_decimal(out: &mut String, n: u64)
    ensures
        final(out)@ == old(out)@ + decimal(n as nat),
    decreases n,
{
    if n >= 10 {
        push_decimal(out, n / 10);
        push_digit(out, n % 10);
        assert(final(out)@ =~= old(out)@ + decimal(n as nat));
    } else {
        push_digit(out, n);
    }
}

/// The decimal rendering of `n`.
pub fn decimal_text(n: u64) -> (r: String)
    ensures
        r@ == decimal(n as nat),
{
    let mut out = String::new();
    push_decimal(&mut out, n);
    assert(out@ =~= decimal(n as nat));
    out
}

/// Appends `count` copies of the one-character string `fill` to `out`.
pub fn push_repeated(out: &mut String, fill: &str, count: usize)
    requires
        fill@.len() == 1,
    ensures
        final(out)@ == old(out)@ + repeated(fill@[0], count as nat),
{
    let mut i: usize = 0;
    while i < count
        invariant
            fill@.len() == 1,
            i <= count,
            out@ == old(out)@ + repeated(fill@[0], i as nat),
        decreases count - i,
    {
        let ghost before = out@;
        out.append(fill);
        i = i + 1;
        assert(out@ =~= old(out)@ + repeated(fill@[0], i as nat)) by {
            assert(before + fill@ =~= old(out)@ + repeated(fill@[0], i as nat));
        }
    }
}

/// Appends `s`, preceded by copies of the one-character string `fill`, so that
/// what is appended is at least `width` characters long.
pub fn push_padded_left(out: &mut String, s: &str, width: usize, fill: &str)
    requires
        fill@.len() == 1,
    ensures
        final(out)@ == old(out)@ + pad_left(s@, width as nat, fill@[0]),
{
    let n = s.unicode_len();
    if n < width {
        push_repeated(out, fill, width - n);
    }
    out.append(s);
    assert(out@ =~= old(out)@ + pad_left(s@, width as nat, fill@[0]));
}

/// Appends `s`, followed by copies of the one-character string `fill`, so that
/// what is appended is at least `width` characters long.
pub fn push_padded_right(out: &mut String, s: &str, width: usize, fill: &str)
    requires
        fill@.len() == 1,
    ensures
        final(out)@ == old(out)@ + pad_right(s@, width as nat, fill@[0]),
{
    let n = s.unicode_len();
    out.append(s);
    if n < width {
        push_repeated(out, fill, width - n);
    }
    assert(out@ =~= old(out)@ + pad_right(s@, width as nat, fill@[0]));
}

} // verus!
