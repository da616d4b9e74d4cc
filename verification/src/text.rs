//! Fixed-width text: decimal numbers and columns padded with spaces.
//!
//! A width counts characters, and a value wider than its column is written
//! out in full: padding only ever adds spaces.

use vstd::prelude::*;

verus! {

/// The character that stands for one decimal digit.
pub open spec fn digit_char(d: int) -> char {
    if d == 0 {
        '0'
    } else if d == 1 {
        '1'
    } else if d == 2 {
        '2'
    } else if d == 3 {
        '3'
    } else if d == 4 {
        '4'
    } else if d == 5 {
        '5'
    } else if d == 6 {
        '6'
    } else if d == 7 {
        '7'
    } else if d == 8 {
        '8'
    } else {
        '9'
    }
}

/// The decimal digits of `n`, most significant first; none at all for zero.
pub open spec fn significant_digits(n: nat) -> Seq<char>
    decreases n,
{
    if n == 0 {
        Seq::empty()
    } else {
        significant_digits(n / 10).push(digit_char((n % 10) as int))
    }
}

/// `n` written in base ten, without sign and without leading zeros.
pub open spec fn decimal(n: nat) -> Seq<char> {
    if n == 0 {
        seq!['0']
    } else {
        significant_digits(n)
    }
}

/// `count` spaces; none where `count` is not positive.
pub open spec fn spaces(count: int) -> Seq<char> {
    Seq::new(
        if count > 0 {
            count as nat
        } else {
            0
        },
        |i: int| ' ',
    )
}

/// `s` at the left of a column of `width` characters.
pub open spec fn left_justified(s: Seq<char>, width: nat) -> Seq<char> {
    s + spaces(width - s.len())
}

/// `s` at the right of a column of `width` characters.
pub open spec fn right_justified(s: Seq<char>, width: nat) -> Seq<char> {
    spaces(width - s.len()) + s
}

/// A number has at least one digit, and one more digit for each factor of ten.
pub proof fn lemma_decimal_len(n: nat)
    ensures
        decimal(n).len() >= 1,
        n < 10 ==> decimal(n).len() == 1,
        10 <= n < 100 ==> decimal(n).len() == 2,
        100 <= n < 1000 ==> decimal(n).len() == 3,
        n >= 1000 ==> decimal(n).len() >= 4,
    decreases n,
{
    reveal_with_fuel(significant_digits, 4);
    if n >= 1000 {
        lemma_decimal_len(n / 10);
    }
}

/// The number that a digit stands for; zero for any other character.
pub open spec fn digit_value(c: char) -> nat {
    if c == '1' {
        1
    } else if c == '2' {
        2
    } else if c == '3' {
        3
    } else if c == '4' {
        4
    } else if c == '5' {
        5
    } else if c == '6' {
        6
    } else if c == '7' {
        7
    } else if c == '8' {
        8
    } else if c == '9' {
        9
    } else {
        0
    }
}

/// The number that a run of digits stands for, read in base ten.
pub open spec fn number_of(digits: Seq<char>) -> nat
    decreases digits.len(),
{
    if digits.len() == 0 {
        0
    } else {
        number_of(digits.drop_last()) * 10 + digit_value(digits.last())
    }
}

/// The digits of a number stand for that number, and the first of them is
/// not a zero.
pub proof fn lemma_significant_digits_denote(n: nat)
    ensures
        number_of(significant_digits(n)) == n,
        n > 0 ==> significant_digits(n).len() > 0 && significant_digits(n)[0] != '0',
    decreases n,
{
    if n > 0 {
        lemma_significant_digits_denote(n / 10);
        assert(significant_digits(n).drop_last() =~= significant_digits(n / 10));
    }
}

/// What is written for a number reads back as that number, so two numbers
/// that are written alike are the same number.
pub proof fn lemma_decimal_denotes(n: nat, m: nat)
    ensures
        number_of(decimal(n)) == n,
        decimal(n) == decimal(m) ==> n == m,
{
    lemma_significant_digits_denote(n);
    lemma_significant_digits_denote(m);
    assert(seq!['0'].drop_last() =~= Seq::<char>::empty());
}

/// A padded column is never narrower than its width, nor than what it holds.
pub proof fn lemma_justified_len(s: Seq<char>, width: nat)
    ensures
        left_justified(s, width).len() == right_justified(s, width).len(),
        left_justified(s, width).len() == if s.len() >= width {
            s.len()
        } else {
            width
        },
{
}

/// The text of one decimal digit.
fn digit_text(d: u32) -> (text: &'static str)
    requires
        d < 10,
    ensures
        text@ == seq![digit_char(d as int)],
{
    proof {
        reveal_strlit("0");
        reveal_strlit("1");
        reveal_strlit("2");
        reveal_strlit("3");
        reveal_strlit("4");
        reveal_strlit("5");
        reveal_strlit("6");
        reveal_strlit("7");
        reveal_strlit("8");
        reveal_strlit("9");
    }
    if d == 0 {
        "0"
    } else if d == 1 {
        "1"
    } else if d == 2 {
        "2"
    } else if d == 3 {
        "3"
    } else if d == 4 {
        "4"
    } else if d == 5 {
        "5"
    } else if d == 6 {
        "6"
    } else if d == 7 {
        "7"
    } else if d == 8 {
        "8"
    } else {
        "9"
    }
}

/// Appends the digits of `n` to `out`; nothing for zero.
fn push_significant_digits(out: &mut String, n: u32)
    ensures
        final(out)@ == old(out)@ + significant_digits(n as nat),
    decreases n,
{
    if n != 0 {
        push_significant_digits(out, n / 10);
        out.append(digit_text(n % 10));
    }
}

/// Appends `n` in base ten to `out`.
pub fn push_decimal(out: &mut String, n: u32)
    ensures
        final(out)@ == old(out)@ + decimal(n as nat),
{
    if n == 0 {
        out.append(digit_text(0));
    } else {
        push_significant_digits(out, n);
    }
}

/// Appends `count` spaces to `out`.
pub fn push_spaces(out: &mut String, count: usize)
    ensures
        final(out)@ == old(out)@ + spaces(count as int),
{
    let mut done: usize = 0;
    while done < count
        invariant
            done <= count,
            out@ == old(out)@ + spaces(done as int),
        decreases count - done,
    {
        proof {
            reveal_strlit(" ");
        }
        out.append(" ");
        done = done + 1;
    }
}

/// `n` in base ten, as a string of its own.
pub fn decimal_text(n: u32) -> (text: String)
    ensures
        text@ == decimal(n as nat),
{
    let mut text = String::new();
    push_decimal(&mut text, n);
    text
}

/// Appends `s`, then spaces up to a column of `width` characters.
pub fn push_left_justified(out: &mut String, s: &str, width: usize)
    ensures
        final(out)@ == old(out)@ + left_justified(s@, width as nat),
{
    let len: usize = s.unicode_len();
    out.append(s);
    if len < width {
        push_spaces(out, width - len);
    }
}

/// Appends spaces up to a column of `width` characters, then `n` in base ten.
pub fn push_right_justified_decimal(out: &mut String, n: u32, width: usize)
    ensures
        final(out)@ == old(out)@ + right_justified(decimal(n as nat), width as nat),
{
    let digits = decimal_text(n);
    let len: usize = digits.as_str().unicode_len();
    if len < width {
        push_spaces(out, width - len);
    }
    out.append(digits.as_str());
}

} // verus!
