//! Decimal text of integers: the plain form used in store keys and the
//! fixed-width, zero-padded form used for one-time codes.

use vstd::prelude::*;
use vstd::string::*;

verus! {

/// The character that writes the digit `d`; `'0'` outside `0..=9`.
pub open spec fn digit_char(d: int) -> char {
    if d == 1 {
        '1'
    } else if d == 2 {
        '2'
    } else if d == 3 {
        '3'
    } else if d == 4 {
        '4'
    } else if d == 5 {
        '5'
    } else if d == 6 {
        '6'
    } else if d == 7 {
        '7'
    } else if d == 8 {
        '8'
    } else if d == 9 {
        '9'
    } else {
        '0'
    }
}

/// `c` is one of the ten ASCII digits.
pub open spec fn is_digit(c: char) -> bool {
    exists|d: int| 0 <= d < 10 && c == #[trigger] digit_char(d)
}

/// Every character of `s` is an ASCII digit.
pub open spec fn all_digits(s: Seq<char>) -> bool {
    forall|i: int| 0 <= i < s.len() ==> is_digit(#[trigger] s[i])
}

/// The shortest decimal text of `n`: no leading zero, except for `0` itself.
pub open spec fn decimal(n: nat) -> Seq<char>
    decreases n,
{
    if n < 10 {
        seq![digit_char(n as int)]
    } else {
        decimal(n / 10).push(digit_char((n % 10) as int))
    }
}

/// The decimal text of a signed integer: a minus sign before the text of the
/// magnitude when `i` is negative.
pub open spec fn signed_decimal(i: int) -> Seq<char> {
    if i < 0 {
        seq!['-'] + decimal((-i) as nat)
    } else {
        decimal(i as nat)
    }
}

/// The last `width` decimal digits of `n`, most significant first, with
/// zeros where `n` has no digit.
pub open spec fn zero_padded(n: nat, width: nat) -> Seq<char>
    decreases width,
{
    if width == 0 {
        Seq::<char>::empty()
    } else {
        zero_padded(n / 10, (width - 1) as nat).push(digit_char((n % 10) as int))
    }
}

/// Ten to the power `e`.
pub open spec fn pow10(e: nat) -> nat
    decreases e,
{
    if e == 0 {
        1
    } else {
        10 * pow10((e - 1) as nat)
    }
}

/// The bytes of an ASCII text, one per character.
pub open spec fn ascii_bytes(s: Seq<char>) -> Seq<u8> {
    Seq::new(s.len(), |i: int| s[i] as u8)
}

/// The value that a sequence of digits writes, read as a decimal number.
pub open spec fn decimal_value(s: Seq<char>) -> nat
    decreases s.len(),
{
    if s.len() == 0 {
        0
    } else {
        10 * decimal_value(s.drop_last()) + digit_value(s.last())
    }
}

/// The digit that `c` writes; 0 for a character that is no digit.
pub open spec fn digit_value(c: char) -> nat {
    if c == '1' {
        1
    } else if c == '2' {
        2
    } else if c == '3' {
        3
    } else if c == '4' {
        4
    } else if c == '5' {
        5
    } else if c == '6' {
        6
    } else if c == '7' {
        7
    } else if c == '8' {
        8
    } else if c == '9' {
        9
    } else {
        0
    }
}

/// The decimal text of a number is made of digits only, is never empty, and
/// starts with `'0'` only when the number is zero.
pub proof fn lemma_decimal_shape(n: nat)
    ensures
        decimal(n).len() >= 1,
        all_digits(decimal(n)),
        decimal(n)[0] == '0' <==> n == 0,
    decreases n,
{
    if n < 10 {
        assert(is_digit(digit_char(n as int)));
    } else {
        lemma_decimal_shape(n / 10);
        let head = decimal(n / 10);
        let s = decimal(n);
        assert(is_digit(digit_char((n % 10) as int)));
        assert forall|i: int| 0 <= i < s.len() implies is_digit(#[trigger] s[i]) by {
            if i < head.len() {
                assert(s[i] == head[i]);
            }
        }
        assert(s[0] == head[0]);
    }
}

/// Reading the decimal text of a number gives the number back, so two
/// numbers with the same text are equal.
pub proof fn lemma_decimal_value(n: nat)
    ensures
        decimal_value(decimal(n)) == n,
    decreases n,
{
    if n < 10 {
        let s = decimal(n);
        assert(s.drop_last() =~= Seq::<char>::empty());
        assert(decimal_value(s.drop_last()) == 0);
        assert(s.last() == digit_char(n as int));
    } else {
        lemma_decimal_value(n / 10);
        let s = decimal(n);
        assert(s.drop_last() =~= decimal(n / 10));
        assert(s.last() == digit_char((n % 10) as int));
    }
}

/// The decimal text determines the number.
pub proof fn lemma_decimal_injective(a: nat, b: nat)
    requires
        decimal(a) == decimal(b),
    ensures
        a == b,
{
    lemma_decimal_value(a);
    lemma_decimal_value(b);
}

/// The signed decimal text determines the integer.
pub proof fn lemma_signed_decimal_injective(a: int, b: int)
    requires
        signed_decimal(a) == signed_decimal(b),
    ensures
        a == b,
{
    if a < 0 {
        lemma_decimal_shape((-a) as nat);
    } else {
        lemma_decimal_shape(a as nat);
    }
    if b < 0 {
        lemma_decimal_shape((-b) as nat);
    } else {
        lemma_decimal_shape(b as nat);
    }
    let sa = signed_decimal(a);
    let sb = signed_decimal(b);
    assert(sa[0] == sb[0]);
    if a < 0 {
        assert(sa[0] == '-');
        if b >= 0 {
            assert(is_digit(decimal(b as nat)[0]));
            assert(false);
        }
        assert(decimal((-a) as nat) =~= sa.subrange(1, sa.len() as int));
        assert(decimal((-b) as nat) =~= sb.subrange(1, sb.len() as int));
        lemma_decimal_injective((-a) as nat, (-b) as nat);
    } else {
        if b < 0 {
            assert(sb[0] == '-');
            assert(is_digit(decimal(a as nat)[0]));
            assert(false);
        }
        lemma_decimal_injective(a as nat, b as nat);
    }
}

/// A zero-padded text has exactly `width` characters, all of them digits.
pub proof fn lemma_zero_padded_shape(n: nat, width: nat)
    ensures
        zero_padded(n, width).len() == width,
        all_digits(zero_padded(n, width)),
    decreases width,
{
    if width > 0 {
        lemma_zero_padded_shape(n / 10, (width - 1) as nat);
        let head = zero_padded(n / 10, (width - 1) as nat);
        let s = zero_padded(n, width);
        assert(is_digit(digit_char((n % 10) as int)));
        assert forall|i: int| 0 <= i < s.len() implies is_digit(#[trigger] s[i]) by {
            if i < head.len() {
                assert(s[i] == head[i]);
            }
        }
    }
}

/// Zero padding is padding on the left: for a number below `10^width`, the
/// padded text is the plain decimal text behind as many zeros as it takes to
/// fill the width. Zero itself, whose plain text is `"0"`, fills a positive
/// width with zeros.
pub proof fn lemma_zero_padded_is_left_padding(n: nat, width: nat)
    requires
        width >= 1,
        n < pow10(width),
    ensures
        decimal(n).len() <= width,
        zero_padded(n, width) == Seq::new((width - decimal(n).len()) as nat, |i: int| '0')
            + decimal(n),
    decreases width,
{
    let padded = zero_padded(n, width);
    let head = zero_padded(n / 10, (width - 1) as nat);
    lemma_zero_padded_shape(n / 10, (width - 1) as nat);
    if n < 10 {
        lemma_zero_padded_zero((width - 1) as nat);
        assert(n / 10 == 0);
        assert(padded =~= Seq::new((width - 1) as nat, |i: int| '0') + decimal(n));
    } else {
        assert(pow10(1) == 10) by {
            reveal_with_fuel(pow10, 2);
        }
        assert(width >= 2);
        assert(n / 10 < pow10((width - 1) as nat));
        lemma_zero_padded_is_left_padding(n / 10, (width - 1) as nat);
        assert(padded =~= Seq::new((width - decimal(n).len()) as nat, |i: int| '0') + decimal(
            n,
        ));
    }
}

/// Padding zero gives zeros only.
pub proof fn lemma_zero_padded_zero(width: nat)
    ensures
        zero_padded(0, width) == Seq::new(width, |i: int| '0'),
    decreases width,
{
    if width > 0 {
        lemma_zero_padded_zero((width - 1) as nat);
    }
    assert(zero_padded(0, width) =~= Seq::new(width, |i: int| '0'));
}

/// Digits are ASCII characters.
pub proof fn lemma_digits_are_ascii(s: Seq<char>)
    requires
        all_digits(s),
    ensures
        vstd::utf8::is_ascii_chars(s),
{
    assert forall|i: int| 0 <= i < s.len() implies '\0' <= #[trigger] s[i] <= '\u{7f}' by {
        assert(is_digit(s[i]));
    }
}

/// The one-character text of a single digit.
fn digit_text(d: u64) -> (s: &'static str)
    requires
        d < 10,
    ensures
        s@ == seq![digit_char(d as int)],
{
    proof {
        reveal_strlit("0");
        reveal_strlit("1");
        reveal_strlit("2");
        reveal_strlit("3");
        reveal_strlit("4");
        reveal_strlit("5");
        reveal_strlit("6");
        reveal_strlit("7");
        reveal_strlit("8");
        reveal_strlit("9");
    }
    let s = if d == 0 {
        "0"
    } else if d == 1 {
        "1"
    } else if d == 2 {
        "2"
    } else if d == 3 {
        "3"
    } else if d == 4 {
        "4"
    } else if d == 5 {
        "5"
    } else if d == 6 {
        "6"
    } else if d == 7 {
        "7"
    } else if d == 8 {
        "8"
    } else {
        "9"
    };
    assert(s@ =~= seq![digit_char(d as int)]);
    s
}

/// Writes `n` in decimal.
pub fn decimal_u64(n: u64) -> (s: String)
    ensures
        s@ == decimal(n as nat),
    decreases n,
{
    if n < 10 {
        String::from_str(digit_text(n))
    } else {
        let mut s = decimal_u64(n / 10);
        s.append(digit_text(n % 10));
        assert(s@ =~= decimal(n as nat));
        s
    }
}

/// Writes `n` in decimal, with a leading minus sign when it is negative.
pub fn decimal_i32(n: i32) -> (s: String)
    ensures
        s@ == signed_decimal(n as int),
{
    if n < 0 {
        let magnitude: u64 = (-(n as i64)) as u64;
        let digits = decimal_u64(magnitude);
        let mut s = String::from_str("-");
        s.append(digits.as_str());
        proof {
            reveal_strlit("-");
            assert(s@ =~= signed_decimal(n as int));
        }
        s
    } else {
        decimal_u64(n as u64)
    }
}

/// Writes the last `width` decimal digits of `n`, padding with zeros on the
/// left.
pub fn zero_padded_u64(n: u64, width: usize) -> (s: String)
    ensures
        s@ == zero_padded(n as nat, width as nat),
    decreases width,
{
    if width == 0 {
        let s = String::new();
        assert(s@ =~= zero_padded(n as nat, 0));
        s
    } else {
        let mut s = zero_padded_u64(n / 10, width - 1);
        s.append(digit_text(n % 10));
        assert(s@ =~= zero_padded(n as nat, width as nat));
        s
    }
}

} // verus!
