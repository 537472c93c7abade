//! From the text of a literal to the value that it stands for.

use vstd::prelude::*;
use vstd::string::*;
use crate::error::Reason;
use crate::grammar::float;
use crate::syntax::float_at;
use crate::text::{chars_of, digit, is_digit, push_char};

verus! {

/// What the digit `c` counts.
pub open spec fn digit_value(c: char) -> int {
    c as int - '0' as int
}

/// The number that the decimal digits `s` write.
pub open spec fn digits_value(s: Seq<char>) -> int
    decreases s.len(),
{
    if s.len() == 0 {
        0
    } else {
        digits_value(s.drop_last()) * 10 + digit_value(s.last())
    }
}

/// Every character of `s` is a digit.
pub open spec fn all_digits(s: Seq<char>) -> bool {
    forall|i: int| 0 <= i < s.len() ==> is_digit(#[trigger] s[i])
}

/// The number that `s` writes in decimal, if it lies from `lowest` to
/// `highest`. A plus sign may stand in front, and a minus sign where `signed`
/// holds; at least one digit follows and nothing else.
pub open spec fn number_of(s: Seq<char>, signed: bool, lowest: int, highest: int) -> Result<
    int,
    Reason,
> {
    if s.len() == 0 {
        Err(Reason::EmptyNumber)
    } else {
        let minus = signed && s[0] == '-';
        let digits = if s[0] == '+' || minus {
            s.subrange(1, s.len() as int)
        } else {
            s
        };
        let value = if minus {
            -digits_value(digits)
        } else {
            digits_value(digits)
        };
        if digits.len() == 0 || !all_digits(digits) {
            Err(Reason::InvalidDigit)
        } else if value > highest {
            Err(Reason::NumberTooLarge)
        } else if value < lowest {
            Err(Reason::NumberTooSmall)
        } else {
            Ok(value)
        }
    }
}

/// The byte that `s` writes.
pub open spec fn byte_of(s: Seq<char>) -> Result<u8, Reason> {
    match number_of(s, false, 0, 255) {
        Ok(v) => Ok(v as u8),
        Err(r) => Err(r),
    }
}

/// The integer that `s` writes.
pub open spec fn integer_of(s: Seq<char>) -> Result<i64, Reason> {
    match number_of(s, true, i64::MIN as int, i64::MAX as int) {
        Ok(v) => Ok(v as i64),
        Err(r) => Err(r),
    }
}

/// The truth value that `s` writes.
pub open spec fn bool_of(s: Seq<char>) -> Result<bool, Reason> {
    if s == "true"@ {
        Ok(true)
    } else if s == "false"@ {
        Ok(false)
    } else {
        Err(Reason::NotABool)
    }
}

/// `s` is a number with a fraction: an optional minus sign, digits, a point
/// and digits, and nothing else.
pub open spec fn is_float_text(s: Seq<char>) -> bool {
    float_at(s, 0) matches Some(t) && t.end == s.len()
}

/// What the digit `c` counts.
fn digit_of(c: char) -> (d: u64)
    requires
        is_digit(c),
    ensures
        d == digit_value(c),
{
    (c as u64) - 48
}

/// What became of the digits of a number.
enum Magnitude {
    /// Some character is no digit.
    Invalid,
    /// The digits write a number above every `u64`.
    Huge,
    /// The digits write this number.
    Fits(u64),
}

/// Reads the digits of `chars` from `from` to the end.
fn magnitude(chars: &Vec<char>, from: usize) -> (m: Magnitude)
    requires
        from <= chars.len(),
    ensures
        ({
            let digits = chars@.subrange(from as int, chars.len() as int);
            match m {
                Magnitude::Invalid => !all_digits(digits),
                Magnitude::Huge => all_digits(digits) && digits_value(digits) > u64::MAX,
                Magnitude::Fits(v) => all_digits(digits) && digits_value(digits) == v,
            }
        }),
{
    let ghost digits = chars@.subrange(from as int, chars.len() as int);
    let mut value: u64 = 0;
    let mut huge = false;
    let mut i: usize = from;
    assert(digits.take(0) =~= Seq::empty());
    while i < chars.len()
        invariant
            from <= i <= chars.len(),
            digits == chars@.subrange(from as int, chars.len() as int),
            all_digits(digits.take(i - from)),
            huge ==> digits_value(digits.take(i - from)) > u64::MAX,
            !huge ==> digits_value(digits.take(i - from)) == value,
        decreases chars.len() - i,
    {
        let c = chars[i];
        if !digit(c) {
            assert(!is_digit(digits[i - from]));
            return Magnitude::Invalid;
        }
        let d = digit_of(c);
        proof {
            let next = digits.take(i - from + 1);
            assert(next.drop_last() =~= digits.take(i - from));
            assert(next.last() == c);
            assert forall|j: int| 0 <= j < next.len() implies is_digit(#[trigger] next[j]) by {
                if j < i - from {
                    assert(next[j] == digits.take(i - from)[j]);
                }
            }
        }
        if !huge {
            if value > (u64::MAX - d) / 10 {
                huge = true;
            } else {
                value = value * 10 + d;
            }
        }
        i += 1;
    }
    assert(digits.take(chars.len() - from) =~= digits);
    if huge {
        Magnitude::Huge
    } else {
        Magnitude::Fits(value)
    }
}

/// Reads a byte: decimal digits with an optional plus sign in front.
pub fn parse_byte(text: &str) -> (r: Result<u8, Reason>)
    ensures
        r == byte_of(text@),
{
    let chars = chars_of(text);
    if chars.len() == 0 {
        return Err(Reason::EmptyNumber);
    }
    let from: usize = if chars[0] == '+' {
        1
    } else {
        0
    };
    assert(from == 0 ==> chars@.subrange(0, chars.len() as int) =~= chars@);
    if from == chars.len() {
        return Err(Reason::InvalidDigit);
    }
    match magnitude(&chars, from) {
        Magnitude::Invalid => Err(Reason::InvalidDigit),
        Magnitude::Huge => Err(Reason::NumberTooLarge),
        Magnitude::Fits(v) => {
            if v > 255 {
                Err(Reason::NumberTooLarge)
            } else {
                Ok(v as u8)
            }
        },
    }
}

/// The digits `s` write no negative number.
proof fn lemma_digits_value_positive(s: Seq<char>)
    requires
        all_digits(s),
    ensures
        digits_value(s) >= 0,
    decreases s.len(),
{
    if s.len() > 0 {
        assert forall|i: int| 0 <= i < s.drop_last().len() implies is_digit(
            #[trigger] s.drop_last()[i],
        ) by {
            assert(s.drop_last()[i] == s[i]);
        }
        lemma_digits_value_positive(s.drop_last());
        assert(is_digit(s[s.len() - 1]));
    }
}

/// Reads an integer: decimal digits with an optional sign in front.
pub fn parse_integer(text: &str) -> (r: Result<i64, Reason>)
    ensures
        r == integer_of(text@),
{
    let chars = chars_of(text);
    if chars.len() == 0 {
        return Err(Reason::EmptyNumber);
    }
    let minus = chars[0] == '-';
    let from: usize = if minus || chars[0] == '+' {
        1
    } else {
        0
    };
    assert(from == 0 ==> chars@.subrange(0, chars.len() as int) =~= chars@);
    if from == chars.len() {
        return Err(Reason::InvalidDigit);
    }
    proof {
        let digits = chars@.subrange(from as int, chars.len() as int);
        if all_digits(digits) {
            lemma_digits_value_positive(digits);
        }
    }
    match magnitude(&chars, from) {
        Magnitude::Invalid => Err(Reason::InvalidDigit),
        Magnitude::Huge => if minus {
            Err(Reason::NumberTooSmall)
        } else {
            Err(Reason::NumberTooLarge)
        },
        Magnitude::Fits(v) => {
            if minus {
                if v > 0x8000_0000_0000_0000 {
                    Err(Reason::NumberTooSmall)
                } else if v == 0x8000_0000_0000_0000 {
                    Ok(i64::MIN)
                } else {
                    Ok(-(v as i64))
                }
            } else if v > 0x7fff_ffff_ffff_ffff {
                Err(Reason::NumberTooLarge)
            } else {
                Ok(v as i64)
            }
        },
    }
}

/// Reads a truth value: `true` or `false`.
pub fn parse_bool(text: &str) -> (r: Result<bool, Reason>)
    ensures
        r == bool_of(text@),
{
    let given = String::from_str(text);
    if given == String::from_str("true") {
        Ok(true)
    } else if given == String::from_str("false") {
        Ok(false)
    } else {
        Err(Reason::NotABool)
    }
}

/// Tells whether `text` is a number with a fraction, written in full.
pub fn float_text(text: &str) -> (yes: bool)
    ensures
        yes == is_float_text(text@),
{
    let chars = chars_of(text);
    match float(&chars, 0) {
        Some(p) => p.span.end == chars.len(),
        None => false,
    }
}

/// The digit that counts `d`.
pub open spec fn digit_char(d: int) -> char {
    if d == 0 {
        '0'
    } else if d == 1 {
        '1'
    } else if d == 2 {
        '2'
    } else if d == 3 {
        '3'
    } else if d == 4 {
        '4'
    } else if d == 5 {
        '5'
    } else if d == 6 {
        '6'
    } else if d == 7 {
        '7'
    } else if d == 8 {
        '8'
    } else {
        '9'
    }
}

/// The decimal digits of `n`, without zeros in front.
pub open spec fn digits_of(n: nat) -> Seq<char>
    decreases n,
{
    if n < 10 {
        seq![digit_char(n as int)]
    } else {
        digits_of(n / 10).push(digit_char((n % 10) as int))
    }
}

/// `i` written in decimal, with a minus sign in front if it is negative.
pub open spec fn decimal_of(i: int) -> Seq<char> {
    if i < 0 {
        seq!['-'] + digits_of((-i) as nat)
    } else {
        digits_of(i as nat)
    }
}

/// The digit that counts `d`.
fn char_of_digit(d: u64) -> (c: char)
    requires
        d < 10,
    ensures
        c == digit_char(d as int),
{
    if d == 0 {
        '0'
    } else if d == 1 {
        '1'
    } else if d == 2 {
        '2'
    } else if d == 3 {
        '3'
    } else if d == 4 {
        '4'
    } else if d == 5 {
        '5'
    } else if d == 6 {
        '6'
    } else if d == 7 {
        '7'
    } else if d == 8 {
        '8'
    } else {
        '9'
    }
}

/// Adds the decimal digits of `n` at the end of `text`.
fn push_digits(text: &mut String, n: u64)
    ensures
        final(text)@ == old(text)@ + digits_of(n as nat),
    decreases n,
{
    if n >= 10 {
        push_digits(text, n / 10);
    }
    push_char(text, char_of_digit(n % 10));
    assert(text@ =~= old(text)@ + digits_of(n as nat));
}

/// Adds `i`, written in decimal, at the end of `text`.
pub fn push_decimal(text: &mut String, i: i64)
    ensures
        final(text)@ == old(text)@ + decimal_of(i as int),
{
    if i < 0 {
        push_char(text, '-');
        let n: u64 = if i == i64::MIN {
            0x8000_0000_0000_0000
        } else {
            (-i) as u64
        };
        push_digits(text, n);
        assert(text@ =~= old(text)@ + decimal_of(i as int));
    } else {
        push_digits(text, i as u64);
    }
}

/// The digits of a number are digits, and they write the number.
pub proof fn lemma_digits_round_trip(n: nat)
    ensures
        all_digits(digits_of(n)),
        digits_of(n).len() > 0,
        digits_value(digits_of(n)) == n,
    decreases n,
{
    let all = digits_of(n);
    let last = (n % 10) as int;
    assert(digit_value(digit_char(last)) == last && is_digit(digit_char(last)));
    if n >= 10 {
        lemma_digits_round_trip(n / 10);
        let front = digits_of(n / 10);
        assert(all.drop_last() =~= front);
        assert(all.last() == digit_char(last));
        assert forall|i: int| 0 <= i < all.len() implies is_digit(#[trigger] all[i]) by {
            if i < front.len() {
                assert(all[i] == front[i]);
            }
        }
    } else {
        assert(all.drop_last() =~= Seq::<char>::empty());
        assert(all.last() == digit_char(last));
        assert(digits_value(all.drop_last()) == 0);
    }
}

/// Reading is the inverse of writing: the decimal text of an integer reads
/// back as that integer.
pub proof fn lemma_integer_round_trip(i: i64)
    ensures
        integer_of(decimal_of(i as int)) == Ok::<i64, Reason>(i),
{
    let text = decimal_of(i as int);
    if i < 0 {
        let n = (-i) as nat;
        lemma_digits_round_trip(n);
        assert(text.subrange(1, text.len() as int) =~= digits_of(n));
    } else {
        lemma_digits_round_trip(i as nat);
        let d = digits_of(i as nat);
        assert(is_digit(d[0]));
    }
}

} // verus!
