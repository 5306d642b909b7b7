//! Decimal text for the port numbers of the configuration.

use vstd::prelude::*;
use vstd::string::*;

verus! {

/// The character is one of `0` to `9`.
pub open spec fn is_digit(c: char) -> bool {
    '0' <= c <= '9'
}

/// The number that a digit stands for.
pub open spec fn digit_value(c: char) -> int {
    c as int - '0' as int
}

/// The digit that stands for a number below ten.
pub open spec fn digit_char(d: int) -> char {
    ('0' as int + d) as char
}

/// Every character of the text is a digit.
pub open spec fn all_digits(text: Seq<char>) -> bool {
    forall|i: int| 0 <= i < text.len() ==> is_digit(#[trigger] text[i])
}

/// The number that a run of digits stands for, read in base ten.
pub open spec fn digits_value(digits: Seq<char>) -> int
    decreases digits.len(),
{
    if digits.len() == 0 {
        0
    } else {
        10 * digits_value(digits.drop_last()) + digit_value(digits.last())
    }
}

/// The port number that a text stands for: an optional sign, then one or
/// more digits and nothing else, with a value that an `i16` can hold.
pub open spec fn parse_i16_spec(text: Seq<char>) -> Option<i16> {
    let signed = text.len() > 0 && (text[0] == '-' || text[0] == '+');
    let digits = if signed {
        text.skip(1)
    } else {
        text
    };
    let magnitude = digits_value(digits);
    let value = if signed && text[0] == '-' {
        -magnitude
    } else {
        magnitude
    };
    if digits.len() > 0 && all_digits(digits) && i16::MIN <= value <= i16::MAX {
        Some(value as i16)
    } else {
        None
    }
}

/// The digits of a natural number, without leading zeros.
pub open spec fn nat_digits(n: nat) -> Seq<char>
    decreases n,
{
    if n < 10 {
        seq![digit_char(n as int)]
    } else {
        nat_digits(n / 10).push(digit_char((n % 10) as int))
    }
}

/// The decimal text of an integer: a minus sign if it is negative, then the
/// digits of its magnitude.
pub open spec fn decimal_repr(n: int) -> Seq<char> {
    if n < 0 {
        seq!['-'] + nat_digits((-n) as nat)
    } else {
        nat_digits(n as nat)
    }
}

proof fn lemma_digits_value_nonnegative(digits: Seq<char>)
    requires
        all_digits(digits),
    ensures
        digits_value(digits) >= 0,
    decreases digits.len(),
{
    if digits.len() > 0 {
        assert(is_digit(digits[digits.len() - 1]));
        lemma_digits_value_nonnegative(digits.drop_last());
    }
}

proof fn lemma_not_ascii_is_no_number(text: Seq<char>)
    requires
        !vstd::utf8::is_ascii_chars(text),
    ensures
        parse_i16_spec(text) is None,
{
    let i = choose|i: int| 0 <= i < text.len() && !('\0' <= #[trigger] text[i] <= '\u{7f}');
    let signed = text.len() > 0 && (text[0] == '-' || text[0] == '+');
    if signed {
        assert(i > 0);
        assert(text.skip(1)[i - 1] == text[i]);
        assert(!is_digit(text.skip(1)[i - 1]));
    } else {
        assert(!is_digit(text[i]));
    }
}

proof fn lemma_nat_digits(n: nat)
    ensures
        nat_digits(n).len() > 0,
        all_digits(nat_digits(n)),
        digits_value(nat_digits(n)) == n,
    decreases n,
{
    let digits = nat_digits(n);
    if n < 10 {
        assert(digits.drop_last() =~= Seq::<char>::empty());
        assert(digits_value(digits.drop_last()) == 0);
    } else {
        lemma_nat_digits(n / 10);
        assert(digits.drop_last() =~= nat_digits(n / 10));
        assert forall|i: int| 0 <= i < digits.len() implies is_digit(#[trigger] digits[i]) by {
            if i < digits.len() - 1 {
                assert(digits[i] == nat_digits(n / 10)[i]);
            }
        }
    }
}

/// What is written is read back: the decimal text of a port number stands
/// for that number.
pub proof fn lemma_decimal_round_trip(n: i16)
    ensures
        parse_i16_spec(decimal_repr(n as int)) == Some(n),
{
    let text = decimal_repr(n as int);
    if n < 0 {
        let digits = nat_digits((-n) as nat);
        lemma_nat_digits((-n) as nat);
        assert(text[0] == '-');
        assert(text.skip(1) =~= digits);
    } else {
        lemma_nat_digits(n as nat);
        assert(is_digit(text[0]));
    }
}

/// Reads a port number from decimal text.
pub fn parse_i16(text: &str) -> (result: Option<i16>)
    ensures
        result == parse_i16_spec(text@),
{
    if !text.is_ascii() {
        proof {
            lemma_not_ascii_is_no_number(text@);
        }
        return None;
    }
    let bytes = text.as_bytes();
    proof {
        is_ascii_spec_bytes(text);
    }
    let len = bytes.len();
    if len == 0 {
        return None;
    }
    let negative = bytes[0] == 0x2d;
    let signed = negative || bytes[0] == 0x2b;
    let start: usize = if signed {
        1
    } else {
        0
    };
    assert(negative == (text@[0] == '-'));
    assert(signed == (text@[0] == '-' || text@[0] == '+'));
    if start == len {
        return None;
    }
    let ghost digits = if signed {
        text@.skip(1)
    } else {
        text@
    };
    let mut magnitude: i32 = 0;
    let mut i: usize = start;
    while i < len
        invariant
            start <= i <= len,
            len == text@.len(),
            start == if signed { 1usize } else { 0usize },
            signed == (text@[0] == '-' || text@[0] == '+'),
            negative == (text@[0] == '-'),
            digits == if signed { text@.skip(1) } else { text@ },
            bytes@ =~= Seq::new(text@.len(), |k: int| text@[k] as u8),
            vstd::utf8::is_ascii_chars(text@),
            all_digits(digits.take(i - start)),
            0 <= magnitude <= 32769,
            magnitude == if digits_value(digits.take(i - start)) < 32769 {
                digits_value(digits.take(i - start))
            } else {
                32769
            },
        decreases len - i,
    {
        let b = bytes[i];
        assert(b == text@[i as int] as u8);
        assert(digits[i - start] == text@[i as int]);
        if b < 0x30 || b > 0x39 {
            assert(!is_digit(digits[i - start]));
            return None;
        }
        proof {
            let next = digits.take(i + 1 - start);
            assert(next.drop_last() == digits.take(i - start));
            assert(next.last() == digits[i - start]);
            assert(is_digit(next.last()));
            lemma_digits_value_nonnegative(digits.take(i - start));
            assert forall|k: int| 0 <= k < next.len() implies is_digit(#[trigger] next[k]) by {
                if k < next.len() - 1 {
                    assert(next[k] == digits.take(i - start)[k]);
                }
            }
        }
        magnitude = 10 * magnitude + (b - 0x30) as i32;
        if magnitude > 32769 {
            magnitude = 32769;
        }
        i += 1;
    }
    proof {
        assert(digits.take(len - start) == digits);
    }
    if negative {
        if magnitude <= 32768 {
            Some((-magnitude) as i16)
        } else {
            None
        }
    } else {
        if magnitude <= 32767 {
            Some(magnitude as i16)
        } else {
            None
        }
    }
}

/// The text of one digit.
fn digit_str(d: u32) -> (text: &'static str)
    requires
        d < 10,
    ensures
        text@ == seq![digit_char(d as int)],
{
    proof {
        reveal_strlit("0");
        reveal_strlit("1");
        reveal_strlit("2");
        reveal_strlit("3");
        reveal_strlit("4");
        reveal_strlit("5");
        reveal_strlit("6");
        reveal_strlit("7");
        reveal_strlit("8");
        reveal_strlit("9");
    }
    let text = match d {
        0 => "0",
        1 => "1",
        2 => "2",
        3 => "3",
        4 => "4",
        5 => "5",
        6 => "6",
        7 => "7",
        8 => "8",
        _ => "9",
    };
    assert(text@ =~= seq![digit_char(d as int)]);
    text
}

/// Appends the digits of a number to a text.
fn append_digits(out: &mut String, n: u32)
    ensures
        final(out)@ == old(out)@ + nat_digits(n as nat),
    decreases n,
{
    if n >= 10 {
        append_digits(out, n / 10);
    }
    out.append(digit_str(n % 10));
    assert(final(out)@ =~= old(out)@ + nat_digits(n as nat));
}

/// Appends the decimal text of a port number to a text.
pub fn append_decimal(out: &mut String, n: i16)
    ensures
        final(out)@ == old(out)@ + decimal_repr(n as int),
{
    if n < 0 {
        out.append("-");
        proof {
            reveal_strlit("-");
        }
        append_digits(out, (-(n as i32)) as u32);
        assert(final(out)@ =~= old(out)@ + decimal_repr(n as int));
    } else {
        append_digits(out, n as u32);
    }
}

} // verus!
