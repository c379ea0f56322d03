//! Whole numbers written in decimal, as a player types them.

use vstd::prelude::*;
use vstd::string::StringExecFns;

verus! {

/// The value of a decimal digit; `None` for any other character.
pub open spec fn digit_of(c: char) -> Option<nat> {
    if '0' <= c && c <= '9' {
        Some((c as nat - '0' as nat) as nat)
    } else {
        None
    }
}

/// Whether every character of `text` is a decimal digit.
pub open spec fn all_digits(text: Seq<char>) -> bool {
    forall|i: int| 0 <= i < text.len() ==> digit_of(#[trigger] text[i]) is Some
}

/// The number that a text of decimal digits writes, the first digit counting
/// most. A text without characters writes 0.
pub open spec fn digits_value(text: Seq<char>) -> nat
    decreases text.len(),
{
    if text.len() == 0 {
        0
    } else {
        digits_value(text.drop_last()) * 10 + digit_of(text.last())->0
    }
}

/// The digits of `text`: all of it but a plus sign in front.
pub open spec fn unsigned_part(text: Seq<char>) -> Seq<char> {
    if text.len() > 0 && text[0] == '+' {
        text.skip(1)
    } else {
        text
    }
}

/// The number that `text` writes: one digit or more, with or without one
/// plus sign in front, nothing else before, between or after, and a value
/// that a `usize` can hold. `None` for every other text.
pub open spec fn parsed_number(text: Seq<char>) -> Option<usize> {
    let digits = unsigned_part(text);
    if digits.len() > 0 && all_digits(digits) && digits_value(digits) <= usize::MAX {
        Some(digits_value(digits) as usize)
    } else {
        None
    }
}

/// The character of a decimal digit. Meaningful for `d` up to 9.
pub open spec fn digit_char(d: nat) -> char {
    ('0' as nat + d) as char
}

/// A whole number written in decimal, without a sign and without leading
/// zeros.
pub open spec fn decimal(n: nat) -> Seq<char>
    decreases n,
{
    if n < 10 {
        seq![digit_char(n)]
    } else {
        decimal(n / 10).push(digit_char(n % 10))
    }
}

/// More digits never write a smaller number.
pub proof fn lemma_value_grows(text: Seq<char>, n: int)
    requires
        0 <= n <= text.len(),
    ensures
        digits_value(text.take(n)) <= digits_value(text),
    decreases text.len(),
{
    if n == text.len() {
        assert(text.take(n) =~= text);
    } else {
        lemma_value_grows(text.drop_last(), n);
        assert(text.drop_last().take(n) =~= text.take(n));
    }
}

/// A number that is written in decimal and read again is the same number.
pub proof fn law_decimal_reads_back(n: usize)
    ensures
        parsed_number(decimal(n as nat)) == Some(n),
{
    lemma_decimal_digits(n as nat);
}

/// What `decimal` writes are digits, one at least, and their value is the
/// number written.
pub proof fn lemma_decimal_digits(n: nat)
    ensures
        decimal(n).len() > 0,
        all_digits(decimal(n)),
        digits_value(decimal(n)) == n,
        unsigned_part(decimal(n)) == decimal(n),
    decreases n,
{
    let last = digit_char(n % 10);
    assert(digit_of(last) == Some(n % 10));
    assert(decimal(n).last() == last);
    if n < 10 {
        assert(decimal(n).drop_last() =~= Seq::<char>::empty());
        assert(digits_value(Seq::<char>::empty()) == 0);
    } else {
        lemma_decimal_digits(n / 10);
        assert(decimal(n).drop_last() =~= decimal(n / 10));
        assert(decimal(n)[0] == decimal(n / 10)[0]);
    }
}

/// The value of a decimal digit.
pub fn digit(c: char) -> (value: Option<u8>)
    ensures
        match value {
            Some(d) => digit_of(c) == Some(d as nat) && d <= 9,
            None => digit_of(c) is None,
        },
{
    if '0' <= c && c <= '9' {
        Some((c as u32 - '0' as u32) as u8)
    } else {
        None
    }
}

/// Reads a whole number written in decimal.
pub fn parse_number(text: &str) -> (number: Option<usize>)
    ensures
        number == parsed_number(text@),
{
    let mut value: usize = 0;
    let mut signed: bool = false;
    let mut any: bool = false;
    let ghost mut start: int = 0;
    for c in it: text.chars()
        invariant
            it.seq() == text@,
            signed == (it.index() > 0 && text@[0] == '+'),
            start == if signed { 1int } else { 0int },
            any == (it.index() > start),
            all_digits(text@.subrange(start, it.index())),
            value == digits_value(text@.subrange(start, it.index())),
    {
        let ghost at = it.index();
        let ghost seen = text@.subrange(start, at);
        if c == '+' && !signed && !any {
            signed = true;
            proof {
                start = 1;
                assert(text@.subrange(1, 1) =~= Seq::<char>::empty());
            }
        } else {
            let ghost digits = unsigned_part(text@);
            proof {
                assert(digits =~= text@.skip(start));
                assert(digits[at - start] == c);
                assert(digits.take(at + 1 - start) =~= seen.push(c));
                assert(seen.push(c).drop_last() =~= seen);
                lemma_value_grows(digits, at + 1 - start);
            }
            match digit(c) {
                None => {
                    return None;
                },
                Some(d) => {
                    let scaled: usize = match value.checked_mul(10) {
                        Some(scaled) => scaled,
                        None => {
                            return None;
                        },
                    };
                    value = match scaled.checked_add(d as usize) {
                        Some(sum) => sum,
                        None => {
                            return None;
                        },
                    };
                    any = true;
                    proof {
                        assert(text@.subrange(start, at + 1) =~= seen.push(c));
                    }
                },
            }
        }
    }
    proof {
        assert(text@.subrange(start, text@.len() as int) =~= unsigned_part(text@));
    }
    if any {
        Some(value)
    } else {
        None
    }
}

/// The text of one decimal digit.
fn digit_text(d: usize) -> (text: &'static str)
    requires
        d < 10,
    ensures
        text@ == seq![digit_char(d as nat)],
{
    proof {
        reveal_strlit("0");
        reveal_strlit("1");
        reveal_strlit("2");
        reveal_strlit("3");
        reveal_strlit("4");
        reveal_strlit("5");
        reveal_strlit("6");
        reveal_strlit("7");
        reveal_strlit("8");
        reveal_strlit("9");
    }
    let text = match d {
        0 => "0",
        1 => "1",
        2 => "2",
        3 => "3",
        4 => "4",
        5 => "5",
        6 => "6",
        7 => "7",
        8 => "8",
        _ => "9",
    };
    assert(text@ =~= seq![digit_char(d as nat)]);
    text
}

/// Writes a whole number in decimal.
pub fn write_number(n: usize) -> (text: String)
    ensures
        text@ == decimal(n as nat),
    decreases n,
{
    if n < 10 {
        String::from_str(digit_text(n))
    } else {
        let mut text = write_number(n / 10);
        text.append(digit_text(n % 10));
        assert(decimal((n / 10) as nat) + seq![digit_char((n % 10) as nat)] =~= decimal(n as nat));
        text
    }
}

} // verus!
