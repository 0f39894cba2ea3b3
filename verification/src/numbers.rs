//! Whole numbers in text.

use vstd::prelude::*;

use crate::text;
use crate::text::{decimal, digit, signed_decimal};

verus! {

/// Why a text is not a number of the wanted type.
#[derive(Debug, Clone, Copy, PartialEq, Eq, Structural)]
pub enum IntFault {
    Empty,
    InvalidDigit,
    PosOverflow,
    NegOverflow,
}

impl IntFault {
    /// The fault in words.
    pub open spec fn text(self) -> Seq<char> {
        match self {
            IntFault::Empty => "cannot parse integer from empty string"@,
            IntFault::InvalidDigit => "invalid digit found in string"@,
            IntFault::PosOverflow => "number too large to fit in target type"@,
            IntFault::NegOverflow => "number too small to fit in target type"@,
        }
    }

    /// The fault in words.
    pub fn message(self) -> (r: String)
        ensures
            r@ == self.text(),
    {
        match self {
            IntFault::Empty => "cannot parse integer from empty string".to_owned(),
            IntFault::InvalidDigit => "invalid digit found in string".to_owned(),
            IntFault::PosOverflow => "number too large to fit in target type".to_owned(),
            IntFault::NegOverflow => "number too small to fit in target type".to_owned(),
        }
    }
}

/// Whether a character has the Unicode property White_Space.
pub open spec fn white_space(c: char) -> bool {
    let code = c as int;
    ||| 0x9 <= code <= 0xd
    ||| code == 0x20
    ||| code == 0x85
    ||| code == 0xa0
    ||| code == 0x1680
    ||| 0x2000 <= code <= 0x200a
    ||| code == 0x2028
    ||| code == 0x2029
    ||| code == 0x202f
    ||| code == 0x205f
    ||| code == 0x3000
}

fn is_white_space(c: char) -> (r: bool)
    ensures
        r == white_space(c),
{
    ('\u{9}' <= c && c <= '\u{d}') || c == '\u{20}' || c == '\u{85}' || c == '\u{a0}' || c
        == '\u{1680}' || ('\u{2000}' <= c && c <= '\u{200a}') || c == '\u{2028}' || c == '\u{2029}'
        || c == '\u{202f}' || c == '\u{205f}' || c == '\u{3000}'
}

/// `chars` without the white space in front.
pub open spec fn trimmed_front(chars: Seq<char>) -> Seq<char>
    decreases chars.len(),
{
    if chars.len() > 0 && white_space(chars[0]) {
        trimmed_front(chars.skip(1))
    } else {
        chars
    }
}

/// `chars` without the white space at the end.
pub open spec fn trimmed_back(chars: Seq<char>) -> Seq<char>
    decreases chars.len(),
{
    if chars.len() > 0 && white_space(chars.last()) {
        trimmed_back(chars.drop_last())
    } else {
        chars
    }
}

/// `chars` without the white space around them.
pub open spec fn trimmed(chars: Seq<char>) -> Seq<char> {
    trimmed_back(trimmed_front(chars))
}

/// The characters of `text` without the white space around them.
pub(crate) fn trimmed_chars(text: &str) -> (r: Vec<char>)
    ensures
        r@ == trimmed(text@),
{
    let chars = text::chars_of(text);
    let mut from: usize = 0;
    assert(chars@.skip(0) =~= chars@);
    while from < chars.len() && is_white_space(chars[from])
        invariant
            chars@ == text@,
            0 <= from <= chars@.len(),
            trimmed_front(chars@.skip(from as int)) == trimmed_front(text@),
        decreases chars@.len() - from,
    {
        assert(chars@.skip(from as int).skip(1) =~= chars@.skip(from + 1));
        from = from + 1;
    }
    let ghost front = trimmed_front(text@);
    assert(front == chars@.skip(from as int));
    let mut out: Vec<char> = Vec::new();
    let mut i: usize = from;
    while i < chars.len()
        invariant
            from <= i <= chars@.len(),
            out@ == chars@.subrange(from as int, i as int),
        decreases chars@.len() - i,
    {
        out.push(chars[i]);
        i = i + 1;
        assert(out@ =~= chars@.subrange(from as int, i as int));
    }
    assert(out@ =~= front);
    while out.len() > 0 && is_white_space(out[out.len() - 1])
        invariant
            trimmed_back(out@) == trimmed_back(front),
        decreases out@.len(),
    {
        let ghost had = out@;
        let _ = out.pop();
        assert(out@ =~= had.drop_last());
    }
    out
}

/// The value of a decimal digit.
pub open spec fn digit_value(c: char) -> Option<int> {
    if 48 <= c as int <= 57 {
        Some(c as int - 48)
    } else {
        None
    }
}

/// The number that the digits write, to be negated where it is not positive, where
/// it stays between `min` and `max` from digit to digit.
pub open spec fn scanned(digits: Seq<char>, positive: bool, min: int, max: int) -> Result<
    int,
    IntFault,
>
    decreases digits.len(),
{
    if digits.len() == 0 {
        Ok(0)
    } else {
        match scanned(digits.drop_last(), positive, min, max) {
            Err(fault) => Err(fault),
            Ok(value) => match digit_value(digits.last()) {
                None => Err(IntFault::InvalidDigit),
                Some(d) => {
                    let next = if positive {
                        value * 10 + d
                    } else {
                        value * 10 - d
                    };
                    if next > max {
                        Err(IntFault::PosOverflow)
                    } else if next < min {
                        Err(IntFault::NegOverflow)
                    } else {
                        Ok(next)
                    }
                },
            },
        }
    }
}

/// The number between `min` and `max` that `chars` write: digits, behind a plus
/// sign or, where negative numbers are wanted, a minus sign.
pub open spec fn parsed(chars: Seq<char>, min: int, max: int) -> Result<int, IntFault> {
    if chars.len() == 0 {
        Err(IntFault::Empty)
    } else if chars.len() == 1 && (chars[0] == '+' || chars[0] == '-') {
        Err(IntFault::InvalidDigit)
    } else if chars[0] == '+' {
        scanned(chars.skip(1), true, min, max)
    } else if chars[0] == '-' && min < 0 {
        scanned(chars.skip(1), false, min, max)
    } else {
        scanned(chars, true, min, max)
    }
}

proof fn lemma_scan_fails_early(
    digits: Seq<char>,
    positive: bool,
    min: int,
    max: int,
    count: int,
)
    requires
        0 <= count <= digits.len(),
    ensures
        scanned(digits.take(count), positive, min, max) matches Err(fault) ==> scanned(
            digits,
            positive,
            min,
            max,
        ) == Err::<int, _>(fault),
    decreases digits.len(),
{
    if count == digits.len() {
        assert(digits.take(count) =~= digits);
    } else {
        assert(digits.drop_last().take(count) =~= digits.take(count));
        lemma_scan_fails_early(digits.drop_last(), positive, min, max, count);
    }
}

fn scan(chars: &Vec<char>, from: usize, positive: bool, min: i128, max: i128) -> (r: Result<
    i128,
    IntFault,
>)
    requires
        from <= chars@.len(),
        -0x1_0000_0000_0000_0000 <= min <= 0 <= max <= 0x1_0000_0000_0000_0000,
    ensures
        match r {
            Ok(value) => scanned(
                chars@.skip(from as int),
                positive,
                min as int,
                max as int,
            ) == Ok::<int, IntFault>(value as int),
            Err(fault) => scanned(
                chars@.skip(from as int),
                positive,
                min as int,
                max as int,
            ) == Err::<int, _>(fault),
        },
        r matches Ok(value) ==> min <= value <= max,
{
    let ghost digits = chars@.skip(from as int);
    let mut value: i128 = 0;
    let mut i: usize = from;
    assert(digits.take(0) =~= Seq::<char>::empty());
    while i < chars.len()
        invariant
            from <= i <= chars@.len(),
            digits == chars@.skip(from as int),
            -0x1_0000_0000_0000_0000 <= min <= value <= max <= 0x1_0000_0000_0000_0000,
            min <= 0 <= max,
            scanned(digits.take(i - from), positive, min as int, max as int) == Ok::<int, IntFault>(
                value as int,
            ),
        decreases chars@.len() - i,
    {
        let c = chars[i];
        proof {
            assert(digits.take(i - from + 1).drop_last() =~= digits.take(i - from));
            assert(digits.take(i - from + 1).last() == c);
            lemma_scan_fails_early(digits, positive, min as int, max as int, i - from + 1);
        }
        if !('0' <= c && c <= '9') {
            return Err(IntFault::InvalidDigit);
        }
        let d: i128 = (c as u32 - 48) as i128;
        let next: i128 = if positive {
            value * 10 + d
        } else {
            value * 10 - d
        };
        if next > max {
            return Err(IntFault::PosOverflow);
        }
        if next < min {
            return Err(IntFault::NegOverflow);
        }
        value = next;
        i = i + 1;
    }
    assert(digits.take(i - from) =~= digits);
    Ok(value)
}

/// Reads a number between `min` and `max`.
pub(crate) fn parse_integer(chars: &Vec<char>, min: i128, max: i128) -> (r: Result<i128, IntFault>)
    requires
        -0x1_0000_0000_0000_0000 <= min <= 0 <= max <= 0x1_0000_0000_0000_0000,
    ensures
        match r {
            Ok(value) => parsed(chars@, min as int, max as int) == Ok::<int, IntFault>(
                value as int,
            ),
            Err(fault) => parsed(chars@, min as int, max as int) == Err::<int, _>(fault),
        },
        r matches Ok(value) ==> min <= value <= max,
{
    if chars.len() == 0 {
        return Err(IntFault::Empty);
    }
    let first = chars[0];
    if chars.len() == 1 && (first == '+' || first == '-') {
        return Err(IntFault::InvalidDigit);
    }
    assert(chars@.skip(0) =~= chars@);
    if first == '+' {
        scan(chars, 1, true, min, max)
    } else if first == '-' && min < 0 {
        scan(chars, 1, false, min, max)
    } else {
        scan(chars, 0, true, min, max)
    }
}

proof fn lemma_decimal_scans(value: nat, positive: bool, min: int, max: int)
    requires
        min <= 0 <= max,
        positive ==> value <= max,
        !positive ==> -(value as int) >= min,
    ensures
        scanned(decimal(value), positive, min, max) == Ok::<int, IntFault>(
            if positive {
                value as int
            } else {
                -(value as int)
            },
        ),
        decimal(value).len() >= 1,
        forall|i: int|
            0 <= i < decimal(value).len() ==> 48 <= (#[trigger] decimal(value)[i]) as int <= 57,
    decreases value,
{
    let digits = decimal(value);
    if value < 10 {
        assert(digits.drop_last() =~= Seq::<char>::empty());
        reveal_with_fuel(scanned, 2);
        assert(digits[0] as int == 48 + value);
    } else {
        let high = value / 10;
        lemma_decimal_scans(high, positive, min, max);
        assert(digits.drop_last() =~= decimal(high));
        assert(digits.last() as int == 48 + value % 10);
    }
}

proof fn lemma_nothing_to_trim(chars: Seq<char>)
    requires
        chars.len() >= 1,
        !white_space(chars[0]),
        !white_space(chars.last()),
    ensures
        trimmed(chars) == chars,
{
}

/// A number that is written in decimal reads back, wherever it is in range.
pub proof fn written_numbers_read_back(value: int, min: int, max: int)
    requires
        min <= 0 <= max,
        min <= value <= max,
    ensures
        parsed(trimmed(signed_decimal(value)), min, max) == Ok::<int, IntFault>(value),
{
    let written = signed_decimal(value);
    if value < 0 {
        let size = (-value) as nat;
        lemma_decimal_scans(size, false, min, max);
        assert(written.skip(1) =~= decimal(size));
        assert(written.last() == decimal(size)[decimal(size).len() - 1]);
        lemma_nothing_to_trim(written);
    } else {
        lemma_decimal_scans(value as nat, true, min, max);
        assert(written.last() == decimal(value as nat)[written.len() - 1]);
        lemma_nothing_to_trim(written);
    }
}

} // verus!
