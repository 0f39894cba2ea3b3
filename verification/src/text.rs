//! Text as sequences of characters: pieces, searching, decimal numbers and the
//! conversions between text and bytes.

use vstd::prelude::*;
use vstd::utf8::{decode_utf8, valid_utf8};

verus! {

/// `String::push` appends the character.
pub assume_specification[ String::push ](s: &mut String, ch: char)
    ensures
        final(s)@ == old(s)@.push(ch),
;

/// A text that may be missing.
pub open spec fn optional(text: Option<String>) -> Option<Seq<char>> {
    match text {
        Some(t) => Some(t@),
        None => None,
    }
}

/// The digit with the given value, for values below ten.
pub open spec fn digit(value: nat) -> char {
    (48 + value) as char
}

/// `value` in decimal, without leading zeros.
pub open spec fn decimal(value: nat) -> Seq<char>
    decreases value,
{
    if value < 10 {
        seq![digit(value)]
    } else {
        decimal(value / 10).push(digit(value % 10))
    }
}

/// `value` in decimal, with a minus sign in front of a negative number.
pub open spec fn signed_decimal(value: int) -> Seq<char> {
    if value < 0 {
        seq!['-'] + decimal((-value) as nat)
    } else {
        decimal(value as nat)
    }
}

/// Appends `value` in decimal.
pub(crate) fn push_decimal(value: u64, out: &mut String)
    ensures
        final(out)@ == old(out)@ + decimal(value as nat),
    decreases value,
{
    if value >= 10 {
        push_decimal(value / 10, out);
    }
    let last: u8 = 48u8 + (value % 10) as u8;
    out.push(last as char);
    assert(out@ =~= old(out)@ + decimal(value as nat));
}

/// `value` in decimal.
pub fn decimal_text(value: u64) -> (r: String)
    ensures
        r@ == decimal(value as nat),
{
    let mut out = String::new();
    push_decimal(value, &mut out);
    assert(out@ =~= decimal(value as nat));
    out
}

/// `value` in decimal, with its sign where it is negative.
pub fn signed_decimal_text(value: i64) -> (r: String)
    ensures
        r@ == signed_decimal(value as int),
{
    let mut out = String::new();
    if value < 0 {
        out.push('-');
        let size: u64 = (-(value + 1)) as u64 + 1;
        push_decimal(size, &mut out);
    } else {
        push_decimal(value as u64, &mut out);
    }
    assert(out@ =~= signed_decimal(value as int));
    out
}

/// The characters of `text`.
pub(crate) fn chars_of(text: &str) -> (r: Vec<char>)
    ensures
        r@ == text@,
{
    let mut out: Vec<char> = Vec::new();
    for c in it: text.chars()
        invariant
            out@ == it.seq().take(it.index()),
            it.seq() == text@,
    {
        out.push(c);
        assert(out@ =~= it.seq().take(it.index() + 1));
    }
    assert(out@ =~= text@);
    out
}

/// The text made of the characters from `from` up to `to`.
pub(crate) fn text_between(chars: &[char], from: usize, to: usize) -> (r: String)
    requires
        from <= to <= chars@.len(),
    ensures
        r@ == chars@.subrange(from as int, to as int),
{
    let mut out = String::new();
    let mut i: usize = from;
    while i < to
        invariant
            from <= i <= to <= chars@.len(),
            out@ == chars@.subrange(from as int, i as int),
        decreases to - i,
    {
        out.push(chars[i]);
        i = i + 1;
        assert(out@ =~= chars@.subrange(from as int, i as int));
    }
    out
}

/// Whether two texts have the same characters.
pub fn same_text(a: &str, b: &str) -> (r: bool)
    ensures
        r == (a@ == b@),
{
    let left = chars_of(a);
    let right = chars_of(b);
    if left.len() != right.len() {
        return false;
    }
    let mut i: usize = 0;
    while i < left.len()
        invariant
            left@ == a@,
            right@ == b@,
            left@.len() == right@.len(),
            0 <= i <= left@.len(),
            forall|k: int| 0 <= k < i ==> left@[k] == right@[k],
        decreases left@.len() - i,
    {
        if left[i] != right[i] {
            return false;
        }
        i = i + 1;
    }
    assert(a@ =~= b@);
    true
}

/// The index of the first `wanted` in `chars`; their number where there is none.
pub open spec fn first_index(chars: Seq<char>, wanted: char) -> nat
    decreases chars.len(),
{
    if chars.len() == 0 || chars[0] == wanted {
        0
    } else {
        1 + first_index(chars.skip(1), wanted)
    }
}

/// [`first_index`] is the place behind a run of other characters.
pub proof fn first_index_is(chars: Seq<char>, wanted: char, index: nat)
    requires
        index <= chars.len(),
        forall|k: int| 0 <= k < index ==> chars[k] != wanted,
        index < chars.len() ==> chars[index as int] == wanted,
    ensures
        first_index(chars, wanted) == index,
    decreases index,
{
    if index > 0 {
        first_index_is(chars.skip(1), wanted, (index - 1) as nat);
    }
}

/// Finds `wanted` at or behind `from`; the number of characters where it is not
/// there.
pub(crate) fn find_from(chars: &[char], wanted: char, from: usize) -> (r: usize)
    requires
        from <= chars@.len(),
    ensures
        from <= r <= chars@.len(),
        r - from == first_index(chars@.skip(from as int), wanted),
{
    let mut i: usize = from;
    while i < chars.len() && chars[i] != wanted
        invariant
            from <= i <= chars@.len(),
            forall|k: int| from <= k < i ==> chars@[k] != wanted,
        decreases chars@.len() - i,
    {
        i = i + 1;
    }
    proof {
        let rest = chars@.skip(from as int);
        assert forall|k: int| 0 <= k < i - from implies rest[k] != wanted by {
            assert(rest[k] == chars@[from + k]);
        }
        first_index_is(rest, wanted, (i - from) as nat);
    }
    i
}

/// Whether `wanted` occurs in `text`.
pub(crate) fn contains_char(text: &str, wanted: char) -> (r: bool)
    ensures
        r == text@.contains(wanted),
{
    let chars = chars_of(text);
    let mut i: usize = 0;
    while i < chars.len()
        invariant
            chars@ == text@,
            0 <= i <= chars@.len(),
            forall|k: int| 0 <= k < i ==> chars@[k] != wanted,
        decreases chars@.len() - i,
    {
        if chars[i] == wanted {
            assert(text@[i as int] == wanted);
            return true;
        }
        i = i + 1;
    }
    false
}

/// What the standard library says of bytes that are not UTF-8.
pub uninterp spec fn utf8_fault(bytes: Seq<u8>) -> Seq<char>;

/// Reads bytes as text by `std::str::from_utf8`. Trusted: that function gives the
/// text whose UTF-8 encoding the bytes are, and fails on any other bytes; what its
/// error says depends on the bytes alone.
#[verifier::external_body]
pub(crate) fn utf8_text(bytes: &[u8]) -> (r: Result<&str, String>)
    ensures
        match r {
            Ok(text) => valid_utf8(bytes@) && text@ == decode_utf8(bytes@),
            Err(fault) => !valid_utf8(bytes@) && fault@ == utf8_fault(bytes@),
        },
{
    match std::str::from_utf8(bytes) {
        Ok(text) => Ok(text),
        Err(e) => Err(e.to_string()),
    }
}

/// What the standard library says of owned bytes that are not UTF-8.
pub uninterp spec fn owned_utf8_fault(bytes: Seq<u8>) -> Seq<char>;

/// Makes bytes text by `String::from_utf8`. Trusted: that function gives the text
/// whose UTF-8 encoding the bytes are, and fails on any other bytes; what its error
/// says depends on the bytes alone.
#[verifier::external_body]
pub(crate) fn owned_utf8_text(bytes: Vec<u8>) -> (r: Result<String, String>)
    ensures
        match r {
            Ok(text) => valid_utf8(bytes@) && text@ == decode_utf8(bytes@),
            Err(fault) => !valid_utf8(bytes@) && fault@ == owned_utf8_fault(bytes@),
        },
{
    match String::from_utf8(bytes) {
        Ok(text) => Ok(text),
        Err(e) => Err(e.to_string()),
    }
}

/// The text that bytes are read as where what is not UTF-8 is replaced.
pub uninterp spec fn lossy(bytes: Seq<u8>) -> Seq<char>;

/// Whether bytes that are UTF-8 are read as the text that they encode.
pub open spec fn lossy_keeps_text(bytes: Seq<u8>) -> bool {
    valid_utf8(bytes) ==> lossy(bytes) == decode_utf8(bytes)
}

/// Reads bytes as text by `String::from_utf8_lossy`, which puts U+FFFD in place of
/// what is not UTF-8. Trusted: the result depends on the bytes alone, and bytes
/// that are UTF-8 give the text that they encode.
#[verifier::external_body]
pub(crate) fn lossy_text(bytes: &[u8]) -> (r: String)
    ensures
        r@ == lossy(bytes@),
        valid_utf8(bytes@) ==> r@ == decode_utf8(bytes@),
{
    String::from_utf8_lossy(bytes).into_owned()
}

/// What `{:?}` gives for `text`.
pub uninterp spec fn debug_form(text: Seq<char>) -> Seq<char>;

/// Formats `text` by `std::fmt::Debug`, which puts it in quotes and escapes what
/// does not print. Trusted: the result depends on the text alone.
#[verifier::external_body]
pub(crate) fn debug_text(text: &str) -> (r: String)
    ensures
        r@ == debug_form(text@),
{
    format!("{text:?}")
}

/// Whether two runs of bytes are the same.
pub(crate) fn same_bytes(a: &[u8], b: &[u8]) -> (r: bool)
    ensures
        r == (a@ == b@),
{
    if a.len() != b.len() {
        return false;
    }
    let mut i: usize = 0;
    while i < a.len()
        invariant
            a@.len() == b@.len(),
            0 <= i <= a@.len(),
            forall|k: int| 0 <= k < i ==> a@[k] == b@[k],
        decreases a@.len() - i,
    {
        if a[i] != b[i] {
            return false;
        }
        i = i + 1;
    }
    assert(a@ =~= b@);
    true
}

/// The text of `a` followed by that of `b`.
pub(crate) fn pair(a: &str, b: &str) -> (r: String)
    ensures
        r@ == a@ + b@,
{
    let mut out = a.to_owned();
    out.append(b);
    out
}

/// The texts of `a`, `b` and `c`, one after the other.
pub(crate) fn triple(a: &str, b: &str, c: &str) -> (r: String)
    ensures
        r@ == a@ + b@ + c@,
{
    let mut out = a.to_owned();
    out.append(b);
    out.append(c);
    out
}

} // verus!
