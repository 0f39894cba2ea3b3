//! How arguments are read, results written and calls routed.

use vstd::prelude::*;
use vstd::utf8::{decode_utf8, encode_utf8, encode_utf8_decode_utf8, encode_utf8_valid_utf8};
use vstd::utf8::valid_utf8;

use crate::contract::{array_of, array_schema, bool_arg, bool_text, int_arg, plain_schema};
use crate::contract::read_array;
use crate::contract::{returned_numbers_read_back, ContractArg, ContractReturn, ContractSchema};
use crate::dispatch::{accept_argument, argument_fault, called, conclude, describe_contract};
use crate::dispatch::{describe_transaction, function_name, last_segment, parameter_views};
use crate::dispatch::{read_argument, route, routed};
use crate::dispatch::{transaction_views, Signature};
use crate::error_laws::base_10;
use crate::json::{Json, Value};
use crate::metadata::{Metadata, Transaction};
use crate::numbers::{parsed, scanned, trimmed, trimmed_back, trimmed_front};
use crate::numbers::{white_space, IntFault};
use crate::response::Response;
use crate::text;
use crate::text::signed_decimal;
use crate::text_map::TextMap;

verus! {

// ---- schemas ---------------------------------------------------------------
/// The schema that names a type.
pub open spec fn type_schema(name: Seq<char>) -> Json {
    Json::Object(seq![("type"@, Json::Text(name))])
}

/// A plain type is described by its name, an array by its items.
pub proof fn schemas_name_their_type(name: Seq<char>, items: Json)
    ensures
        plain_schema(name) == type_schema(name),
        array_schema(items) == Json::Object(
            seq![("items"@, items), ("type"@, Json::Text("array"@))],
        ),
{
}

/// A list is described as an array of its items, and brings along what they do.
pub proof fn lists_are_arrays<T: ContractSchema>(known: Seq<(Seq<char>, Json)>)
    ensures
        <Vec<T> as ContractSchema>::described() == array_schema(T::described()),
        <Vec<T> as ContractSchema>::registered(known) == T::registered(known),
{
}

/// Nothing is returned as nothing, and has no schema.
pub proof fn nothing_is_returned_as_nothing(known: Seq<(Seq<char>, Json)>)
    ensures
        ().payload() matches Ok(bytes) && bytes.len() == 0,
        <() as ContractSchema>::described() == Json::Null,
        <() as ContractSchema>::registered(known) == known,
{
}

// ---- text and truth values -------------------------------------------------
/// A text is described as a string, is returned as its bytes, and is read from exactly
/// the bytes that are text.
pub proof fn text_is_its_bytes(
    value: String,
    raw: Seq<u8>,
    given: Result<String, String>,
    known: Seq<(Seq<char>, Json)>,
)
    ensures
        <String as ContractSchema>::described() == type_schema("string"@),
        <String as ContractSchema>::registered(known) == known,
        value.payload() == Ok::<_, Seq<char>>(encode_utf8(value@)),
        <String as ContractArg>::reads(raw, given) ==> (given is Ok <==> valid_utf8(raw)),
        <String as ContractArg>::reads(raw, given) ==> (given matches Ok(read) ==> read@
            == decode_utf8(raw)),
        <String as ContractArg>::reads(raw, given) ==> (given matches Err(said) ==> said@
            == text::owned_utf8_fault(raw)),
        <String as ContractArg>::reads(encode_utf8(value@), given) ==> (given matches Ok(read)
            && read@ == value@),
{
    encode_utf8_valid_utf8(value@);
    encode_utf8_decode_utf8(value@);
    assert(<String as ContractSchema>::described()->Object_0 =~= type_schema(
        "string"@,
    )->Object_0);
}

/// A truth value is described as one, is returned as its word, and is read from its
/// word alone, with or without white space around it.
pub proof fn truth_values_are_words(
    value: bool,
    raw: Seq<u8>,
    word: Seq<char>,
    given: Result<bool, String>,
    known: Seq<(Seq<char>, Json)>,
)
    ensures
        <bool as ContractSchema>::described() == type_schema("boolean"@),
        <bool as ContractSchema>::registered(known) == known,
        true.payload() == Ok::<_, Seq<char>>(encode_utf8("true"@)),
        false.payload() == Ok::<_, Seq<char>>(encode_utf8("false"@)),
        bool_text(true) == "true"@,
        bool_text(false) == "false"@,
        <bool as ContractArg>::reads(raw, given) && !valid_utf8(raw) ==> (given matches Err(said)
            && said@ == text::utf8_fault(raw)),
        <bool as ContractArg>::reads(encode_utf8(word), given) ==> {
            &&& given == Ok::<bool, String>(true) <==> trimmed(word) == "true"@
            &&& given == Ok::<bool, String>(false) <==> trimmed(word) == "false"@
            &&& given matches Err(said) ==> said@ == "expected \"true\" or \"false\""@
        },
        bool_arg(encode_utf8(word)) is Ok <==> trimmed(word) == "true"@ || trimmed(word)
            == "false"@,
{
    encode_utf8_valid_utf8(word);
    encode_utf8_decode_utf8(word);
    reveal_strlit("true");
    reveal_strlit("false");
    assert("true"@.len() != "false"@.len());
    assert(<bool as ContractSchema>::described()->Object_0 =~= type_schema(
        "boolean"@,
    )->Object_0);
}

// ---- white space -----------------------------------------------------------
/// The characters that count as white space.
pub proof fn white_space_is_that_of_unicode(c: char)
    ensures
        white_space(c) <==> c == '\t' || c == '\n' || c == '\u{b}' || c == '\u{c}' || c == '\r' || c
            == ' ' || c == '\u{85}' || c == '\u{a0}' || c == '\u{1680}' || c == '\u{2000}' || c
            == '\u{2001}' || c == '\u{2002}' || c == '\u{2003}' || c == '\u{2004}' || c
            == '\u{2005}' || c == '\u{2006}' || c == '\u{2007}' || c == '\u{2008}' || c
            == '\u{2009}' || c == '\u{200a}' || c == '\u{2028}' || c == '\u{2029}' || c
            == '\u{202f}' || c == '\u{205f}' || c == '\u{3000}',
{
}

/// Whether all of `chars` are white space.
pub open spec fn blank(chars: Seq<char>) -> bool {
    forall|i: int| 0 <= i < chars.len() ==> white_space(#[trigger] chars[i])
}

proof fn lemma_front(front: Seq<char>, rest: Seq<char>)
    requires
        blank(front),
        rest.len() == 0 || !white_space(rest[0]),
    ensures
        trimmed_front(front + rest) == rest,
    decreases front.len(),
{
    if front.len() == 0 {
        assert(front + rest =~= rest);
    } else {
        let later = front.skip(1);
        assert((front + rest)[0] == front[0]);
        assert((front + rest).skip(1) =~= later + rest);
        assert forall|i: int| 0 <= i < later.len() implies white_space(#[trigger] later[i]) by {
            assert(later[i] == front[i + 1]);
        }
        lemma_front(later, rest);
    }
}

proof fn lemma_back(rest: Seq<char>, back: Seq<char>)
    requires
        blank(back),
        rest.len() == 0 || !white_space(rest.last()),
    ensures
        trimmed_back(rest + back) == rest,
    decreases back.len(),
{
    if back.len() == 0 {
        assert(rest + back =~= rest);
    } else {
        let earlier = back.drop_last();
        assert((rest + back).last() == back[back.len() - 1]);
        assert((rest + back).drop_last() =~= rest + earlier);
        assert forall|i: int| 0 <= i < earlier.len() implies white_space(
            #[trigger] earlier[i],
        ) by {
            assert(earlier[i] == back[i]);
        }
        lemma_back(rest, earlier);
    }
}

/// White space around a word does not count; the word itself is kept.
pub proof fn white_space_around_a_word_does_not_count(
    front: Seq<char>,
    word: Seq<char>,
    back: Seq<char>,
)
    requires
        blank(front),
        blank(back),
        word.len() > 0,
        !white_space(word[0]),
        !white_space(word.last()),
    ensures
        trimmed(front + word + back) == word,
        trimmed(front) == Seq::<char>::empty(),
{
    assert(front + word + back =~= front + (word + back));
    lemma_front(front, word + back);
    lemma_back(word, back);
    lemma_front(front, seq![]);
    assert(front + Seq::<char>::empty() =~= front);
}

// ---- whole numbers ---------------------------------------------------------
/// Whether all of `chars` are decimal digits.
pub open spec fn all_digits(chars: Seq<char>) -> bool {
    forall|i: int| 0 <= i < chars.len() ==> '0' <= (#[trigger] chars[i]) <= '9'
}

/// Digits stand for the number that they write in base ten, where it is in range; a
/// number out of range is told by the side on which it is.
pub proof fn digits_write_numbers(digits: Seq<char>, min: int, max: int)
    requires
        all_digits(digits),
        min <= 0 <= max,
    ensures
        scanned(digits, true, min, max) == if base_10(digits) <= max {
            Ok::<int, IntFault>(base_10(digits) as int)
        } else {
            Err::<int, IntFault>(IntFault::PosOverflow)
        },
        scanned(digits, false, min, max) == if -(base_10(digits) as int) >= min {
            Ok::<int, IntFault>(-(base_10(digits) as int))
        } else {
            Err::<int, IntFault>(IntFault::NegOverflow)
        },
    decreases digits.len(),
{
    if digits.len() > 0 {
        let earlier = digits.drop_last();
        assert forall|i: int| 0 <= i < earlier.len() implies '0' <= (#[trigger] earlier[i])
            <= '9' by {
            assert(earlier[i] == digits[i]);
        }
        assert('0' <= digits[digits.len() - 1] <= '9');
        digits_write_numbers(earlier, min, max);
    }
}

/// The first character that is no digit is told, where what is before it is in range.
pub proof fn what_is_no_digit_is_told(
    digits: Seq<char>,
    strange: char,
    rest: Seq<char>,
    positive: bool,
    min: int,
    max: int,
)
    requires
        all_digits(digits),
        min <= 0 <= max,
        !('0' <= strange <= '9'),
        positive ==> base_10(digits) <= max,
        !positive ==> -(base_10(digits) as int) >= min,
    ensures
        scanned(digits.push(strange) + rest, positive, min, max) == Err::<int, _>(
            IntFault::InvalidDigit,
        ),
    decreases rest.len(),
{
    let all = digits.push(strange) + rest;
    if rest.len() == 0 {
        assert(all =~= digits.push(strange));
        assert(all.drop_last() =~= digits);
        digits_write_numbers(digits, min, max);
    } else {
        assert(all.drop_last() =~= digits.push(strange) + rest.drop_last());
        what_is_no_digit_is_told(digits, strange, rest.drop_last(), positive, min, max);
    }
}

/// A number may have a plus sign, and a minus sign where there are negative numbers; a
/// sign alone, and a minus sign where there are none, are no digits. Nothing is told
/// apart from that.
pub proof fn numbers_may_have_a_sign(digits: Seq<char>, min: int, max: int)
    requires
        all_digits(digits),
        min <= 0 <= max,
    ensures
        parsed(seq![], min, max) == Err::<int, _>(IntFault::Empty),
        digits.len() > 0 ==> parsed(digits, min, max) == scanned(digits, true, min, max),
        digits.len() > 0 ==> parsed(seq!['+'] + digits, min, max) == scanned(
            digits,
            true,
            min,
            max,
        ),
        digits.len() > 0 && min < 0 ==> parsed(seq!['-'] + digits, min, max) == scanned(
            digits,
            false,
            min,
            max,
        ),
        parsed(seq!['+'], min, max) == Err::<int, _>(IntFault::InvalidDigit),
        parsed(seq!['-'], min, max) == Err::<int, _>(IntFault::InvalidDigit),
        min == 0 ==> parsed(seq!['-'] + digits, min, max) == Err::<int, _>(
            IntFault::InvalidDigit,
        ),
{
    assert((seq!['+'] + digits).skip(1) =~= digits);
    assert((seq!['-'] + digits).skip(1) =~= digits);
    if digits.len() > 0 {
        assert('0' <= digits[0] <= '9');
    }
    let none = Seq::<char>::empty();
    assert(base_10(none) == 0);
    what_is_no_digit_is_told(none, '-', digits, true, min, max);
    assert(none.push('-') + digits =~= seq!['-'] + digits);
    assert(seq!['-'] + none =~= seq!['-']);
}

/// An argument is a number where it is text that writes one, with or without white
/// space around it.
pub proof fn arguments_write_numbers(raw: Seq<u8>, word: Seq<char>, min: int, max: int)
    ensures
        !valid_utf8(raw) ==> int_arg(raw, min, max) == Err::<int, _>(text::utf8_fault(raw)),
        int_arg(encode_utf8(word), min, max) == match parsed(trimmed(word), min, max) {
            Ok(number) => Ok::<int, Seq<char>>(number),
            Err(fault) => Err::<int, Seq<char>>(fault.text()),
        },
{
    encode_utf8_valid_utf8(word);
    encode_utf8_decode_utf8(word);
}

/// What is said of a text that is no number.
pub proof fn faulty_numbers_are_told()
    ensures
        IntFault::Empty.text() == "cannot parse integer from empty string"@,
        IntFault::InvalidDigit.text() == "invalid digit found in string"@,
        IntFault::PosOverflow.text() == "number too large to fit in target type"@,
        IntFault::NegOverflow.text() == "number too small to fit in target type"@,
{
}

/// A `u8` is described as a whole number, brings no schemas along, is returned in
/// decimal, and is read where the argument is a number that it can hold.
pub proof fn u8_is_a_whole_number(
    value: u8,
    raw: Seq<u8>,
    given: Result<u8, String>,
    known: Seq<(Seq<char>, Json)>,
)
    ensures
        <u8 as ContractSchema>::described() == type_schema("integer"@),
        <u8 as ContractSchema>::registered(known) == known,
        value.payload() == Ok::<_, Seq<char>>(encode_utf8(signed_decimal(value as int))),
        <u8 as ContractArg>::reads(raw, given) ==> match given {
            Ok(number) => int_arg(raw, 0, 0xff) == Ok::<_, Seq<char>>(number as int),
            Err(said) => int_arg(raw, 0, 0xff) == Err::<int, _>(said@),
        },
        <u8 as ContractArg>::reads(encode_utf8(signed_decimal(value as int)), given) ==> given
            == Ok::<u8, String>(value),
{
    returned_numbers_read_back(value as int, u8::MIN as int, u8::MAX as int);
    assert(<u8 as ContractSchema>::described()->Object_0 =~= type_schema("integer"@)->Object_0);
}

/// A `u16` is described as a whole number, brings no schemas along, is returned in
/// decimal, and is read where the argument is a number that it can hold.
pub proof fn u16_is_a_whole_number(
    value: u16,
    raw: Seq<u8>,
    given: Result<u16, String>,
    known: Seq<(Seq<char>, Json)>,
)
    ensures
        <u16 as ContractSchema>::described() == type_schema("integer"@),
        <u16 as ContractSchema>::registered(known) == known,
        value.payload() == Ok::<_, Seq<char>>(encode_utf8(signed_decimal(value as int))),
        <u16 as ContractArg>::reads(raw, given) ==> match given {
            Ok(number) => int_arg(raw, 0, 0xffff) == Ok::<_, Seq<char>>(number as int),
            Err(said) => int_arg(raw, 0, 0xffff) == Err::<int, _>(said@),
        },
        <u16 as ContractArg>::reads(encode_utf8(signed_decimal(value as int)), given) ==> given
            == Ok::<u16, String>(value),
{
    returned_numbers_read_back(value as int, u16::MIN as int, u16::MAX as int);
    assert(<u16 as ContractSchema>::described()->Object_0 =~= type_schema("integer"@)->Object_0);
}

/// A `u32` is described as a whole number, brings no schemas along, is returned in
/// decimal, and is read where the argument is a number that it can hold.
pub proof fn u32_is_a_whole_number(
    value: u32,
    raw: Seq<u8>,
    given: Result<u32, String>,
    known: Seq<(Seq<char>, Json)>,
)
    ensures
        <u32 as ContractSchema>::described() == type_schema("integer"@),
        <u32 as ContractSchema>::registered(known) == known,
        value.payload() == Ok::<_, Seq<char>>(encode_utf8(signed_decimal(value as int))),
        <u32 as ContractArg>::reads(raw, given) ==> match given {
            Ok(number) => int_arg(raw, 0, 0xffff_ffff) == Ok::<_, Seq<char>>(number as int),
            Err(said) => int_arg(raw, 0, 0xffff_ffff) == Err::<int, _>(said@),
        },
        <u32 as ContractArg>::reads(encode_utf8(signed_decimal(value as int)), given) ==> given
            == Ok::<u32, String>(value),
{
    returned_numbers_read_back(value as int, u32::MIN as int, u32::MAX as int);
    assert(<u32 as ContractSchema>::described()->Object_0 =~= type_schema("integer"@)->Object_0);
}

/// A `u64` is described as a whole number, brings no schemas along, is returned in
/// decimal, and is read where the argument is a number that it can hold.
pub proof fn u64_is_a_whole_number(
    value: u64,
    raw: Seq<u8>,
    given: Result<u64, String>,
    known: Seq<(Seq<char>, Json)>,
)
    ensures
        <u64 as ContractSchema>::described() == type_schema("integer"@),
        <u64 as ContractSchema>::registered(known) == known,
        value.payload() == Ok::<_, Seq<char>>(encode_utf8(signed_decimal(value as int))),
        <u64 as ContractArg>::reads(raw, given) ==> match given {
            Ok(number) => int_arg(
                raw,
                0,
                0xffff_ffff_ffff_ffff,
            ) == Ok::<_, Seq<char>>(number as int),
            Err(said) => int_arg(raw, 0, 0xffff_ffff_ffff_ffff) == Err::<int, _>(said@),
        },
        <u64 as ContractArg>::reads(encode_utf8(signed_decimal(value as int)), given) ==> given
            == Ok::<u64, String>(value),
{
    returned_numbers_read_back(value as int, u64::MIN as int, u64::MAX as int);
    assert(<u64 as ContractSchema>::described()->Object_0 =~= type_schema("integer"@)->Object_0);
}

/// A `usize` is described as a whole number, brings no schemas along, is returned in
/// decimal, and is read where the argument is a number that it can hold.
pub proof fn usize_is_a_whole_number(
    value: usize,
    raw: Seq<u8>,
    given: Result<usize, String>,
    known: Seq<(Seq<char>, Json)>,
)
    ensures
        <usize as ContractSchema>::described() == type_schema("integer"@),
        <usize as ContractSchema>::registered(known) == known,
        value.payload() == Ok::<_, Seq<char>>(encode_utf8(signed_decimal(value as int))),
        <usize as ContractArg>::reads(raw, given) ==> match given {
            Ok(number) => int_arg(raw, 0, usize::MAX as int) == Ok::<_, Seq<char>>(number as int),
            Err(said) => int_arg(raw, 0, usize::MAX as int) == Err::<int, _>(said@),
        },
        <usize as ContractArg>::reads(encode_utf8(signed_decimal(value as int)), given) ==> given
            == Ok::<usize, String>(value),
{
    returned_numbers_read_back(value as int, usize::MIN as int, usize::MAX as int);
    assert(<usize as ContractSchema>::described()->Object_0 =~= type_schema("integer"@)->Object_0);
}

/// A `i8` is described as a whole number, brings no schemas along, is returned in
/// decimal, and is read where the argument is a number that it can hold.
pub proof fn i8_is_a_whole_number(
    value: i8,
    raw: Seq<u8>,
    given: Result<i8, String>,
    known: Seq<(Seq<char>, Json)>,
)
    ensures
        <i8 as ContractSchema>::described() == type_schema("integer"@),
        <i8 as ContractSchema>::registered(known) == known,
        value.payload() == Ok::<_, Seq<char>>(encode_utf8(signed_decimal(value as int))),
        <i8 as ContractArg>::reads(raw, given) ==> match given {
            Ok(number) => int_arg(raw, -0x80, 0x7f) == Ok::<_, Seq<char>>(number as int),
            Err(said) => int_arg(raw, -0x80, 0x7f) == Err::<int, _>(said@),
        },
        <i8 as ContractArg>::reads(encode_utf8(signed_decimal(value as int)), given) ==> given
            == Ok::<i8, String>(value),
{
    returned_numbers_read_back(value as int, i8::MIN as int, i8::MAX as int);
    assert(<i8 as ContractSchema>::described()->Object_0 =~= type_schema("integer"@)->Object_0);
}

/// A `i16` is described as a whole number, brings no schemas along, is returned in
/// decimal, and is read where the argument is a number that it can hold.
pub proof fn i16_is_a_whole_number(
    value: i16,
    raw: Seq<u8>,
    given: Result<i16, String>,
    known: Seq<(Seq<char>, Json)>,
)
    ensures
        <i16 as ContractSchema>::described() == type_schema("integer"@),
        <i16 as ContractSchema>::registered(known) == known,
        value.payload() == Ok::<_, Seq<char>>(encode_utf8(signed_decimal(value as int))),
        <i16 as ContractArg>::reads(raw, given) ==> match given {
            Ok(number) => int_arg(raw, -0x8000, 0x7fff) == Ok::<_, Seq<char>>(number as int),
            Err(said) => int_arg(raw, -0x8000, 0x7fff) == Err::<int, _>(said@),
        },
        <i16 as ContractArg>::reads(encode_utf8(signed_decimal(value as int)), given) ==> given
            == Ok::<i16, String>(value),
{
    returned_numbers_read_back(value as int, i16::MIN as int, i16::MAX as int);
    assert(<i16 as ContractSchema>::described()->Object_0 =~= type_schema("integer"@)->Object_0);
}

/// A `i32` is described as a whole number, brings no schemas along, is returned in
/// decimal, and is read where the argument is a number that it can hold.
pub proof fn i32_is_a_whole_number(
    value: i32,
    raw: Seq<u8>,
    given: Result<i32, String>,
    known: Seq<(Seq<char>, Json)>,
)
    ensures
        <i32 as ContractSchema>::described() == type_schema("integer"@),
        <i32 as ContractSchema>::registered(known) == known,
        value.payload() == Ok::<_, Seq<char>>(encode_utf8(signed_decimal(value as int))),
        <i32 as ContractArg>::reads(raw, given) ==> match given {
            Ok(number) => int_arg(
                raw,
                -0x8000_0000,
                0x7fff_ffff,
            ) == Ok::<_, Seq<char>>(number as int),
            Err(said) => int_arg(raw, -0x8000_0000, 0x7fff_ffff) == Err::<int, _>(said@),
        },
        <i32 as ContractArg>::reads(encode_utf8(signed_decimal(value as int)), given) ==> given
            == Ok::<i32, String>(value),
{
    returned_numbers_read_back(value as int, i32::MIN as int, i32::MAX as int);
    assert(<i32 as ContractSchema>::described()->Object_0 =~= type_schema("integer"@)->Object_0);
}

/// A `i64` is described as a whole number, brings no schemas along, is returned in
/// decimal, and is read where the argument is a number that it can hold.
pub proof fn i64_is_a_whole_number(
    value: i64,
    raw: Seq<u8>,
    given: Result<i64, String>,
    known: Seq<(Seq<char>, Json)>,
)
    ensures
        <i64 as ContractSchema>::described() == type_schema("integer"@),
        <i64 as ContractSchema>::registered(known) == known,
        value.payload() == Ok::<_, Seq<char>>(encode_utf8(signed_decimal(value as int))),
        <i64 as ContractArg>::reads(raw, given) ==> match given {
            Ok(number) => int_arg(
                raw,
                -0x8000_0000_0000_0000,
                0x7fff_ffff_ffff_ffff,
            ) == Ok::<_, Seq<char>>(number as int),
            Err(said) => int_arg(
                raw,
                -0x8000_0000_0000_0000,
                0x7fff_ffff_ffff_ffff,
            ) == Err::<int, _>(said@),
        },
        <i64 as ContractArg>::reads(encode_utf8(signed_decimal(value as int)), given) ==> given
            == Ok::<i64, String>(value),
{
    returned_numbers_read_back(value as int, i64::MIN as int, i64::MAX as int);
    assert(<i64 as ContractSchema>::described()->Object_0 =~= type_schema("integer"@)->Object_0);
}

/// A `isize` is described as a whole number, brings no schemas along, is returned in
/// decimal, and is read where the argument is a number that it can hold.
pub proof fn isize_is_a_whole_number(
    value: isize,
    raw: Seq<u8>,
    given: Result<isize, String>,
    known: Seq<(Seq<char>, Json)>,
)
    ensures
        <isize as ContractSchema>::described() == type_schema("integer"@),
        <isize as ContractSchema>::registered(known) == known,
        value.payload() == Ok::<_, Seq<char>>(encode_utf8(signed_decimal(value as int))),
        <isize as ContractArg>::reads(raw, given) ==> match given {
            Ok(number) => int_arg(
                raw,
                isize::MIN as int,
                isize::MAX as int,
            ) == Ok::<_, Seq<char>>(number as int),
            Err(said) => int_arg(raw, isize::MIN as int, isize::MAX as int) == Err::<int, _>(said@),
        },
        <isize as ContractArg>::reads(encode_utf8(signed_decimal(value as int)), given) ==> given
            == Ok::<isize, String>(value),
{
    returned_numbers_read_back(value as int, isize::MIN as int, isize::MAX as int);
    assert(<isize as ContractSchema>::described()->Object_0 =~= type_schema("integer"@)->Object_0);
}

// ---- calls -----------------------------------------------------------------
/// The function of a call is what follows the last colon, and the whole where there is
/// none.
pub proof fn functions_follow_the_last_colon(front: Seq<char>, name: Seq<char>)
    requires
        !name.contains(':'),
    ensures
        last_segment(name) == name,
        last_segment(front + seq![':'] + name) == name,
    decreases name.len(),
{
    let full = front + seq![':'] + name;
    if name.len() == 0 {
        assert(full.last() == ':');
        assert(last_segment(name) =~= name);
        assert(last_segment(full) =~= name);
    } else {
        let shorter = name.drop_last();
        assert(name.contains(name.last()));
        assert forall|i: int| 0 <= i < shorter.len() implies shorter[i] != ':' by {
            assert(name.contains(name[i]));
        }
        functions_follow_the_last_colon(front, shorter);
        assert(full.drop_last() =~= front + seq![':'] + shorter);
        assert(full.last() == name.last());
        assert(shorter.push(name.last()) =~= name);
    }
}

/// The first transaction of the name is the one that is called.
pub proof fn the_first_of_the_name_is_called(signatures: Seq<Signature>, function: Seq<char>)
    ensures
        match called(signatures, function) {
            Some(i) => 0 <= i < signatures.len() && signatures[i].wire_name@ == function
                && forall|k: int|
                0 <= k < i ==> (#[trigger] signatures[k]).wire_name@ != function,
            None => forall|k: int|
                0 <= k < signatures.len() ==> (#[trigger] signatures[k]).wire_name@ != function,
        },
    decreases signatures.len(),
{
    if signatures.len() > 0 {
        let shorter = signatures.drop_last();
        the_first_of_the_name_is_called(shorter, function);
        assert forall|k: int| 0 <= k < shorter.len() implies shorter[k] == signatures[k] by {}
        if called(shorter, function) is None {
            assert forall|k: int| 0 <= k < signatures.len() - 1 implies (
            #[trigger] signatures[k]).wire_name@ != function by {
                assert(shorter[k].wire_name@ != function);
            }
        } else {
            let i = called(shorter, function)->0;
            assert forall|k: int| 0 <= k < i implies (#[trigger] signatures[k]).wire_name@
                != function by {
                assert(shorter[k].wire_name@ != function);
            }
        }
    }
}

/// A call runs the transaction that it names with as many arguments as that has
/// parameters; a call without a function, of a function that there is not, or with
/// another number of arguments is answered in words.
pub proof fn calls_run_what_they_name(args: Seq<Seq<u8>>, signatures: Seq<Signature>)
    ensures
        args.len() == 0 ==> routed(args, signatures) == Err::<int, _>("no function specified"@),
        args.len() > 0 ==> {
            let function = last_segment(text::lossy(args[0]));
            match called(signatures, function) {
                None => routed(args, signatures) == Err::<int, _>("unknown function "@ + function),
                Some(i) => if args.len() == signatures[i].params + 1 {
                    routed(args, signatures) == Ok::<int, Seq<char>>(i)
                } else {
                    routed(args, signatures) == Err::<int, _>(
                        function + " expects "@ + text::decimal(signatures[i].params as nat)
                            + " argument(s), got "@ + text::decimal((args.len() - 1) as nat),
                    )
                },
            }
        },
{
    if args.len() > 0 {
        the_first_of_the_name_is_called(signatures, last_segment(text::lossy(args[0])));
    }
}

/// An argument that cannot be read is told by its name and what is wrong with it.
pub proof fn faulty_arguments_are_told_by_name(name: Seq<char>, fault: Seq<char>)
    ensures
        argument_fault(name, fault) == "invalid argument `"@ + name + "`: "@ + fault,
{
}

/// Parameters and transactions are described one by one, in their order.
pub proof fn descriptions_keep_the_order(
    parameters: Seq<(String, Value)>,
    transactions: Seq<Transaction>,
    i: int,
)
    ensures
        parameter_views(parameters).len() == parameters.len(),
        0 <= i < parameters.len() ==> parameter_views(parameters)[i].name == parameters[i].0@
            && parameter_views(parameters)[i].schema == parameters[i].1.json() && parameter_views(
            parameters,
        )[i].description is None,
        transaction_views(transactions).len() == transactions.len(),
        0 <= i < transactions.len() ==> transaction_views(transactions)[i] == transactions[i]@,
{
}

// ---- operations ------------------------------------------------------------
/// The function of a call is what follows the last colon.
pub proof fn function_names_follow_the_last_colon(
    front: Seq<char>,
    name: Seq<char>,
    full: &str,
    given: String,
)
    requires
        call_ensures(function_name, (full,), given),
        !name.contains(':'),
        full@ == name || full@ == front + seq![':'] + name,
    ensures
        given@ == name,
{
    functions_follow_the_last_colon(front, name);
}

/// A call is routed to the first transaction of the name that it gives, where it has as
/// many arguments as that has parameters, and is answered with a failure otherwise.
pub proof fn calls_are_routed_by_name(
    args: &[Vec<u8>],
    signatures: Vec<Signature>,
    given: Result<usize, Response>,
    name: Seq<char>,
    at: int,
)
    requires
        call_ensures(route, (args, &signatures), given),
        args@.len() > 0 ==> name == last_segment(text::lossy(args@[0]@)),
        0 <= at < signatures@.len() ==> signatures@[at].wire_name@ == name && forall|k: int|
            0 <= k < at ==> (#[trigger] signatures@[k]).wire_name@ != name,
        at == signatures@.len() ==> forall|k: int|
            0 <= k < at ==> (#[trigger] signatures@[k]).wire_name@ != name,
        0 <= at <= signatures@.len(),
    ensures
        args@.len() == 0 ==> (given matches Err(r) && r.status == 500 && r.message@
            == "no function specified"@),
        args@.len() > 0 && at == signatures@.len() ==> (given matches Err(r) && r.status == 500
            && r.message@ == "unknown function "@ + name),
        args@.len() > 0 && at < signatures@.len() && args@.len() == signatures@[at].params + 1
            ==> given == Ok::<usize, Response>(at as usize),
        args@.len() > 0 && at < signatures@.len() && args@.len() != signatures@[at].params + 1
            ==> (given matches Err(r) && r.status == 500 && r.message@ == name + " expects "@
            + text::decimal(signatures@[at].params as nat) + " argument(s), got "@ + text::decimal(
            (args@.len() - 1) as nat,
        )),
{
    let raw = Seq::new(args@.len(), |i: int| args@[i]@);
    calls_run_what_they_name(raw, signatures@);
    the_first_of_the_name_is_called(signatures@, name);
    match called(signatures@, name) {
        Some(i) => {
            if at < signatures@.len() {
                if i < at {
                    assert(signatures@[i].wire_name@ != name);
                }
                if at < i {
                    assert(signatures@[at].wire_name@ != name);
                }
            } else {
                assert(signatures@[i].wire_name@ != name);
            }
        },
        None => {
            if at < signatures@.len() {
                assert(signatures@[at].wire_name@ != name);
            }
        },
    }
}

/// An argument that was read is taken as it is; one that was not is answered with its name
/// and what is wrong with it.
pub proof fn arguments_are_taken_or_told<T>(
    value: T,
    fault: String,
    name: &str,
    taken: Result<T, Response>,
    told: Result<T, Response>,
)
    requires
        call_ensures(accept_argument::<T>, (Ok(value), name), taken),
        call_ensures(accept_argument::<T>, (Err(fault), name), told),
    ensures
        taken == Ok::<T, Response>(value),
        told matches Err(r) && r.status == 500 && r.payload@.len() == 0 && r.message@
            == "invalid argument `"@ + name@ + "`: "@ + fault@,
{
    assert(told->Err_0@.payload.len() == 0);
}

/// A transaction that gave a value succeeds with it; one whose value cannot be written or
/// that failed is a failure in words.
pub proof fn transactions_end_with_their_outcome(
    payload: Vec<u8>,
    words: String,
    success: Response,
    unwritten: Response,
    failure: Response,
)
    requires
        call_ensures(conclude, (Ok(Ok(payload)),), success),
        call_ensures(conclude, (Ok(Err(words)),), unwritten),
        call_ensures(conclude, (Err(words),), failure),
    ensures
        success.status == 200 && success.payload@ == payload@ && success.message@.len() == 0,
        unwritten.status == 500 && unwritten.message@ == words@ && unwritten.payload@.len() == 0,
        failure.status == 500 && failure.message@ == words@ && failure.payload@.len() == 0,
{
    assert(success@.message.len() == success.message@.len());
    assert(unwritten@.payload.len() == unwritten.payload@.len());
    assert(failure@.payload.len() == failure.payload@.len());
}

/// The metadata of a transaction: its name, whether it only reads, its parameters in their
/// order, and what it returns.
pub proof fn transactions_are_described(
    name: String,
    evaluate: bool,
    parameters: Vec<(String, Value)>,
    ok_schema: Option<Value>,
    tx: Transaction,
    i: int,
)
    requires
        call_ensures(describe_transaction, (name, evaluate, parameters, ok_schema), tx),
    ensures
        tx.name@ == name@,
        tx.tag@.len() == 1,
        tx@.tag.len() == 1 && tx@.tag[0] == if evaluate {
            "evaluate"@
        } else {
            "submit"@
        },
        tx@.parameters.len() == parameters@.len(),
        0 <= i < parameters@.len() ==> tx@.parameters[i].name == parameters@[i].0@
            && tx@.parameters[i].schema == parameters@[i].1.json(),
        tx@.returns is Some <==> ok_schema is Some,
        ok_schema matches Some(schema) ==> tx@.returns == Some(schema.json()),
{
    assert(tx@.tag.len() == tx.tag@.len());
}

/// The metadata of a chaincode: one contract of the name with all transactions in their
/// order, which is the default one, and all schemas.
pub proof fn contracts_are_described(
    name: String,
    title: String,
    version: String,
    transactions: Vec<Transaction>,
    components: TextMap<Value>,
    document: Metadata,
    i: int,
)
    requires
        call_ensures(describe_contract, (name, title, version, transactions, components), document),
    ensures
        document@.schema
            == "https://hyperledger.github.io/fabric-chaincode-node/main/api/contract-schema.json"@,
        document@.info.title == title@,
        document@.info.version == version@,
        document@.contracts.len() == 1,
        document@.contracts[0].0 == name@,
        document@.contracts[0].1.name == name@,
        document@.contracts[0].1.default,
        document@.contracts[0].1.info.title == name@,
        document@.contracts[0].1.info.version == "latest"@,
        document@.contracts[0].1.transactions.len() == transactions@.len(),
        0 <= i < transactions@.len() ==> document@.contracts[0].1.transactions[i]
            == transactions@[i]@,
        document@.schemas.len() == components@.len(),
        0 <= i < components@.len() ==> document@.schemas[i] == (
            components@[i].0,
            components@[i].1.json(),
        ),
{
}

/// An array is described by its items, and is read as its items or told as no array.
pub proof fn arrays_are_their_items<T>(
    items: Value,
    schema: Value,
    list: Vec<T>,
    fault: String,
    read: Result<Vec<T>, String>,
    told: Result<Vec<T>, String>,
)
    requires
        call_ensures(array_of, (items,), schema),
        call_ensures(read_array::<T>, (Ok(list),), read),
        call_ensures(read_array::<T>, (Err(fault),), told),
    ensures
        schema.json() == Json::Object(
            seq![("items"@, items.json()), ("type"@, Json::Text("array"@))],
        ),
        read == Ok::<Vec<T>, String>(list),
        told matches Err(said) && said@ == "invalid JSON array: "@ + fault@,
{
}

/// An argument is read at its place, and one that cannot be read is answered with its name.
pub proof fn arguments_are_read_at_their_place<T: ContractArg>(
    args: &[Vec<u8>],
    index: usize,
    name: &str,
    given: Result<T, Response>,
)
    requires
        call_ensures(read_argument::<T>, (args, index, name), given),
        index < args@.len(),
    ensures
        given matches Ok(value) ==> T::reads(args@[index as int]@, Ok(value)),
        given matches Err(response) ==> response.status == 500 && exists|fault: String| #[trigger]
            T::reads(args@[index as int]@, Err(fault)) && response.message@
                == "invalid argument `"@ + name@ + "`: "@ + fault@,
{
    if let Err(response) = given {
        assert(response@.status == response.status);
        assert(response@.message == response.message@);
    }
}

} // verus!
