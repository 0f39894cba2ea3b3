//! The types that transactions take and return: how an argument is read, how a
//! result is written, and the JSON schema that describes it.
//!
//! Strings and numbers are read from the raw text of an argument.

use vstd::prelude::*;
use vstd::utf8::{decode_utf8, encode_utf8, encode_utf8_decode_utf8, encode_utf8_valid_utf8};
use vstd::utf8::valid_utf8;

use crate::json::{Json, Member, Value};
use crate::metadata::schemas_json;
use crate::numbers::{parse_integer, parsed, trimmed, trimmed_chars, written_numbers_read_back};
use crate::text;
use crate::text::signed_decimal;
use crate::text_map::TextMap;

verus! {

/// JSON-schema description of a type, used in contract metadata.
pub trait ContractSchema {
    /// The schema of the type.
    spec fn described() -> Json;

    /// The named schemas after those that the type refers to have been added.
    spec fn registered(known: Seq<(Seq<char>, Json)>) -> Seq<(Seq<char>, Json)>;

    /// The schema of the type.
    fn schema() -> (r: Value)
        ensures
            r.json() == Self::described(),
    ;

    /// Registers the named schemas that the type refers to.
    fn components(out: &mut TextMap<Value>)
        ensures
            schemas_json(final(out)@) == Self::registered(schemas_json(old(out)@)),
    ;
}

/// A type that can be read from a raw transaction argument.
pub trait ContractArg: ContractSchema + Sized {
    /// Whether `r` is what reading `raw` gives.
    spec fn reads(raw: Seq<u8>, r: Result<Self, String>) -> bool;

    /// Reads an argument; `Err` says what is wrong with it.
    fn from_arg(raw: &[u8]) -> (r: Result<Self, String>)
        ensures
            Self::reads(raw@, r),
    ;
}

/// A type that can be returned from a transaction.
pub trait ContractReturn: ContractSchema + Sized {
    /// The bytes that a value is returned as, or why it cannot be.
    spec fn payload(self) -> Result<Seq<u8>, Seq<char>>;

    /// The bytes that the value is returned as; `Err` says why it cannot be.
    fn into_payload(self) -> (r: Result<Vec<u8>, String>)
        ensures
            match self.payload() {
                Ok(bytes) => r matches Ok(given) && given@ == bytes,
                Err(fault) => r matches Err(said) && said@ == fault,
            },
    ;
}

/// The schema of a plain type.
pub open spec fn plain_schema(name: Seq<char>) -> Json {
    Json::Object(seq![("type"@, Json::Text(name))])
}

/// The schema of an array of items with the given schema.
pub open spec fn array_schema(items: Json) -> Json {
    Json::Object(seq![("items"@, items), ("type"@, Json::Text("array"@))])
}

fn plain(name: &str) -> (r: Value)
    ensures
        r.json() == plain_schema(name@),
{
    let mut members: Vec<Member> = Vec::new();
    members.push(Member { name: "type".to_owned(), value: Value::Text(name.to_owned()) });
    let r = Value::Object(members);
    reveal_with_fuel(Value::json, 2);
    assert(r.json()->Object_0 =~= plain_schema(name@)->Object_0);
    r
}

// ---- text ------------------------------------------------------------------
impl ContractSchema for String {
    open spec fn described() -> Json {
        plain_schema("string"@)
    }

    open spec fn registered(known: Seq<(Seq<char>, Json)>) -> Seq<(Seq<char>, Json)> {
        known
    }

    fn schema() -> (r: Value) {
        plain("string")
    }

    fn components(out: &mut TextMap<Value>) {
    }
}

impl ContractArg for String {
    open spec fn reads(raw: Seq<u8>, r: Result<Self, String>) -> bool {
        match r {
            Ok(text) => valid_utf8(raw) && text@ == decode_utf8(raw),
            Err(fault) => !valid_utf8(raw) && fault@ == text::owned_utf8_fault(raw),
        }
    }

    fn from_arg(raw: &[u8]) -> (r: Result<Self, String>) {
        text::owned_utf8_text(vstd::slice::slice_to_vec(raw))
    }
}

impl ContractReturn for String {
    open spec fn payload(self) -> Result<Seq<u8>, Seq<char>> {
        Ok(encode_utf8(self@))
    }

    fn into_payload(self) -> (r: Result<Vec<u8>, String>) {
        Ok(self.as_str().as_bytes_vec())
    }
}

// ---- truth values ----------------------------------------------------------
/// A truth value in words.
pub open spec fn bool_text(value: bool) -> Seq<char> {
    if value {
        "true"@
    } else {
        "false"@
    }
}

/// The truth value that an argument stands for, or what is wrong with it.
pub open spec fn bool_arg(raw: Seq<u8>) -> Result<bool, Seq<char>> {
    if !valid_utf8(raw) {
        Err(text::utf8_fault(raw))
    } else if trimmed(decode_utf8(raw)) == "true"@ {
        Ok(true)
    } else if trimmed(decode_utf8(raw)) == "false"@ {
        Ok(false)
    } else {
        Err("expected \"true\" or \"false\""@)
    }
}

impl ContractSchema for bool {
    open spec fn described() -> Json {
        plain_schema("boolean"@)
    }

    open spec fn registered(known: Seq<(Seq<char>, Json)>) -> Seq<(Seq<char>, Json)> {
        known
    }

    fn schema() -> (r: Value) {
        plain("boolean")
    }

    fn components(out: &mut TextMap<Value>) {
    }
}

impl ContractArg for bool {
    open spec fn reads(raw: Seq<u8>, r: Result<Self, String>) -> bool {
        match bool_arg(raw) {
            Ok(value) => r == Ok::<bool, String>(value),
            Err(fault) => r matches Err(said) && said@ == fault,
        }
    }

    fn from_arg(raw: &[u8]) -> (r: Result<Self, String>) {
        let given = match text::utf8_text(raw) {
            Ok(given) => given,
            Err(fault) => return Err(fault),
        };
        let chars = trimmed_chars(given);
        let word = text::text_between(chars.as_slice(), 0, chars.len());
        assert(word@ =~= chars@);
        if text::same_text(word.as_str(), "true") {
            Ok(true)
        } else if text::same_text(word.as_str(), "false") {
            Ok(false)
        } else {
            Err("expected \"true\" or \"false\"".to_owned())
        }
    }
}

impl ContractReturn for bool {
    open spec fn payload(self) -> Result<Seq<u8>, Seq<char>> {
        Ok(encode_utf8(bool_text(self)))
    }

    fn into_payload(self) -> (r: Result<Vec<u8>, String>) {
        if self {
            Ok("true".as_bytes_vec())
        } else {
            Ok("false".as_bytes_vec())
        }
    }
}

// ---- whole numbers ---------------------------------------------------------
/// The number between `min` and `max` that an argument stands for, or what is
/// wrong with it.
pub open spec fn int_arg(raw: Seq<u8>, min: int, max: int) -> Result<int, Seq<char>> {
    if !valid_utf8(raw) {
        Err(text::utf8_fault(raw))
    } else {
        match parsed(trimmed(decode_utf8(raw)), min, max) {
            Ok(value) => Ok(value),
            Err(fault) => Err(fault.text()),
        }
    }
}

fn read_integer(raw: &[u8], min: i128, max: i128) -> (r: Result<i128, String>)
    requires
        -0x1_0000_0000_0000_0000 <= min <= 0 <= max <= 0x1_0000_0000_0000_0000,
    ensures
        match int_arg(raw@, min as int, max as int) {
            Ok(value) => r matches Ok(given) && given == value && min <= given <= max,
            Err(fault) => r matches Err(said) && said@ == fault,
        },
{
    let given = match text::utf8_text(raw) {
        Ok(given) => given,
        Err(fault) => return Err(fault),
    };
    let chars = trimmed_chars(given);
    match parse_integer(&chars, min, max) {
        Ok(value) => Ok(value),
        Err(fault) => Err(fault.message()),
    }
}

impl ContractSchema for u8 {
    open spec fn described() -> Json {
        plain_schema("integer"@)
    }

    open spec fn registered(known: Seq<(Seq<char>, Json)>) -> Seq<(Seq<char>, Json)> {
        known
    }

    fn schema() -> (r: Value) {
        plain("integer")
    }

    fn components(out: &mut TextMap<Value>) {
    }
}

impl ContractArg for u8 {
    open spec fn reads(raw: Seq<u8>, r: Result<Self, String>) -> bool {
        match int_arg(raw, u8::MIN as int, u8::MAX as int) {
            Ok(value) => r matches Ok(given) && given == value,
            Err(fault) => r matches Err(said) && said@ == fault,
        }
    }

    fn from_arg(raw: &[u8]) -> (r: Result<Self, String>) {
        match read_integer(raw, u8::MIN as i128, u8::MAX as i128) {
            Ok(value) => Ok(value as u8),
            Err(fault) => Err(fault),
        }
    }
}

impl ContractReturn for u8 {
    open spec fn payload(self) -> Result<Seq<u8>, Seq<char>> {
        Ok(encode_utf8(signed_decimal(self as int)))
    }

    fn into_payload(self) -> (r: Result<Vec<u8>, String>) {
        Ok(text::decimal_text(self as u64).as_str().as_bytes_vec())
    }
}

impl ContractSchema for u16 {
    open spec fn described() -> Json {
        plain_schema("integer"@)
    }

    open spec fn registered(known: Seq<(Seq<char>, Json)>) -> Seq<(Seq<char>, Json)> {
        known
    }

    fn schema() -> (r: Value) {
        plain("integer")
    }

    fn components(out: &mut TextMap<Value>) {
    }
}

impl ContractArg for u16 {
    open spec fn reads(raw: Seq<u8>, r: Result<Self, String>) -> bool {
        match int_arg(raw, u16::MIN as int, u16::MAX as int) {
            Ok(value) => r matches Ok(given) && given == value,
            Err(fault) => r matches Err(said) && said@ == fault,
        }
    }

    fn from_arg(raw: &[u8]) -> (r: Result<Self, String>) {
        match read_integer(raw, u16::MIN as i128, u16::MAX as i128) {
            Ok(value) => Ok(value as u16),
            Err(fault) => Err(fault),
        }
    }
}

impl ContractReturn for u16 {
    open spec fn payload(self) -> Result<Seq<u8>, Seq<char>> {
        Ok(encode_utf8(signed_decimal(self as int)))
    }

    fn into_payload(self) -> (r: Result<Vec<u8>, String>) {
        Ok(text::decimal_text(self as u64).as_str().as_bytes_vec())
    }
}

impl ContractSchema for u32 {
    open spec fn described() -> Json {
        plain_schema("integer"@)
    }

    open spec fn registered(known: Seq<(Seq<char>, Json)>) -> Seq<(Seq<char>, Json)> {
        known
    }

    fn schema() -> (r: Value) {
        plain("integer")
    }

    fn components(out: &mut TextMap<Value>) {
    }
}

impl ContractArg for u32 {
    open spec fn reads(raw: Seq<u8>, r: Result<Self, String>) -> bool {
        match int_arg(raw, u32::MIN as int, u32::MAX as int) {
            Ok(value) => r matches Ok(given) && given == value,
            Err(fault) => r matches Err(said) && said@ == fault,
        }
    }

    fn from_arg(raw: &[u8]) -> (r: Result<Self, String>) {
        match read_integer(raw, u32::MIN as i128, u32::MAX as i128) {
            Ok(value) => Ok(value as u32),
            Err(fault) => Err(fault),
        }
    }
}

impl ContractReturn for u32 {
    open spec fn payload(self) -> Result<Seq<u8>, Seq<char>> {
        Ok(encode_utf8(signed_decimal(self as int)))
    }

    fn into_payload(self) -> (r: Result<Vec<u8>, String>) {
        Ok(text::decimal_text(self as u64).as_str().as_bytes_vec())
    }
}

impl ContractSchema for u64 {
    open spec fn described() -> Json {
        plain_schema("integer"@)
    }

    open spec fn registered(known: Seq<(Seq<char>, Json)>) -> Seq<(Seq<char>, Json)> {
        known
    }

    fn schema() -> (r: Value) {
        plain("integer")
    }

    fn components(out: &mut TextMap<Value>) {
    }
}

impl ContractArg for u64 {
    open spec fn reads(raw: Seq<u8>, r: Result<Self, String>) -> bool {
        match int_arg(raw, u64::MIN as int, u64::MAX as int) {
            Ok(value) => r matches Ok(given) && given == value,
            Err(fault) => r matches Err(said) && said@ == fault,
        }
    }

    fn from_arg(raw: &[u8]) -> (r: Result<Self, String>) {
        match read_integer(raw, u64::MIN as i128, u64::MAX as i128) {
            Ok(value) => Ok(value as u64),
            Err(fault) => Err(fault),
        }
    }
}

impl ContractReturn for u64 {
    open spec fn payload(self) -> Result<Seq<u8>, Seq<char>> {
        Ok(encode_utf8(signed_decimal(self as int)))
    }

    fn into_payload(self) -> (r: Result<Vec<u8>, String>) {
        Ok(text::decimal_text(self as u64).as_str().as_bytes_vec())
    }
}

impl ContractSchema for usize {
    open spec fn described() -> Json {
        plain_schema("integer"@)
    }

    open spec fn registered(known: Seq<(Seq<char>, Json)>) -> Seq<(Seq<char>, Json)> {
        known
    }

    fn schema() -> (r: Value) {
        plain("integer")
    }

    fn components(out: &mut TextMap<Value>) {
    }
}

impl ContractArg for usize {
    open spec fn reads(raw: Seq<u8>, r: Result<Self, String>) -> bool {
        match int_arg(raw, usize::MIN as int, usize::MAX as int) {
            Ok(value) => r matches Ok(given) && given == value,
            Err(fault) => r matches Err(said) && said@ == fault,
        }
    }

    fn from_arg(raw: &[u8]) -> (r: Result<Self, String>) {
        match read_integer(raw, usize::MIN as i128, usize::MAX as i128) {
            Ok(value) => Ok(value as usize),
            Err(fault) => Err(fault),
        }
    }
}

impl ContractReturn for usize {
    open spec fn payload(self) -> Result<Seq<u8>, Seq<char>> {
        Ok(encode_utf8(signed_decimal(self as int)))
    }

    fn into_payload(self) -> (r: Result<Vec<u8>, String>) {
        Ok(text::decimal_text(self as u64).as_str().as_bytes_vec())
    }
}

impl ContractSchema for i8 {
    open spec fn described() -> Json {
        plain_schema("integer"@)
    }

    open spec fn registered(known: Seq<(Seq<char>, Json)>) -> Seq<(Seq<char>, Json)> {
        known
    }

    fn schema() -> (r: Value) {
        plain("integer")
    }

    fn components(out: &mut TextMap<Value>) {
    }
}

impl ContractArg for i8 {
    open spec fn reads(raw: Seq<u8>, r: Result<Self, String>) -> bool {
        match int_arg(raw, i8::MIN as int, i8::MAX as int) {
            Ok(value) => r matches Ok(given) && given == value,
            Err(fault) => r matches Err(said) && said@ == fault,
        }
    }

    fn from_arg(raw: &[u8]) -> (r: Result<Self, String>) {
        match read_integer(raw, i8::MIN as i128, i8::MAX as i128) {
            Ok(value) => Ok(value as i8),
            Err(fault) => Err(fault),
        }
    }
}

impl ContractReturn for i8 {
    open spec fn payload(self) -> Result<Seq<u8>, Seq<char>> {
        Ok(encode_utf8(signed_decimal(self as int)))
    }

    fn into_payload(self) -> (r: Result<Vec<u8>, String>) {
        Ok(text::signed_decimal_text(self as i64).as_str().as_bytes_vec())
    }
}

impl ContractSchema for i16 {
    open spec fn described() -> Json {
        plain_schema("integer"@)
    }

    open spec fn registered(known: Seq<(Seq<char>, Json)>) -> Seq<(Seq<char>, Json)> {
        known
    }

    fn schema() -> (r: Value) {
        plain("integer")
    }

    fn components(out: &mut TextMap<Value>) {
    }
}

impl ContractArg for i16 {
    open spec fn reads(raw: Seq<u8>, r: Result<Self, String>) -> bool {
        match int_arg(raw, i16::MIN as int, i16::MAX as int) {
            Ok(value) => r matches Ok(given) && given == value,
            Err(fault) => r matches Err(said) && said@ == fault,
        }
    }

    fn from_arg(raw: &[u8]) -> (r: Result<Self, String>) {
        match read_integer(raw, i16::MIN as i128, i16::MAX as i128) {
            Ok(value) => Ok(value as i16),
            Err(fault) => Err(fault),
        }
    }
}

impl ContractReturn for i16 {
    open spec fn payload(self) -> Result<Seq<u8>, Seq<char>> {
        Ok(encode_utf8(signed_decimal(self as int)))
    }

    fn into_payload(self) -> (r: Result<Vec<u8>, String>) {
        Ok(text::signed_decimal_text(self as i64).as_str().as_bytes_vec())
    }
}

impl ContractSchema for i32 {
    open spec fn described() -> Json {
        plain_schema("integer"@)
    }

    open spec fn registered(known: Seq<(Seq<char>, Json)>) -> Seq<(Seq<char>, Json)> {
        known
    }

    fn schema() -> (r: Value) {
        plain("integer")
    }

    fn components(out: &mut TextMap<Value>) {
    }
}

impl ContractArg for i32 {
    open spec fn reads(raw: Seq<u8>, r: Result<Self, String>) -> bool {
        match int_arg(raw, i32::MIN as int, i32::MAX as int) {
            Ok(value) => r matches Ok(given) && given == value,
            Err(fault) => r matches Err(said) && said@ == fault,
        }
    }

    fn from_arg(raw: &[u8]) -> (r: Result<Self, String>) {
        match read_integer(raw, i32::MIN as i128, i32::MAX as i128) {
            Ok(value) => Ok(value as i32),
            Err(fault) => Err(fault),
        }
    }
}

impl ContractReturn for i32 {
    open spec fn payload(self) -> Result<Seq<u8>, Seq<char>> {
        Ok(encode_utf8(signed_decimal(self as int)))
    }

    fn into_payload(self) -> (r: Result<Vec<u8>, String>) {
        Ok(text::signed_decimal_text(self as i64).as_str().as_bytes_vec())
    }
}

impl ContractSchema for i64 {
    open spec fn described() -> Json {
        plain_schema("integer"@)
    }

    open spec fn registered(known: Seq<(Seq<char>, Json)>) -> Seq<(Seq<char>, Json)> {
        known
    }

    fn schema() -> (r: Value) {
        plain("integer")
    }

    fn components(out: &mut TextMap<Value>) {
    }
}

impl ContractArg for i64 {
    open spec fn reads(raw: Seq<u8>, r: Result<Self, String>) -> bool {
        match int_arg(raw, i64::MIN as int, i64::MAX as int) {
            Ok(value) => r matches Ok(given) && given == value,
            Err(fault) => r matches Err(said) && said@ == fault,
        }
    }

    fn from_arg(raw: &[u8]) -> (r: Result<Self, String>) {
        match read_integer(raw, i64::MIN as i128, i64::MAX as i128) {
            Ok(value) => Ok(value as i64),
            Err(fault) => Err(fault),
        }
    }
}

impl ContractReturn for i64 {
    open spec fn payload(self) -> Result<Seq<u8>, Seq<char>> {
        Ok(encode_utf8(signed_decimal(self as int)))
    }

    fn into_payload(self) -> (r: Result<Vec<u8>, String>) {
        Ok(text::signed_decimal_text(self as i64).as_str().as_bytes_vec())
    }
}

impl ContractSchema for isize {
    open spec fn described() -> Json {
        plain_schema("integer"@)
    }

    open spec fn registered(known: Seq<(Seq<char>, Json)>) -> Seq<(Seq<char>, Json)> {
        known
    }

    fn schema() -> (r: Value) {
        plain("integer")
    }

    fn components(out: &mut TextMap<Value>) {
    }
}

impl ContractArg for isize {
    open spec fn reads(raw: Seq<u8>, r: Result<Self, String>) -> bool {
        match int_arg(raw, isize::MIN as int, isize::MAX as int) {
            Ok(value) => r matches Ok(given) && given == value,
            Err(fault) => r matches Err(said) && said@ == fault,
        }
    }

    fn from_arg(raw: &[u8]) -> (r: Result<Self, String>) {
        match read_integer(raw, isize::MIN as i128, isize::MAX as i128) {
            Ok(value) => Ok(value as isize),
            Err(fault) => Err(fault),
        }
    }
}

impl ContractReturn for isize {
    open spec fn payload(self) -> Result<Seq<u8>, Seq<char>> {
        Ok(encode_utf8(signed_decimal(self as int)))
    }

    fn into_payload(self) -> (r: Result<Vec<u8>, String>) {
        Ok(text::signed_decimal_text(self as i64).as_str().as_bytes_vec())
    }
}

// ---- nothing, and lists ----------------------------------------------------
/// Nothing: an empty payload, and no schema of a result.
impl ContractSchema for () {
    open spec fn described() -> Json {
        Json::Null
    }

    open spec fn registered(known: Seq<(Seq<char>, Json)>) -> Seq<(Seq<char>, Json)> {
        known
    }

    fn schema() -> (r: Value) {
        Value::Null
    }

    fn components(out: &mut TextMap<Value>) {
    }
}

impl ContractReturn for () {
    open spec fn payload(self) -> Result<Seq<u8>, Seq<char>> {
        Ok(seq![])
    }

    fn into_payload(self) -> (r: Result<Vec<u8>, String>) {
        Ok(Vec::new())
    }
}

// ---- arrays ----------------------------------------------------------------
/// The schema of an array of items with the given schema.
pub fn array_of(items: Value) -> (r: Value)
    ensures
        r.json() == array_schema(items.json()),
{
    let mut members: Vec<Member> = Vec::new();
    members.push(Member { name: "items".to_owned(), value: items });
    members.push(Member { name: "type".to_owned(), value: Value::Text("array".to_owned()) });
    let r = Value::Object(members);
    reveal_with_fuel(Value::json, 2);
    assert(r.json()->Object_0 =~= array_schema(items.json())->Object_0);
    r
}

/// The array that an argument stands for, given what parsing it as JSON gave or
/// what was wrong with it.
pub fn read_array<T>(parsed: Result<Vec<T>, String>) -> (r: Result<Vec<T>, String>)
    ensures
        match parsed {
            Ok(items) => r == Ok::<Vec<T>, String>(items),
            Err(fault) => r matches Err(said) && said@ == "invalid JSON array: "@ + fault@,
        },
{
    match parsed {
        Ok(items) => Ok(items),
        Err(fault) => Err(text::pair("invalid JSON array: ", fault.as_str())),
    }
}

impl<T: ContractSchema> ContractSchema for Vec<T> {
    open spec fn described() -> Json {
        array_schema(T::described())
    }

    open spec fn registered(known: Seq<(Seq<char>, Json)>) -> Seq<(Seq<char>, Json)> {
        T::registered(known)
    }

    fn schema() -> (r: Value) {
        array_of(T::schema())
    }

    fn components(out: &mut TextMap<Value>) {
        T::components(out)
    }
}

// ---- laws ------------------------------------------------------------------
/// A number that a transaction returns can be given to another: it is read as the
/// same number, in every type that holds it.
pub proof fn returned_numbers_read_back(value: int, min: int, max: int)
    requires
        min <= 0 <= max,
        min <= value <= max,
    ensures
        int_arg(encode_utf8(signed_decimal(value)), min, max) == Ok::<int, Seq<char>>(value),
{
    encode_utf8_valid_utf8(signed_decimal(value));
    encode_utf8_decode_utf8(signed_decimal(value));
    written_numbers_read_back(value, min, max);
}

/// A truth value that a transaction returns is read as the same one.
pub proof fn returned_bools_read_back(value: bool)
    ensures
        bool_arg(encode_utf8(bool_text(value))) == Ok::<bool, Seq<char>>(value),
{
    encode_utf8_valid_utf8(bool_text(value));
    encode_utf8_decode_utf8(bool_text(value));
    reveal_strlit("true");
    reveal_strlit("false");
    assert("true"@.len() != "false"@.len());
}

/// A text that a transaction returns is read as the same text.
pub proof fn returned_text_reads_back(value: Seq<char>)
    ensures
        valid_utf8(encode_utf8(value)),
        decode_utf8(encode_utf8(value)) == value,
{
    encode_utf8_valid_utf8(value);
    encode_utf8_decode_utf8(value);
}

} // verus!
