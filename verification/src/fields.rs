//! Reading and writing the fields of messages, kind by kind.

use vstd::prelude::*;
use vstd::slice::slice_to_vec;

use crate::bytes_map::{BytesMap, Entry};
use crate::codec::{blank_record, decoded, encoded, encoded_from, field_encoded, field_merged};
use crate::codec::{entries_encoded, entry_encoded, entry_record, fields_merged};
use crate::codec::{merges, nested_merged, raw_of, records_encoded, run_encoded};
use crate::codec::{run_merged, runs_encoded, shaped, Datum, Message, RECURSION_LIMIT};
use crate::error::{DecodeError, DecodeErrorView};
use crate::layout::{fields, FieldKind, Layout};
use crate::text;
use crate::varint::{put_varint, take_varint};
use crate::wire::{skipped_shortens, varint_at_shortens};
use crate::wire::{put_delimited, put_key, skip_field, take_delimited, take_key};
use crate::wire::{DecodeErrorKind, WireType};

verus! {

// ---- reading ---------------------------------------------------------------
/// Adds the field to the failure of reading it.
pub(crate) fn at_field<'a>(
    r: Result<&'a [u8], DecodeError>,
    message: &'static str,
    field: &'static str,
) -> (named: Result<&'a [u8], DecodeError>)
    ensures
        match r {
            Ok(rest) => named == Ok::<&[u8], DecodeError>(rest),
            Err(e) => named matches Err(f) && f@ == e@.within(message@, field@),
        },
{
    match r {
        Ok(rest) => Ok(rest),
        Err(e) => {
            let mut e = e;
            e.push(message, field);
            Err(e)
        },
    }
}

/// Passes over a field that the message does not have.
pub(crate) fn merge_unknown<'a>(wire: WireType, tag: u32, bytes: &'a [u8], depth: u32) -> (r:
    Result<&'a [u8], DecodeError>)
    ensures
        match r {
            Ok(rest) => crate::wire::skipped(wire, tag, bytes@, depth as nat) == Ok::<
                _,
                DecodeErrorKind,
            >(rest@),
            Err(e) => crate::wire::skipped(wire, tag, bytes@, depth as nat) matches Err(kind) && e@
                == DecodeErrorView::plain(kind),
        },
{
    match skip_field(wire, tag, bytes, depth) {
        Ok(rest) => Ok(rest),
        Err(kind) => Err(DecodeError::plain(kind)),
    }
}

fn take_number(wire: WireType, bytes: &[u8]) -> (r: Result<(u64, &[u8]), DecodeError>)
    ensures
        match r {
            Ok((raw, rest)) => wire == WireType::Varint && crate::varint::varint_at(bytes@) == Some(
                (raw as nat, rest@),
            ),
            Err(e) => if wire != WireType::Varint {
                e@ == DecodeErrorView::plain(
                    DecodeErrorKind::UnexpectedWireType {
                        actual: wire,
                        expected: WireType::Varint,
                    },
                )
            } else {
                crate::varint::varint_at(bytes@) is None && e@ == DecodeErrorView::plain(
                    DecodeErrorKind::InvalidVarint,
                )
            },
        },
{
    if wire != WireType::Varint {
        return Err(
            DecodeError::plain(
                DecodeErrorKind::UnexpectedWireType { actual: wire, expected: WireType::Varint },
            ),
        );
    }
    match take_varint(bytes) {
        None => Err(DecodeError::plain(DecodeErrorKind::InvalidVarint)),
        Some(found) => Ok(found),
    }
}

fn take_field_run(wire: WireType, bytes: &[u8]) -> (r: Result<(&[u8], &[u8]), DecodeError>)
    ensures
        match r {
            Ok((run, rest)) => run_merged(wire, bytes@) == Ok::<_, DecodeErrorView>((run@, rest@)),
            Err(e) => run_merged(wire, bytes@) == Err::<(Seq<u8>, Seq<u8>), _>(e@),
        },
{
    if wire != WireType::LengthDelimited {
        return Err(
            DecodeError::plain(
                DecodeErrorKind::UnexpectedWireType {
                    actual: wire,
                    expected: WireType::LengthDelimited,
                },
            ),
        );
    }
    match take_delimited(bytes) {
        Err(kind) => Err(DecodeError::plain(kind)),
        Ok(found) => Ok(found),
    }
}

pub(crate) fn merge_int32<'a>(value: &mut i32, wire: WireType, bytes: &'a [u8]) -> (r: Result<
    &'a [u8],
    DecodeError,
>)
    ensures
        merges(
            FieldKind::Int32,
            Datum::Int(*old(value) as int),
            wire,
            bytes@,
            0,
            r,
            Datum::Int(*final(value) as int),
        ),
{
    match take_number(wire, bytes) {
        Err(e) => Err(e),
        Ok((raw, rest)) => {
            let low: u64 = raw % 0x1_0000_0000;
            *value = if low < 0x8000_0000 {
                low as i32
            } else {
                (low as i64 - 0x1_0000_0000) as i32
            };
            Ok(rest)
        },
    }
}

pub(crate) fn merge_int64<'a>(value: &mut i64, wire: WireType, bytes: &'a [u8]) -> (r: Result<
    &'a [u8],
    DecodeError,
>)
    ensures
        merges(
            FieldKind::Int64,
            Datum::Int(*old(value) as int),
            wire,
            bytes@,
            0,
            r,
            Datum::Int(*final(value) as int),
        ),
{
    match take_number(wire, bytes) {
        Err(e) => Err(e),
        Ok((raw, rest)) => {
            *value = if raw < 0x8000_0000_0000_0000 {
                raw as i64
            } else {
                -1 - (u64::MAX - raw) as i64
            };
            Ok(rest)
        },
    }
}

pub(crate) fn merge_uint64<'a>(value: &mut u64, wire: WireType, bytes: &'a [u8]) -> (r: Result<
    &'a [u8],
    DecodeError,
>)
    ensures
        merges(
            FieldKind::Uint64,
            Datum::Int(*old(value) as int),
            wire,
            bytes@,
            0,
            r,
            Datum::Int(*final(value) as int),
        ),
{
    match take_number(wire, bytes) {
        Err(e) => Err(e),
        Ok((raw, rest)) => {
            *value = raw;
            Ok(rest)
        },
    }
}

/// A truth value as a number.
pub open spec fn bool_number(value: bool) -> int {
    if value {
        1
    } else {
        0
    }
}

pub(crate) fn merge_bool<'a>(value: &mut bool, wire: WireType, bytes: &'a [u8]) -> (r: Result<
    &'a [u8],
    DecodeError,
>)
    ensures
        merges(
            FieldKind::Bool,
            Datum::Int(bool_number(*old(value))),
            wire,
            bytes@,
            0,
            r,
            Datum::Int(bool_number(*final(value))),
        ),
{
    match take_number(wire, bytes) {
        Err(e) => Err(e),
        Ok((raw, rest)) => {
            *value = raw != 0;
            Ok(rest)
        },
    }
}

pub(crate) fn merge_text<'a>(value: &mut String, wire: WireType, bytes: &'a [u8]) -> (r: Result<
    &'a [u8],
    DecodeError,
>)
    ensures
        merges(
            FieldKind::Text,
            Datum::Text(old(value)@),
            wire,
            bytes@,
            0,
            r,
            Datum::Text(final(value)@),
        ),
{
    match take_field_run(wire, bytes) {
        Err(e) => Err(e),
        Ok((run, rest)) => match text::utf8_text(run) {
            Err(_) => Err(DecodeError::plain(DecodeErrorKind::InvalidString)),
            Ok(text) => {
                *value = text.to_owned();
                Ok(rest)
            },
        },
    }
}

pub(crate) fn merge_bytes<'a>(value: &mut Vec<u8>, wire: WireType, bytes: &'a [u8]) -> (r: Result<
    &'a [u8],
    DecodeError,
>)
    ensures
        merges(
            FieldKind::Bytes,
            Datum::Bytes(old(value)@),
            wire,
            bytes@,
            0,
            r,
            Datum::Bytes(final(value)@),
        ),
{
    match take_field_run(wire, bytes) {
        Err(e) => Err(e),
        Ok((run, rest)) => {
            *value = slice_to_vec(run);
            Ok(rest)
        },
    }
}

pub(crate) fn merge_many_bytes<'a>(value: &mut Vec<Vec<u8>>, wire: WireType, bytes: &'a [u8]) -> (r:
    Result<&'a [u8], DecodeError>)
    ensures
        merges(
            FieldKind::ManyBytes,
            Datum::ManyBytes(old(value).deep_view()),
            wire,
            bytes@,
            0,
            r,
            Datum::ManyBytes(final(value).deep_view()),
        ),
{
    match take_field_run(wire, bytes) {
        Err(e) => Err(e),
        Ok((run, rest)) => {
            value.push(slice_to_vec(run));
            assert(value.deep_view() =~= old(value).deep_view().push(run@)) by {
                assert(value@.last().deep_view() =~= run@);
            }
            Ok(rest)
        },
    }
}

/// What is left after the value of a field is no longer than before.
pub proof fn field_merged_shortens(
    layout: Layout,
    record: Seq<Datum>,
    tag: u32,
    wire: WireType,
    bytes: Seq<u8>,
    depth: nat,
)
    ensures
        field_merged(layout, record, tag, wire, bytes, depth) matches Ok((_, rest)) ==> rest.len()
            <= bytes.len(),
    decreases depth, bytes.len(), 1nat,
{
    match crate::layout::slot(layout, tag) {
        None => {
            skipped_shortens(wire, tag, bytes, depth);
        },
        Some(i) => {
            let kind = fields(layout)[i].kind;
            varint_at_shortens(bytes);
            if depth > 0 {
                let lower = (depth - 1) as nat;
                match kind {
                    FieldKind::Entries => {
                        nested_shortens(Layout::Entry, blank_record(Layout::Entry), bytes, lower);
                    },
                    FieldKind::Message(inner) => {
                        let start = match record[i]->Message_0 {
                            Some(start) => start,
                            None => blank_record(inner),
                        };
                        nested_shortens(inner, start, bytes, lower);
                    },
                    FieldKind::Messages(inner) => {
                        nested_shortens(inner, blank_record(inner), bytes, lower);
                    },
                    _ => {},
                }
            }
        },
    }
}

proof fn nested_shortens(inner: Layout, record: Seq<Datum>, bytes: Seq<u8>, depth: nat)
    ensures
        nested_merged(inner, record, bytes, depth) matches Ok((_, rest)) ==> rest.len()
            <= bytes.len(),
    decreases depth, bytes.len(), 3nat,
{
    varint_at_shortens(bytes);
    if let Some((count, rest)) = crate::varint::varint_at(bytes) {
        if count <= rest.len() {
            fields_shorten(inner, record, rest, (rest.len() - count) as nat, depth);
        }
    }
}

proof fn fields_shorten(
    layout: Layout,
    record: Seq<Datum>,
    bytes: Seq<u8>,
    limit: nat,
    depth: nat,
)
    ensures
        fields_merged(layout, record, bytes, limit, depth) matches Ok((_, rest)) ==> rest.len()
            == limit && rest.len() <= bytes.len(),
    decreases depth, bytes.len(), 2nat,
{
    if bytes.len() > limit {
        if let Ok((tag, wire, rest)) = crate::wire::key_at(bytes) {
            varint_at_shortens(bytes);
            field_merged_shortens(layout, record, tag, wire, rest, depth);
            if let Ok((next, left)) = field_merged(layout, record, tag, wire, rest, depth) {
                if left.len() < bytes.len() {
                    fields_shorten(layout, next, left, limit, depth);
                }
            }
        }
    }
}

/// Reads fields into `message` up to the last `limit` bytes.
pub(crate) fn merge_fields<'a, M: Message>(
    message: &mut M,
    bytes: &'a [u8],
    limit: usize,
    depth: u32,
) -> (r: Result<&'a [u8], DecodeError>)
    ensures
        match r {
            Ok(rest) => fields_merged(
                M::layout(),
                old(message).record(),
                bytes@,
                limit as nat,
                depth as nat,
            ) == Ok::<_, DecodeErrorView>((final(message).record(), rest@)),
            Err(e) => fields_merged(
                M::layout(),
                old(message).record(),
                bytes@,
                limit as nat,
                depth as nat,
            ) == Err::<(Seq<Datum>, Seq<u8>), _>(e@),
        },
{
    let mut left = bytes;
    while left.len() > limit
        invariant
            fields_merged(M::layout(), message.record(), left@, limit as nat, depth as nat)
                == fields_merged(
                M::layout(),
                old(message).record(),
                bytes@,
                limit as nat,
                depth as nat,
            ),
        decreases left@.len(),
    {
        match take_key(left) {
            Err(kind) => return Err(DecodeError::plain(kind)),
            Ok((tag, wire, rest)) => {
                proof {
                    field_merged_shortens(
                        M::layout(),
                        message.record(),
                        tag,
                        wire,
                        rest@,
                        depth as nat,
                    );
                }
                match message.merge_field(tag, wire, rest, depth) {
                    Err(e) => return Err(e),
                    Ok(next) => {
                        left = next;
                    },
                }
            },
        }
    }
    if left.len() == limit {
        Ok(left)
    } else {
        Err(DecodeError::plain(DecodeErrorKind::DelimitedLengthExceeded))
    }
}

/// Reads a nested message into `message`.
fn merge_nested<'a, M: Message>(message: &mut M, bytes: &'a [u8], depth: u32) -> (r: Result<
    &'a [u8],
    DecodeError,
>)
    ensures
        match r {
            Ok(rest) => nested_merged(M::layout(), old(message).record(), bytes@, depth as nat)
                == Ok::<_, DecodeErrorView>((final(message).record(), rest@)),
            Err(e) => nested_merged(M::layout(), old(message).record(), bytes@, depth as nat)
                == Err::<(Seq<Datum>, Seq<u8>), _>(e@),
        },
{
    proof {
        varint_at_shortens(bytes@);
    }
    match take_varint(bytes) {
        None => Err(DecodeError::plain(DecodeErrorKind::InvalidVarint)),
        Some((count, rest)) => {
            if count > rest.len() as u64 {
                return Err(DecodeError::plain(DecodeErrorKind::BufferUnderflow));
            }
            merge_fields(message, rest, rest.len() - count as usize, depth)
        },
    }
}

/// The record of a message that may be absent.
pub open spec fn optional_record<M: Message>(message: Option<M>) -> Datum {
    match message {
        Some(m) => Datum::Message(Some(m.record())),
        None => Datum::Message(None),
    }
}

pub(crate) fn merge_message<'a, M: Message>(
    value: &mut Option<M>,
    wire: WireType,
    bytes: &'a [u8],
    depth: u32,
) -> (r: Result<&'a [u8], DecodeError>)
    ensures
        merges(
            FieldKind::Message(M::layout()),
            optional_record(*old(value)),
            wire,
            bytes@,
            depth as nat,
            r,
            optional_record(*final(value)),
        ),
{
    if wire != WireType::LengthDelimited {
        return Err(
            DecodeError::plain(
                DecodeErrorKind::UnexpectedWireType {
                    actual: wire,
                    expected: WireType::LengthDelimited,
                },
            ),
        );
    }
    if depth == 0 {
        return Err(DecodeError::plain(DecodeErrorKind::RecursionLimitReached));
    }
    let mut message = match value.take() {
        Some(m) => m,
        None => M::blank(),
    };
    let r = merge_nested(&mut message, bytes, depth - 1);
    *value = Some(message);
    r
}

/// The records of messages.
pub open spec fn records<M: Message>(messages: Seq<M>) -> Seq<Seq<Datum>> {
    Seq::new(messages.len(), |i: int| messages[i].record())
}

pub(crate) fn merge_messages<'a, M: Message>(
    value: &mut Vec<M>,
    wire: WireType,
    bytes: &'a [u8],
    depth: u32,
) -> (r: Result<&'a [u8], DecodeError>)
    ensures
        merges(
            FieldKind::Messages(M::layout()),
            Datum::Messages(records(old(value)@)),
            wire,
            bytes@,
            depth as nat,
            r,
            Datum::Messages(records(final(value)@)),
        ),
{
    if wire != WireType::LengthDelimited {
        return Err(
            DecodeError::plain(
                DecodeErrorKind::UnexpectedWireType {
                    actual: wire,
                    expected: WireType::LengthDelimited,
                },
            ),
        );
    }
    if depth == 0 {
        return Err(DecodeError::plain(DecodeErrorKind::RecursionLimitReached));
    }
    let mut message = M::blank();
    match merge_nested(&mut message, bytes, depth - 1) {
        Err(e) => Err(e),
        Ok(rest) => {
            value.push(message);
            assert(records(value@) =~= records(old(value)@).push(message.record()));
            Ok(rest)
        },
    }
}

impl Message for Entry {
    open spec fn layout() -> Layout {
        Layout::Entry
    }

    open spec fn record(&self) -> Seq<Datum> {
        entry_record(self.key@, self.value@)
    }

    open spec fn well_formed(&self) -> bool {
        true
    }

    proof fn record_has_every_field(&self) {
        reveal(fields);
    }

    proof fn record_is_shaped(&self) {
        entry_is_shaped(self.key@, self.value@);
    }

    fn blank() -> (r: Entry) {
        proof {
            reveal(fields);
        }
        let r = Entry { key: String::new(), value: Vec::new() };
        assert(r.record() =~= blank_record(Layout::Entry));
        r
    }

    fn merge_field<'a>(&mut self, tag: u32, wire: WireType, bytes: &'a [u8], depth: u32) -> (r:
        Result<&'a [u8], DecodeError>) {
        proof {
            reveal(fields);
        }
        let ghost before = self.record();
        let r = match tag {
            1 => merge_text(&mut self.key, wire, bytes),
            2 => merge_bytes(&mut self.value, wire, bytes),
            _ => merge_unknown(wire, tag, bytes, depth),
        };
        assert(tag == 1 ==> self.record() =~= before.update(0, Datum::Text(self.key@)));
        assert(tag == 2 ==> self.record() =~= before.update(1, Datum::Bytes(self.value@)));
        r
    }

    fn field_count() -> (r: usize) {
        proof {
            reveal(fields);
        }
        2
    }

    fn put_field(&self, index: usize, out: &mut Vec<u8>) {
        proof {
            reveal(fields);
        }
        match index {
            0 => put_text(1, &self.key, out),
            _ => put_bytes(2, &self.value, out),
        }
    }
}

/// The record of an entry has the shape of one.
pub proof fn entry_is_shaped(key: Seq<char>, value: Seq<u8>)
    ensures
        shaped(Layout::Entry, entry_record(key, value)),
{
    reveal(fields);
}

/// The bytes of an entry are those of its record.
pub proof fn entry_bytes(key: Seq<char>, value: Seq<u8>)
    ensures
        encoded(Layout::Entry, entry_record(key, value)) == entry_encoded(key, value),
{
    let record = entry_record(key, value);
    let parts = fields(Layout::Entry);
    reveal(fields);
    assert(encoded_from(Layout::Entry, record, 2) =~= seq![]);
    assert(encoded_from(Layout::Entry, record, 1) =~= field_encoded(parts[1], record[1]));
    let head = field_encoded(parts[0], record[0]);
    assert(encoded_from(Layout::Entry, record, 0) =~= head + field_encoded(parts[1], record[1]));
}

/// Reads an entry of a map. The wire type makes no difference.
pub(crate) fn merge_entries<'a>(
    value: &mut BytesMap,
    _wire: WireType,
    bytes: &'a [u8],
    depth: u32,
) -> (r: Result<&'a [u8], DecodeError>)
    ensures
        merges(
            FieldKind::Entries,
            Datum::Entries(old(value)@),
            _wire,
            bytes@,
            depth as nat,
            r,
            Datum::Entries(final(value)@),
        ),
{
    if depth == 0 {
        return Err(DecodeError::plain(DecodeErrorKind::RecursionLimitReached));
    }
    let mut entry = Entry::blank();
    match merge_nested(&mut entry, bytes, depth - 1) {
        Err(e) => Err(e),
        Ok(rest) => {
            let Entry { key, value: content } = entry;
            value.insert(key, content);
            Ok(rest)
        },
    }
}

// ---- writing ---------------------------------------------------------------
pub(crate) fn put_number(tag: u32, number: i64, out: &mut Vec<u8>)
    ensures
        forall|name: &'static str, kind: FieldKind|
            final(out)@ == old(out)@ + #[trigger] field_encoded(
                crate::layout::field(tag, name, kind),
                Datum::Int(number as int),
            ),
{
    if number != 0 {
        put_key(tag, WireType::Varint, out);
        let raw: u64 = if number < 0 {
            u64::MAX - (-1 - number) as u64
        } else {
            number as u64
        };
        put_varint(raw, out);
        assert(raw == raw_of(number as int));
    }
    assert(out@ =~= old(out)@ + field_encoded(
        crate::layout::field(tag, "", FieldKind::Int64),
        Datum::Int(number as int),
    ));
}

pub(crate) fn put_uint64(tag: u32, number: u64, out: &mut Vec<u8>)
    ensures
        forall|name: &'static str, kind: FieldKind|
            final(out)@ == old(out)@ + #[trigger] field_encoded(
                crate::layout::field(tag, name, kind),
                Datum::Int(number as int),
            ),
{
    if number != 0 {
        put_key(tag, WireType::Varint, out);
        put_varint(number, out);
    }
    assert(out@ =~= old(out)@ + field_encoded(
        crate::layout::field(tag, "", FieldKind::Uint64),
        Datum::Int(number as int),
    ));
}

fn put_run(tag: u32, content: &[u8], out: &mut Vec<u8>)
    ensures
        final(out)@ == old(out)@ + run_encoded(tag, content@),
{
    put_key(tag, WireType::LengthDelimited, out);
    put_delimited(content, out);
    assert(out@ =~= old(out)@ + run_encoded(tag, content@));
}

pub(crate) fn put_text(tag: u32, text: &String, out: &mut Vec<u8>)
    ensures
        forall|name: &'static str, kind: FieldKind|
            final(out)@ == old(out)@ + #[trigger] field_encoded(
                crate::layout::field(tag, name, kind),
                Datum::Text(text@),
            ),
{
    if !text.as_str().is_empty() {
        put_run(tag, text.as_str().as_bytes(), out);
    }
    assert(out@ =~= old(out)@ + field_encoded(
        crate::layout::field(tag, "", FieldKind::Text),
        Datum::Text(text@),
    ));
}

pub(crate) fn put_bytes(tag: u32, bytes: &Vec<u8>, out: &mut Vec<u8>)
    ensures
        forall|name: &'static str, kind: FieldKind|
            final(out)@ == old(out)@ + #[trigger] field_encoded(
                crate::layout::field(tag, name, kind),
                Datum::Bytes(bytes@),
            ),
{
    if bytes.len() > 0 {
        put_run(tag, bytes.as_slice(), out);
    }
    assert(out@ =~= old(out)@ + field_encoded(
        crate::layout::field(tag, "", FieldKind::Bytes),
        Datum::Bytes(bytes@),
    ));
}

proof fn lemma_runs_encoded_push(tag: u32, runs: Seq<Seq<u8>>, run: Seq<u8>)
    ensures
        runs_encoded(tag, runs.push(run)) == runs_encoded(tag, runs) + run_encoded(tag, run),
    decreases runs.len(),
{
    if runs.len() == 0 {
        reveal_with_fuel(runs_encoded, 2);
        assert(runs_encoded(tag, runs.push(run)) =~= run_encoded(tag, run));
        assert(runs_encoded(tag, runs) + run_encoded(tag, run) =~= run_encoded(tag, run));
    } else {
        assert(runs.push(run).skip(1) =~= runs.skip(1).push(run));
        lemma_runs_encoded_push(tag, runs.skip(1), run);
        assert(runs_encoded(tag, runs.push(run)) =~= runs_encoded(tag, runs) + run_encoded(
            tag,
            run,
        ));
    }
}

/// Appends the bytes of a message.
fn put_fields<M: Message>(message: &M, out: &mut Vec<u8>)
    ensures
        final(out)@ == old(out)@ + encoded(M::layout(), message.record()),
{
    let ghost whole = old(out)@ + encoded(M::layout(), message.record());
    let count = M::field_count();
    proof {
        message.record_has_every_field();
    }
    let mut i: usize = 0;
    while i < count
        invariant
            0 <= i <= count,
            count == fields(M::layout()).len(),
            message.record().len() == count,
            whole == old(out)@ + encoded(M::layout(), message.record()),
            out@ + encoded_from(M::layout(), message.record(), i as nat) == whole,
        decreases count - i,
    {
        let ghost start = out@;
        message.put_field(i, out);
        assert(out@ + encoded_from(M::layout(), message.record(), i as nat + 1) =~= start
            + encoded_from(M::layout(), message.record(), i as nat));
        i = i + 1;
    }
    assert(out@ =~= whole);
}

pub(crate) fn put_many_bytes(tag: u32, runs: &Vec<Vec<u8>>, out: &mut Vec<u8>)
    ensures
        forall|name: &'static str, kind: FieldKind|
            final(out)@ == old(out)@ + #[trigger] field_encoded(
                crate::layout::field(tag, name, kind),
                Datum::ManyBytes(runs.deep_view()),
            ),
{
    let ghost all = runs.deep_view();
    let mut i: usize = 0;
    assert(all.take(0) =~= Seq::<Seq<u8>>::empty());
    while i < runs.len()
        invariant
            0 <= i <= runs@.len(),
            all == runs.deep_view(),
            out@ == old(out)@ + runs_encoded(tag, all.take(i as int)),
        decreases runs@.len() - i,
    {
        let ghost start = out@;
        put_run(tag, runs[i].as_slice(), out);
        proof {
            assert(runs@[i as int].deep_view() =~= runs@[i as int]@);
            assert(all.take(i + 1) =~= all.take(i as int).push(runs@[i as int]@));
            lemma_runs_encoded_push(tag, all.take(i as int), runs@[i as int]@);
        }
        i = i + 1;
        assert(out@ =~= old(out)@ + runs_encoded(tag, all.take(i as int)));
    }
    assert(all.take(i as int) =~= all);
}

proof fn lemma_entries_encoded_push(
    tag: u32,
    entries: Seq<(Seq<char>, Seq<u8>)>,
    entry: (Seq<char>, Seq<u8>),
)
    ensures
        entries_encoded(tag, entries.push(entry)) == entries_encoded(tag, entries) + run_encoded(
            tag,
            entry_encoded(entry.0, entry.1),
        ),
    decreases entries.len(),
{
    let run = run_encoded(tag, entry_encoded(entry.0, entry.1));
    if entries.len() == 0 {
        reveal_with_fuel(entries_encoded, 2);
        assert(entries_encoded(tag, entries.push(entry)) =~= run);
        assert(entries_encoded(tag, entries) + run =~= run);
    } else {
        assert(entries.push(entry).skip(1) =~= entries.skip(1).push(entry));
        lemma_entries_encoded_push(tag, entries.skip(1), entry);
        assert(entries_encoded(tag, entries.push(entry)) =~= entries_encoded(tag, entries) + run);
    }
}

pub(crate) fn put_entries(tag: u32, entries: &BytesMap, out: &mut Vec<u8>)
    ensures
        forall|name: &'static str, kind: FieldKind|
            final(out)@ == old(out)@ + #[trigger] field_encoded(
                crate::layout::field(tag, name, kind),
                Datum::Entries(entries@),
            ),
{
    let ghost all = entries@;
    let mut i: usize = 0;
    assert(all.take(0) =~= Seq::<(Seq<char>, Seq<u8>)>::empty());
    while i < entries.len()
        invariant
            0 <= i <= entries@.len(),
            all == entries@,
            out@ == old(out)@ + entries_encoded(tag, all.take(i as int)),
        decreases entries@.len() - i,
    {
        let entry = entries.entry(i);
        let mut content: Vec<u8> = Vec::new();
        put_fields(entry, &mut content);
        put_run(tag, content.as_slice(), out);
        proof {
            entry_bytes(entry.key@, entry.value@);
            assert(content@ =~= entry_encoded(entry.key@, entry.value@));
            assert(all.take(i + 1) =~= all.take(i as int).push((entry.key@, entry.value@)));
            lemma_entries_encoded_push(tag, all.take(i as int), (entry.key@, entry.value@));
        }
        i = i + 1;
        assert(out@ =~= old(out)@ + entries_encoded(tag, all.take(i as int)));
    }
    assert(all.take(i as int) =~= all);
}

pub(crate) fn put_message<M: Message>(tag: u32, message: &Option<M>, out: &mut Vec<u8>)
    ensures
        forall|name: &'static str|
            final(out)@ == old(out)@ + #[trigger] field_encoded(
                crate::layout::field(tag, name, FieldKind::Message(M::layout())),
                optional_record(*message),
            ),
{
    if let Some(m) = message {
        let mut content: Vec<u8> = Vec::new();
        put_fields(m, &mut content);
        put_run(tag, content.as_slice(), out);
        assert(content@ =~= encoded(M::layout(), m.record()));
    }
    assert(out@ =~= old(out)@ + field_encoded(
        crate::layout::field(tag, "", FieldKind::Message(M::layout())),
        optional_record(*message),
    ));
}

proof fn lemma_records_encoded_push(
    tag: u32,
    inner: Layout,
    list: Seq<Seq<Datum>>,
    record: Seq<Datum>,
)
    ensures
        records_encoded(tag, inner, list.push(record)) == records_encoded(tag, inner, list)
            + run_encoded(tag, encoded(inner, record)),
    decreases list.len(),
{
    let run = run_encoded(tag, encoded(inner, record));
    if list.len() == 0 {
        reveal_with_fuel(records_encoded, 2);
        assert(list.push(record).subrange(1, 1) =~= Seq::<Seq<Datum>>::empty());
        assert(records_encoded(tag, inner, list.push(record)) =~= run);
        assert(records_encoded(tag, inner, list) + run =~= run);
    } else {
        let rest = list.subrange(1, list.len() as int);
        assert(list.push(record).subrange(1, list.len() as int + 1) =~= rest.push(record));
        lemma_records_encoded_push(tag, inner, rest, record);
        assert(records_encoded(tag, inner, list.push(record)) =~= records_encoded(tag, inner, list)
            + run);
    }
}

pub(crate) fn put_messages<M: Message>(tag: u32, messages: &Vec<M>, out: &mut Vec<u8>)
    ensures
        forall|name: &'static str|
            final(out)@ == old(out)@ + #[trigger] field_encoded(
                crate::layout::field(tag, name, FieldKind::Messages(M::layout())),
                Datum::Messages(records(messages@)),
            ),
{
    let ghost all = records(messages@);
    let mut i: usize = 0;
    assert(all.take(0) =~= Seq::<Seq<Datum>>::empty());
    while i < messages.len()
        invariant
            0 <= i <= messages@.len(),
            all == records(messages@),
            out@ == old(out)@ + records_encoded(tag, M::layout(), all.take(i as int)),
        decreases messages@.len() - i,
    {
        let mut content: Vec<u8> = Vec::new();
        put_fields(&messages[i], &mut content);
        put_run(tag, content.as_slice(), out);
        proof {
            let record = messages@[i as int].record();
            assert(content@ =~= encoded(M::layout(), record));
            assert(all.take(i + 1) =~= all.take(i as int).push(record));
            lemma_records_encoded_push(tag, M::layout(), all.take(i as int), record);
        }
        i = i + 1;
        assert(out@ =~= old(out)@ + records_encoded(tag, M::layout(), all.take(i as int)));
    }
    assert(all.take(i as int) =~= all);
}

// ---- whole messages --------------------------------------------------------
/// Reads a message that takes up all of `bytes`.
pub fn decode<M: Message>(bytes: &[u8]) -> (r: Result<M, DecodeError>)
    ensures
        match r {
            Ok(message) => decoded(M::layout(), bytes@) == Ok::<_, DecodeErrorView>(
                message.record(),
            ),
            Err(e) => decoded(M::layout(), bytes@) == Err::<Seq<Datum>, _>(e@),
        },
{
    let mut message = M::blank();
    match merge_fields(&mut message, bytes, 0, RECURSION_LIMIT) {
        Ok(_) => Ok(message),
        Err(e) => Err(e),
    }
}

/// The bytes of `message`.
pub fn encode<M: Message>(message: &M) -> (r: Vec<u8>)
    ensures
        r@ == encoded(M::layout(), message.record()),
{
    let mut out: Vec<u8> = Vec::new();
    put_fields(message, &mut out);
    assert(out@ =~= encoded(M::layout(), message.record()));
    out
}

} // verus!
