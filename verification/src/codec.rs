//! Messages to bytes and back, by the layouts of [`crate::layout`].
//!
//! A message is seen as its record: the values of its fields, in the order of
//! their tags. [`encoded`] and [`decoded`] say what the bytes of a record are and
//! what bytes mean; the functions below compute them on the message types.

use vstd::prelude::*;
use vstd::utf8::{decode_utf8, encode_utf8, valid_utf8};

use crate::error::{DecodeError, DecodeErrorView};
use crate::layout::{fields, slot, title, Field, FieldKind, Layout};
use crate::varint::{varint_at, varint_bytes};
use crate::wire::{delimited_at, delimited_bytes, key_at, key_bytes, skipped};
use crate::wire::{DecodeErrorKind, WireType};

verus! {

/// How deep messages and groups may be nested.
pub const RECURSION_LIMIT: u32 = 100;

/// The value of a field.
#[verifier::ext_equal]
pub enum Datum {
    Int(int),
    Text(Seq<char>),
    Bytes(Seq<u8>),
    ManyBytes(Seq<Seq<u8>>),
    Entries(Seq<(Seq<char>, Seq<u8>)>),
    Message(Option<Seq<Datum>>),
    Messages(Seq<Seq<Datum>>),
}

/// The value of a field that does not occur.
pub open spec fn blank_datum(kind: FieldKind) -> Datum {
    match kind {
        FieldKind::Int32 | FieldKind::Int64 | FieldKind::Uint64 | FieldKind::Bool => Datum::Int(0),
        FieldKind::Text => Datum::Text(seq![]),
        FieldKind::Bytes => Datum::Bytes(seq![]),
        FieldKind::ManyBytes => Datum::ManyBytes(seq![]),
        FieldKind::Entries => Datum::Entries(seq![]),
        FieldKind::Message(_) => Datum::Message(None),
        FieldKind::Messages(_) => Datum::Messages(seq![]),
    }
}

/// The record of a message without fields.
pub open spec fn blank_record(layout: Layout) -> Seq<Datum> {
    Seq::new(fields(layout).len(), |i: int| blank_datum(fields(layout)[i].kind))
}

/// The number that the varint `raw` stands for in a field of the given kind.
pub open spec fn number_of(kind: FieldKind, raw: nat) -> int {
    match kind {
        FieldKind::Int32 => {
            let low = raw % 0x1_0000_0000;
            if low < 0x8000_0000 {
                low as int
            } else {
                low - 0x1_0000_0000
            }
        },
        FieldKind::Int64 => if raw < 0x8000_0000_0000_0000 {
            raw as int
        } else {
            raw - 0x1_0000_0000_0000_0000
        },
        FieldKind::Bool => if raw == 0 {
            0
        } else {
            1
        },
        _ => raw as int,
    }
}

/// The varint that stands for `number`: a negative one in two's complement.
pub open spec fn raw_of(number: int) -> nat {
    if number < 0 {
        (number + 0x1_0000_0000_0000_0000) as nat
    } else {
        number as nat
    }
}

/// `entries` with `value` under `key`, in place of what was there.
pub open spec fn with_entry(
    entries: Seq<(Seq<char>, Seq<u8>)>,
    key: Seq<char>,
    value: Seq<u8>,
) -> Seq<(Seq<char>, Seq<u8>)>
    decreases entries.len(),
{
    if entries.len() == 0 {
        seq![(key, value)]
    } else if entries[0].0 == key {
        seq![(key, value)] + entries.skip(1)
    } else {
        seq![entries[0]] + with_entry(entries.skip(1), key, value)
    }
}

// ---- bytes of a record -----------------------------------------------------
/// The bytes of a message with the given record.
pub open spec fn encoded(layout: Layout, record: Seq<Datum>) -> Seq<u8>
    decreases record, fields(layout).len() + 1,
{
    encoded_from(layout, record, 0)
}

/// The bytes of the fields of a record from the given one on.
pub open spec fn encoded_from(layout: Layout, record: Seq<Datum>, from: nat) -> Seq<u8>
    decreases record, fields(layout).len() - from,
{
    if from < fields(layout).len() && from < record.len() {
        field_encoded(fields(layout)[from as int], record[from as int]) + encoded_from(
            layout,
            record,
            from + 1,
        )
    } else {
        seq![]
    }
}

/// The bytes of a field. One with a blank value leaves none.
pub open spec fn field_encoded(field: Field, datum: Datum) -> Seq<u8>
    decreases datum, 0nat,
{
    match datum {
        Datum::Int(number) => if number == 0 {
            seq![]
        } else {
            key_bytes(field.tag, WireType::Varint) + varint_bytes(raw_of(number))
        },
        Datum::Text(text) => if text.len() == 0 {
            seq![]
        } else {
            run_encoded(field.tag, encode_utf8(text))
        },
        Datum::Bytes(bytes) => if bytes.len() == 0 {
            seq![]
        } else {
            run_encoded(field.tag, bytes)
        },
        Datum::ManyBytes(runs) => runs_encoded(field.tag, runs),
        Datum::Entries(entries) => entries_encoded(field.tag, entries),
        Datum::Message(None) => seq![],
        Datum::Message(Some(record)) => match field.kind {
            FieldKind::Message(inner) => run_encoded(field.tag, encoded(inner, record)),
            _ => seq![],
        },
        Datum::Messages(records) => match field.kind {
            FieldKind::Messages(inner) => records_encoded(field.tag, inner, records),
            _ => seq![],
        },
    }
}

/// A length-delimited field.
pub open spec fn run_encoded(tag: u32, content: Seq<u8>) -> Seq<u8> {
    key_bytes(tag, WireType::LengthDelimited) + delimited_bytes(content)
}

/// A field for each of `runs`.
pub open spec fn runs_encoded(tag: u32, runs: Seq<Seq<u8>>) -> Seq<u8>
    decreases runs.len(),
{
    if runs.len() == 0 {
        seq![]
    } else {
        run_encoded(tag, runs[0]) + runs_encoded(tag, runs.skip(1))
    }
}

/// The record of an entry of a map.
pub open spec fn entry_record(key: Seq<char>, value: Seq<u8>) -> Seq<Datum> {
    seq![Datum::Text(key), Datum::Bytes(value)]
}

/// The bytes of an entry of a map.
pub open spec fn entry_encoded(key: Seq<char>, value: Seq<u8>) -> Seq<u8> {
    (if key.len() == 0 {
        seq![]
    } else {
        run_encoded(1, encode_utf8(key))
    }) + (if value.len() == 0 {
        seq![]
    } else {
        run_encoded(2, value)
    })
}

/// A field for each of `entries`.
pub open spec fn entries_encoded(tag: u32, entries: Seq<(Seq<char>, Seq<u8>)>) -> Seq<u8>
    decreases entries.len(),
{
    if entries.len() == 0 {
        seq![]
    } else {
        run_encoded(tag, entry_encoded(entries[0].0, entries[0].1)) + entries_encoded(
            tag,
            entries.skip(1),
        )
    }
}

/// A field for each of `records`.
pub open spec fn records_encoded(tag: u32, inner: Layout, records: Seq<Seq<Datum>>) -> Seq<u8>
    decreases records, 0nat,
{
    if records.len() == 0 {
        seq![]
    } else {
        run_encoded(tag, encoded(inner, records[0])) + records_encoded(
            tag,
            inner,
            records.subrange(1, records.len() as int),
        )
    }
}

// ---- record of bytes -------------------------------------------------------
/// The record that `bytes` stand for.
pub open spec fn decoded(layout: Layout, bytes: Seq<u8>) -> Result<Seq<Datum>, DecodeErrorView> {
    match fields_merged(layout, blank_record(layout), bytes, 0, RECURSION_LIMIT as nat) {
        Ok((record, _)) => Ok(record),
        Err(e) => Err(e),
    }
}

/// `record` after the fields in `bytes` up to the last `limit` bytes, and what is
/// left. Every field takes at least the byte of its key.
pub open spec fn fields_merged(
    layout: Layout,
    record: Seq<Datum>,
    bytes: Seq<u8>,
    limit: nat,
    depth: nat,
) -> Result<(Seq<Datum>, Seq<u8>), DecodeErrorView>
    decreases depth, bytes.len(), 2nat,
{
    if bytes.len() < limit {
        Err(DecodeErrorView::plain(DecodeErrorKind::DelimitedLengthExceeded))
    } else if bytes.len() == limit {
        Ok((record, bytes))
    } else {
        match key_at(bytes) {
            Err(kind) => Err(DecodeErrorView::plain(kind)),
            Ok((tag, wire, rest)) => if rest.len() < bytes.len() {
                match field_merged(layout, record, tag, wire, rest, depth) {
                    Err(e) => Err(e),
                    Ok((next, left)) => if left.len() < bytes.len() {
                        fields_merged(layout, next, left, limit, depth)
                    } else {
                        Err(DecodeErrorView::plain(DecodeErrorKind::BufferUnderflow))
                    },
                }
            } else {
                Err(DecodeErrorView::plain(DecodeErrorKind::BufferUnderflow))
            },
        }
    }
}

/// `record` after the field whose key has been read, and what is left. A field
/// that the message does not have is passed over.
pub open spec fn field_merged(
    layout: Layout,
    record: Seq<Datum>,
    tag: u32,
    wire: WireType,
    bytes: Seq<u8>,
    depth: nat,
) -> Result<(Seq<Datum>, Seq<u8>), DecodeErrorView>
    decreases depth, bytes.len(), 1nat,
{
    match slot(layout, tag) {
        None => match skipped(wire, tag, bytes, depth) {
            Err(kind) => Err(DecodeErrorView::plain(kind)),
            Ok(rest) => Ok((record, rest)),
        },
        Some(i) => match datum_merged(fields(layout)[i].kind, record[i], wire, bytes, depth) {
            Err(e) => match title(layout) {
                None => Err(e),
                Some(message) => Err(e.within(message, fields(layout)[i].name@)),
            },
            Ok((datum, rest)) => Ok((record.update(i, datum), rest)),
        },
    }
}

/// The run of bytes of a length-delimited field.
pub open spec fn run_merged(wire: WireType, bytes: Seq<u8>) -> Result<
    (Seq<u8>, Seq<u8>),
    DecodeErrorView,
> {
    if wire != WireType::LengthDelimited {
        Err(
            DecodeErrorView::plain(
                DecodeErrorKind::UnexpectedWireType {
                    actual: wire,
                    expected: WireType::LengthDelimited,
                },
            ),
        )
    } else {
        match delimited_at(bytes) {
            Err(kind) => Err(DecodeErrorView::plain(kind)),
            Ok(found) => Ok(found),
        }
    }
}

/// The record of a nested message, which starts from `record`.
pub open spec fn nested_merged(
    inner: Layout,
    record: Seq<Datum>,
    bytes: Seq<u8>,
    depth: nat,
) -> Result<(Seq<Datum>, Seq<u8>), DecodeErrorView>
    decreases depth, bytes.len(), 3nat,
{
    match varint_at(bytes) {
        None => Err(DecodeErrorView::plain(DecodeErrorKind::InvalidVarint)),
        Some((count, rest)) => if count > rest.len() {
            Err(DecodeErrorView::plain(DecodeErrorKind::BufferUnderflow))
        } else if rest.len() <= bytes.len() {
            fields_merged(inner, record, rest, (rest.len() - count) as nat, depth)
        } else {
            Err(DecodeErrorView::plain(DecodeErrorKind::BufferUnderflow))
        },
    }
}

/// The value of a field that was `datum` after one more occurrence of it. A
/// number, text or run of bytes replaces the value, a message is merged into it,
/// and a field with many values gets one more.
pub open spec fn datum_merged(
    kind: FieldKind,
    datum: Datum,
    wire: WireType,
    bytes: Seq<u8>,
    depth: nat,
) -> Result<(Datum, Seq<u8>), DecodeErrorView>
    decreases depth, bytes.len(), 0nat,
{
    match kind {
        FieldKind::Int32 | FieldKind::Int64 | FieldKind::Uint64 | FieldKind::Bool => {
            if wire != WireType::Varint {
                Err(
                    DecodeErrorView::plain(
                        DecodeErrorKind::UnexpectedWireType {
                            actual: wire,
                            expected: WireType::Varint,
                        },
                    ),
                )
            } else {
                match varint_at(bytes) {
                    None => Err(DecodeErrorView::plain(DecodeErrorKind::InvalidVarint)),
                    Some((raw, rest)) => Ok((Datum::Int(number_of(kind, raw)), rest)),
                }
            }
        },
        FieldKind::Text => match run_merged(wire, bytes) {
            Err(e) => Err(e),
            Ok((run, rest)) => if valid_utf8(run) {
                Ok((Datum::Text(decode_utf8(run)), rest))
            } else {
                Err(DecodeErrorView::plain(DecodeErrorKind::InvalidString))
            },
        },
        FieldKind::Bytes => match run_merged(wire, bytes) {
            Err(e) => Err(e),
            Ok((run, rest)) => Ok((Datum::Bytes(run), rest)),
        },
        FieldKind::ManyBytes => match run_merged(wire, bytes) {
            Err(e) => Err(e),
            Ok((run, rest)) => Ok((Datum::ManyBytes(datum->ManyBytes_0.push(run)), rest)),
        },
        FieldKind::Entries => if depth == 0 {
            Err(DecodeErrorView::plain(DecodeErrorKind::RecursionLimitReached))
        } else {
            match nested_merged(
                Layout::Entry,
                blank_record(Layout::Entry),
                bytes,
                (depth - 1) as nat,
            ) {
                Err(e) => Err(e),
                Ok((entry, rest)) => Ok(
                    (
                        Datum::Entries(
                            with_entry(datum->Entries_0, entry[0]->Text_0, entry[1]->Bytes_0),
                        ),
                        rest,
                    ),
                ),
            }
        },
        FieldKind::Message(inner) => if wire != WireType::LengthDelimited {
            Err(
                DecodeErrorView::plain(
                    DecodeErrorKind::UnexpectedWireType {
                        actual: wire,
                        expected: WireType::LengthDelimited,
                    },
                ),
            )
        } else if depth == 0 {
            Err(DecodeErrorView::plain(DecodeErrorKind::RecursionLimitReached))
        } else {
            let start = match datum->Message_0 {
                Some(record) => record,
                None => blank_record(inner),
            };
            match nested_merged(inner, start, bytes, (depth - 1) as nat) {
                Err(e) => Err(e),
                Ok((record, rest)) => Ok((Datum::Message(Some(record)), rest)),
            }
        },
        FieldKind::Messages(inner) => if wire != WireType::LengthDelimited {
            Err(
                DecodeErrorView::plain(
                    DecodeErrorKind::UnexpectedWireType {
                        actual: wire,
                        expected: WireType::LengthDelimited,
                    },
                ),
            )
        } else if depth == 0 {
            Err(DecodeErrorView::plain(DecodeErrorKind::RecursionLimitReached))
        } else {
            match nested_merged(inner, blank_record(inner), bytes, (depth - 1) as nat) {
                Err(e) => Err(e),
                Ok((record, rest)) => Ok(
                    (Datum::Messages(datum->Messages_0.push(record)), rest),
                ),
            }
        },
    }
}

// ---- messages --------------------------------------------------------------
/// Whether a merge of a field took its value from `before` to `after`, or failed,
/// as [`datum_merged`] says.
pub open spec fn merges(
    kind: FieldKind,
    before: Datum,
    wire: WireType,
    bytes: Seq<u8>,
    depth: nat,
    r: Result<&[u8], DecodeError>,
    after: Datum,
) -> bool {
    match r {
        Ok(rest) => datum_merged(kind, before, wire, bytes, depth) == Ok::<_, DecodeErrorView>(
            (after, rest@),
        ),
        Err(e) => datum_merged(kind, before, wire, bytes, depth) == Err::<(Datum, Seq<u8>), _>(e@),
    }
}

/// A message that can be read from and written to the wire.
pub trait Message: Sized {
    /// The layout of the message.
    spec fn layout() -> Layout;

    /// The values of the fields, in the order of their tags.
    spec fn record(&self) -> Seq<Datum>;

    /// The record has a value for every field.
    proof fn record_has_every_field(&self)
        ensures
            self.record().len() == fields(Self::layout()).len(),
    ;

    /// Whether the maps in the message hold no key twice.
    spec fn well_formed(&self) -> bool;

    /// The record has the shape that the layout says.
    proof fn record_is_shaped(&self)
        requires
            self.well_formed(),
        ensures
            shaped(Self::layout(), self.record()),
    ;

    /// The message without fields.
    fn blank() -> (r: Self)
        ensures
            r.record() == blank_record(Self::layout()),
    ;

    /// Reads the value of a field whose key has been read.
    fn merge_field<'a>(&mut self, tag: u32, wire: WireType, bytes: &'a [u8], depth: u32) -> (r:
        Result<&'a [u8], DecodeError>)
        ensures
            match r {
                Ok(rest) => field_merged(
                    Self::layout(),
                    old(self).record(),
                    tag,
                    wire,
                    bytes@,
                    depth as nat,
                ) == Ok::<_, DecodeErrorView>((final(self).record(), rest@)),
                Err(e) => field_merged(
                    Self::layout(),
                    old(self).record(),
                    tag,
                    wire,
                    bytes@,
                    depth as nat,
                ) == Err::<(Seq<Datum>, Seq<u8>), _>(e@),
            },
    ;

    /// The number of fields.
    fn field_count() -> (r: usize)
        ensures
            r == fields(Self::layout()).len(),
    ;

    /// Appends the bytes of the field at the given place.
    fn put_field(&self, index: usize, out: &mut Vec<u8>)
        requires
            index < fields(Self::layout()).len(),
        ensures
            final(out)@ == old(out)@ + field_encoded(
                fields(Self::layout())[index as int],
                self.record()[index as int],
            ),
    ;
}

/// Whether no key occurs twice.
pub open spec fn keys_differ(entries: Seq<(Seq<char>, Seq<u8>)>) -> bool {
    forall|i: int, j: int|
        0 <= i < j < entries.len() ==> (#[trigger] entries[i]).0 != (#[trigger] entries[j]).0
}

/// Whether a record has the fields of a layout, each with a value of its kind.
pub open spec fn shaped(layout: Layout, record: Seq<Datum>) -> bool
    decreases record, 1nat,
{
    &&& record.len() == fields(layout).len()
    &&& forall|i: int|
        0 <= i < record.len() ==> of_kind(fields(layout)[i].kind, #[trigger] record[i])
}

/// Whether a value can stand in a field of the given kind.
pub open spec fn of_kind(kind: FieldKind, datum: Datum) -> bool
    decreases datum, 0nat,
{
    match kind {
        FieldKind::Int32 => datum matches Datum::Int(number) && i32::MIN <= number <= i32::MAX,
        FieldKind::Int64 => datum matches Datum::Int(number) && i64::MIN <= number <= i64::MAX,
        FieldKind::Uint64 => datum matches Datum::Int(number) && 0 <= number <= u64::MAX,
        FieldKind::Bool => datum matches Datum::Int(number) && 0 <= number <= 1,
        FieldKind::Text => datum is Text,
        FieldKind::Bytes => datum is Bytes,
        FieldKind::ManyBytes => datum is ManyBytes,
        FieldKind::Entries => datum matches Datum::Entries(entries) && keys_differ(entries),
        FieldKind::Message(inner) => match datum {
            Datum::Message(None) => true,
            Datum::Message(Some(record)) => shaped(inner, record),
            _ => false,
        },
        FieldKind::Messages(inner) => match datum {
            Datum::Messages(records) => forall|i: int|
                0 <= i < records.len() ==> shaped(inner, #[trigger] records[i]),
            _ => false,
        },
    }
}

} // verus!
