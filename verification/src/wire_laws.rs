//! How the values on the wire are read one by one, and what is told of faulty ones.

use vstd::prelude::*;
use vstd::utf8::{decode_utf8, valid_utf8};

use crate::bytes_map::{entry_value, get_after_insert, same_values, BytesMap, Entry};
use crate::codec::{blank_record, field_merged, fields_merged, number_of, raw_of};
use crate::codec::{with_entry, Datum, Message};
use crate::fields::{decode, encode};
use crate::ledger_laws::{can_be_read, is_read_as};
use crate::codec_laws::decode_inverts_encode;
use crate::error::{DecodeError, DecodeErrorView};
use crate::layout::{fields, title, FieldKind, Layout};
use crate::varint::{varint_at, varint_bytes, varint_reads_back, varint_within};
use crate::wire_form::base_128;
use crate::wire::{delimited_bytes, delimited_reads_back, key_at, key_bytes, key_reads_back};
use crate::wire::skipped;
use crate::wire::{DecodeErrorKind, WireType, MAX_TAG};

verus! {

// ---- maps of bytes ---------------------------------------------------------
/// The first entry of a key is the one that is found, and a new entry goes to the place
/// of the old one or to the end.
pub proof fn entries_are_found_by_their_key(
    entry: (Seq<char>, Seq<u8>),
    entries: Seq<(Seq<char>, Seq<u8>)>,
    key: Seq<char>,
    value: Seq<u8>,
)
    ensures
        entry_value(seq![], key) is None,
        entry.0 == key ==> entry_value(seq![entry] + entries, key) == Some(entry.1),
        entry.0 != key ==> entry_value(seq![entry] + entries, key) == entry_value(entries, key),
        with_entry(seq![], key, value) == seq![(key, value)],
        entry.0 == key ==> with_entry(seq![entry] + entries, key, value) == seq![(key, value)]
            + entries,
        entry.0 != key ==> with_entry(seq![entry] + entries, key, value) == seq![entry]
            + with_entry(entries, key, value),
{
    assert((seq![entry] + entries).skip(1) =~= entries);
}

/// Two maps are the same where they have the same values under the same keys.
pub proof fn maps_are_told_apart_by_their_values(a: BytesMap, b: BytesMap, key: Seq<char>)
    ensures
        same_values(a@, b@) ==> entry_value(a@, key) == entry_value(b@, key),
        entry_value(a@, key) != entry_value(b@, key) ==> !same_values(a@, b@),
        (forall|k: Seq<char>| #[trigger] entry_value(a@, k) == entry_value(b@, k)) ==> same_values(
            a@,
            b@,
        ),
{
}

// ---- the wire --------------------------------------------------------------
/// A number of 32 bits is the low bits of what is read, with the sign of the highest of
/// them; one of 64 bits has the sign of the highest; a truth value is whether anything is
/// set.
pub proof fn numbers_have_the_bits_that_are_read(raw: nat)
    requires
        raw <= u64::MAX,
    ensures
        i32::MIN <= number_of(FieldKind::Int32, raw) <= i32::MAX,
        (number_of(FieldKind::Int32, raw) - raw) % 0x1_0000_0000 == 0,
        i64::MIN <= number_of(FieldKind::Int64, raw) <= i64::MAX,
        (number_of(FieldKind::Int64, raw) - raw) % 0x1_0000_0000_0000_0000 == 0,
        number_of(FieldKind::Uint64, raw) == raw,
        number_of(FieldKind::Bool, raw) == if raw == 0 {
            0int
        } else {
            1int
        },
        raw <= i64::MAX ==> raw_of(raw as int) == raw,
        raw > 0 ==> raw_of(raw - 0x1_0000_0000_0000_0000) == raw,
{
}

proof fn lemma_varint_ends(bytes: Seq<u8>, last: int, room: nat)
    requires
        0 <= last < bytes.len(),
        forall|i: int| 0 <= i < last ==> (#[trigger] bytes[i]) >= 128,
        bytes[last] < 128,
        room >= 1,
    ensures
        varint_within(bytes, room) == if last + 1 < room || (last + 1 == room && bytes[last] < 2) {
            Some((base_128(bytes.take(last + 1)), (last + 1) as nat))
        } else {
            None
        },
    decreases last,
{
    if last == 0 {
        assert(bytes.take(1).skip(1) =~= Seq::<u8>::empty());
        assert(base_128(bytes.take(1).skip(1)) == 0);
    } else if room > 1 {
        let later = bytes.skip(1);
        assert forall|i: int| 0 <= i < last - 1 implies (#[trigger] later[i]) >= 128 by {
            assert(bytes[i + 1] >= 128);
        }
        lemma_varint_ends(later, last - 1, (room - 1) as nat);
        assert(bytes.take(last + 1).skip(1) =~= later.take(last));
        assert(bytes[0] >= 128);
    } else {
        assert(bytes[0] >= 128);
        assert(varint_within(bytes.skip(1), 0) is None);
    }
}

/// A varint ends with the first byte that says that no other follows, and has the value of
/// its bytes in base 128. One of more than ten bytes or 64 bits is none.
pub proof fn varints_end_within_ten_bytes(bytes: Seq<u8>, last: int)
    requires
        0 <= last < bytes.len(),
        forall|i: int| 0 <= i < last ==> (#[trigger] bytes[i]) >= 128,
        bytes[last] < 128,
    ensures
        last < 9 || (last == 9 && bytes[9] < 2) ==> varint_at(bytes) == Some(
            (base_128(bytes.take(last + 1)), bytes.skip(last + 1)),
        ),
        last > 9 || (last == 9 && bytes[9] >= 2) ==> varint_at(bytes) is None,
{
    lemma_varint_ends(bytes, last, 10);
}

/// A key is the tag above the three bits of the form; a form that there is not, the tag
/// zero and a key of more than 32 bits are told.
pub proof fn keys_are_tag_and_form(key: u64, rest: Seq<u8>)
    ensures
        ({
            let given = key_at(varint_bytes(key as nat) + rest);
            &&& key > u32::MAX ==> given == Err::<(u32, WireType, Seq<u8>), _>(
                DecodeErrorKind::InvalidKey { key },
            )
            &&& key <= u32::MAX && key % 8 > 5 ==> given == Err::<(u32, WireType, Seq<u8>), _>(
                DecodeErrorKind::InvalidWireType { value: key % 8 },
            )
            &&& key <= 5 ==> given == Err::<(u32, WireType, Seq<u8>), _>(
                DecodeErrorKind::InvalidTag,
            )
            &&& 8 <= key <= u32::MAX && key % 8 <= 5 ==> (given matches Ok((tag, form, left)) && tag
                == key / 8 && left == rest && match form {
                WireType::Varint => key % 8 == 0,
                WireType::SixtyFourBit => key % 8 == 1,
                WireType::LengthDelimited => key % 8 == 2,
                WireType::StartGroup => key % 8 == 3,
                WireType::EndGroup => key % 8 == 4,
                WireType::ThirtyTwoBit => key % 8 == 5,
            })
        }),
{
    varint_reads_back(key, rest);
}

/// A field that is not known is passed over by the form in which it is written: a
/// number, four or eight bytes, a run of bytes, or a group up to its end.
pub proof fn unknown_values_are_passed_over(
    tag: u32,
    number: u64,
    content: Seq<u8>,
    rest: Seq<u8>,
    depth: nat,
)
    requires
        1 <= tag <= MAX_TAG,
        content.len() <= u64::MAX,
        depth >= 1,
    ensures
        skipped(WireType::Varint, tag, varint_bytes(number as nat) + rest, depth) == Ok::<
            _,
            DecodeErrorKind,
        >(rest),
        skipped(WireType::LengthDelimited, tag, delimited_bytes(content) + rest, depth) == Ok::<
            _,
            DecodeErrorKind,
        >(rest),
        content.len() == 4 ==> skipped(WireType::ThirtyTwoBit, tag, content + rest, depth) == Ok::<
            _,
            DecodeErrorKind,
        >(rest),
        content.len() == 8 ==> skipped(WireType::SixtyFourBit, tag, content + rest, depth) == Ok::<
            _,
            DecodeErrorKind,
        >(rest),
        skipped(
            WireType::StartGroup,
            tag,
            key_bytes(tag, WireType::EndGroup) + rest,
            depth,
        ) == Ok::<_, DecodeErrorKind>(rest),
        skipped(WireType::EndGroup, tag, rest, depth) == Err::<Seq<u8>, _>(
            DecodeErrorKind::UnexpectedEndGroupTag,
        ),
        skipped(WireType::Varint, tag, rest, 0) == Err::<Seq<u8>, _>(
            DecodeErrorKind::RecursionLimitReached,
        ),
{
    varint_reads_back(number, rest);
    delimited_reads_back(content, rest);
    key_reads_back(tag, WireType::EndGroup, rest);
    assert((content + rest).skip(content.len() as int) =~= rest);
}

/// Of a field that is written more than once the last number, text or run of bytes counts;
/// a field with many runs gets one more at the end. The other fields stay.
pub proof fn later_values_replace_or_follow(
    layout: Layout,
    record: Seq<Datum>,
    tag: u32,
    number: u64,
    content: Seq<u8>,
    rest: Seq<u8>,
    depth: nat,
)
    requires
        1 <= tag <= fields(layout).len(),
        record.len() == fields(layout).len(),
        content.len() <= u64::MAX,
    ensures
        ({
            let at = tag - 1;
            let kind = fields(layout)[at].kind;
            let by_number = field_merged(
                layout,
                record,
                tag,
                WireType::Varint,
                varint_bytes(number as nat) + rest,
                depth,
            );
            let by_run = field_merged(
                layout,
                record,
                tag,
                WireType::LengthDelimited,
                delimited_bytes(content) + rest,
                depth,
            );
            &&& (kind is Int32 || kind is Int64 || kind is Uint64 || kind is Bool) ==> (
            by_number matches Ok((after, left)) && left == rest && after.len() == record.len()
                && after[at] == Datum::Int(number_of(kind, number as nat)) && forall|i: int|
                0 <= i < record.len() && i != at ==> (#[trigger] after[i]) == record[i])
            &&& kind is Text && valid_utf8(content) ==> (by_run matches Ok((after, left)) && left
                == rest && after.len() == record.len() && after[at] == Datum::Text(
                decode_utf8(content),
            ) && forall|i: int|
                0 <= i < record.len() && i != at ==> (#[trigger] after[i]) == record[i])
            &&& kind is Bytes ==> (by_run matches Ok((after, left)) && left == rest && after.len()
                == record.len() && after[at] == Datum::Bytes(content) && forall|i: int|
                0 <= i < record.len() && i != at ==> (#[trigger] after[i]) == record[i])
            &&& kind is ManyBytes && record[at] is ManyBytes ==> (by_run matches Ok((after, left))
                && left == rest && after.len() == record.len() && after[at] == Datum::ManyBytes(
                record[at]->ManyBytes_0.push(content),
            ) && forall|i: int|
                0 <= i < record.len() && i != at ==> (#[trigger] after[i]) == record[i])
        }),
{
    varint_reads_back(number, rest);
    delimited_reads_back(content, rest);
}

/// A message that is written more than once is read into what was read before, while each
/// of many messages starts blank and follows the others. What comes behind it is not
/// touched, and the other fields stay.
pub proof fn later_messages_merge_or_follow(
    layout: Layout,
    record: Seq<Datum>,
    tag: u32,
    inner: Layout,
    content: Seq<u8>,
    rest: Seq<u8>,
    depth: nat,
    read: Seq<Datum>,
)
    requires
        1 <= tag <= fields(layout).len(),
        record.len() == fields(layout).len(),
        content.len() <= u64::MAX,
        depth >= 1,
    ensures
        ({
            let at = tag - 1;
            let kind = fields(layout)[at].kind;
            let given = field_merged(
                layout,
                record,
                tag,
                WireType::LengthDelimited,
                delimited_bytes(content) + rest,
                depth,
            );
            let onto = |start: Seq<Datum>|
                fields_merged(inner, start, content + rest, rest.len(), (depth - 1) as nat) == Ok::<
                    _,
                    DecodeErrorView,
                >((read, rest));
            &&& kind == FieldKind::Message(inner) && record[at] == Datum::Message(None) && onto(
                blank_record(inner),
            ) ==> given == Ok::<_, DecodeErrorView>(
                (record.update(at, Datum::Message(Some(read))), rest),
            )
            &&& kind == FieldKind::Message(inner) && (record[at] matches Datum::Message(Some(start))
                && onto(start)) ==> given == Ok::<_, DecodeErrorView>(
                (record.update(at, Datum::Message(Some(read))), rest),
            )
            &&& kind == FieldKind::Messages(inner) && record[at] is Messages && onto(
                blank_record(inner),
            ) ==> given == Ok::<_, DecodeErrorView>(
                (record.update(at, Datum::Messages(record[at]->Messages_0.push(read))), rest),
            )
        }),
{
    varint_reads_back(content.len() as u64, content + rest);
    assert(delimited_bytes(content) + rest =~= varint_bytes(content.len()) + (content + rest));
}

/// A message is blank before anything has been read into it: its numbers are zero, its
/// texts and runs empty, and its messages missing.
pub proof fn messages_start_blank(layout: Layout, i: int)
    requires
        0 <= i < fields(layout).len(),
    ensures
        blank_record(layout).len() == fields(layout).len(),
        match fields(layout)[i].kind {
            FieldKind::Int32 | FieldKind::Int64 | FieldKind::Uint64 | FieldKind::Bool =>
                blank_record(layout)[i] == Datum::Int(0),
            FieldKind::Text => blank_record(layout)[i] == Datum::Text(seq![]),
            FieldKind::Bytes => blank_record(layout)[i] == Datum::Bytes(seq![]),
            FieldKind::ManyBytes => blank_record(layout)[i] == Datum::ManyBytes(seq![]),
            FieldKind::Entries => blank_record(layout)[i] == Datum::Entries(seq![]),
            FieldKind::Message(_) => blank_record(layout)[i] == Datum::Message(None),
            FieldKind::Messages(_) => blank_record(layout)[i] == Datum::Messages(seq![]),
        },
{
}

/// A group that is not known ends with its own tag, and may hold fields and other groups,
/// which are passed over.
pub proof fn groups_end_with_their_own_tag(
    tag: u32,
    other: u32,
    number: u64,
    content: Seq<u8>,
    rest: Seq<u8>,
    depth: nat,
)
    requires
        1 <= tag <= MAX_TAG,
        1 <= other <= MAX_TAG,
        content.len() <= u64::MAX,
        depth >= 2,
    ensures
        other != tag ==> skipped(
            WireType::StartGroup,
            tag,
            key_bytes(other, WireType::EndGroup) + rest,
            depth,
        ) == Err::<Seq<u8>, _>(DecodeErrorKind::UnexpectedEndGroupTag),
        skipped(
            WireType::StartGroup,
            tag,
            key_bytes(other, WireType::Varint) + (varint_bytes(number as nat) + rest),
            depth,
        ) == skipped(WireType::StartGroup, tag, rest, depth),
        skipped(
            WireType::StartGroup,
            tag,
            key_bytes(other, WireType::LengthDelimited) + (delimited_bytes(content) + rest),
            depth,
        ) == skipped(WireType::StartGroup, tag, rest, depth),
        skipped(
            WireType::StartGroup,
            tag,
            key_bytes(other, WireType::StartGroup) + (key_bytes(other, WireType::EndGroup) + rest),
            depth,
        ) == skipped(WireType::StartGroup, tag, rest, depth),
        skipped(
            WireType::StartGroup,
            tag,
            key_bytes(other, WireType::Varint) + rest,
            1,
        ) == Err::<Seq<u8>, _>(DecodeErrorKind::RecursionLimitReached),
{
    let inner = (depth - 1) as nat;
    key_reads_back(other, WireType::EndGroup, rest);
    key_reads_back(other, WireType::Varint, varint_bytes(number as nat) + rest);
    key_reads_back(other, WireType::Varint, rest);
    key_reads_back(other, WireType::LengthDelimited, delimited_bytes(content) + rest);
    key_reads_back(other, WireType::StartGroup, key_bytes(other, WireType::EndGroup) + rest);
    unknown_values_are_passed_over(other, number, content, rest, inner);
    assert(key_bytes(other, WireType::Varint).len() > 0) by {
        key_takes_bytes(other, WireType::Varint);
    }
    assert(key_bytes(other, WireType::LengthDelimited).len() > 0) by {
        key_takes_bytes(other, WireType::LengthDelimited);
    }
    assert(key_bytes(other, WireType::StartGroup).len() > 0) by {
        key_takes_bytes(other, WireType::StartGroup);
    }
}

proof fn key_takes_bytes(tag: u32, wire: WireType)
    requires
        1 <= tag <= MAX_TAG,
    ensures
        key_bytes(tag, wire).len() > 0,
{
    key_reads_back(tag, wire, seq![]);
    if key_bytes(tag, wire).len() == 0 {
        assert(key_bytes(tag, wire) + Seq::<u8>::empty() =~= Seq::<u8>::empty());
    }
}

/// What is cut short cannot be passed over.
pub proof fn cut_values_are_told(tag: u32, missing: u64, rest: Seq<u8>, depth: nat)
    requires
        depth >= 1,
    ensures
        varint_at(rest) is None ==> skipped(WireType::Varint, tag, rest, depth) == Err::<
            Seq<u8>,
            _,
        >(DecodeErrorKind::InvalidVarint),
        rest.len() < 4 ==> skipped(WireType::ThirtyTwoBit, tag, rest, depth) == Err::<Seq<u8>, _>(
            DecodeErrorKind::BufferUnderflow,
        ),
        rest.len() < 8 ==> skipped(WireType::SixtyFourBit, tag, rest, depth) == Err::<Seq<u8>, _>(
            DecodeErrorKind::BufferUnderflow,
        ),
        missing > rest.len() ==> skipped(
            WireType::LengthDelimited,
            tag,
            varint_bytes(missing as nat) + rest,
            depth,
        ) == Err::<Seq<u8>, _>(DecodeErrorKind::BufferUnderflow),
{
    varint_reads_back(missing, rest);
}

// ---- faults ----------------------------------------------------------------
/// A value in a form that its field does not have is told with both forms, the message
/// and the field.
pub proof fn values_in_the_wrong_form_are_told(
    layout: Layout,
    record: Seq<Datum>,
    tag: u32,
    wire: WireType,
    bytes: Seq<u8>,
    depth: nat,
    message: Seq<char>,
)
    requires
        1 <= tag <= fields(layout).len(),
        title(layout) == Some(message),
    ensures
        ({
            let field = fields(layout)[tag - 1];
            let given = field_merged(layout, record, tag, wire, bytes, depth);
            &&& (field.kind is Text || field.kind is Bytes || field.kind is ManyBytes
                || field.kind is Message || field.kind is Messages) && wire
                != WireType::LengthDelimited ==> given == Err::<(Seq<Datum>, Seq<u8>), _>(
                DecodeErrorView::plain(
                    DecodeErrorKind::UnexpectedWireType {
                        actual: wire,
                        expected: WireType::LengthDelimited,
                    },
                ).within(message, field.name@),
            )
            &&& (field.kind is Int32 || field.kind is Int64 || field.kind is Uint64
                || field.kind is Bool) && wire != WireType::Varint ==> given == Err::<
                (Seq<Datum>, Seq<u8>),
                _,
            >(
                DecodeErrorView::plain(
                    DecodeErrorKind::UnexpectedWireType {
                        actual: wire,
                        expected: WireType::Varint,
                    },
                ).within(message, field.name@),
            )
        }),
{
}

/// A run that is longer than what is left, a text that is no UTF-8 and a number that does
/// not end are told with the message and the field.
pub proof fn faulty_values_are_told(
    layout: Layout,
    record: Seq<Datum>,
    tag: u32,
    content: Seq<u8>,
    rest: Seq<u8>,
    missing: u64,
    depth: nat,
    message: Seq<char>,
)
    requires
        1 <= tag <= fields(layout).len(),
        title(layout) == Some(message),
        content.len() <= u64::MAX,
    ensures
        ({
            let field = fields(layout)[tag - 1];
            let run = field_merged(
                layout,
                record,
                tag,
                WireType::LengthDelimited,
                delimited_bytes(content) + rest,
                depth,
            );
            let cut = field_merged(
                layout,
                record,
                tag,
                WireType::LengthDelimited,
                varint_bytes(missing as nat) + rest,
                depth,
            );
            let number = field_merged(layout, record, tag, WireType::Varint, rest, depth);
            &&& field.kind is Text && !valid_utf8(content) ==> run == Err::<
                (Seq<Datum>, Seq<u8>),
                _,
            >(DecodeErrorView::plain(DecodeErrorKind::InvalidString).within(message, field.name@))
            &&& (field.kind is Text || field.kind is Bytes || field.kind is ManyBytes) && missing
                > rest.len() ==> cut == Err::<(Seq<Datum>, Seq<u8>), _>(
                DecodeErrorView::plain(DecodeErrorKind::BufferUnderflow).within(
                    message,
                    field.name@,
                ),
            )
            &&& (field.kind is Int32 || field.kind is Int64 || field.kind is Uint64
                || field.kind is Bool) && varint_at(rest) is None ==> number == Err::<
                (Seq<Datum>, Seq<u8>),
                _,
            >(DecodeErrorView::plain(DecodeErrorKind::InvalidVarint).within(message, field.name@))
        }),
{
    delimited_reads_back(content, rest);
    varint_reads_back(missing, rest);
}

/// The fields of a message end where the message does: one that reaches further is told,
/// as is a key that cannot be read.
pub proof fn fields_end_with_their_message(
    layout: Layout,
    record: Seq<Datum>,
    bytes: Seq<u8>,
    limit: nat,
    depth: nat,
    kind: DecodeErrorKind,
)
    ensures
        bytes.len() == limit ==> fields_merged(layout, record, bytes, limit, depth) == Ok::<
            _,
            DecodeErrorView,
        >((record, bytes)),
        bytes.len() < limit ==> fields_merged(layout, record, bytes, limit, depth) == Err::<
            (Seq<Datum>, Seq<u8>),
            _,
        >(DecodeErrorView::plain(DecodeErrorKind::DelimitedLengthExceeded)),
        bytes.len() > limit && key_at(bytes) == Err::<(u32, WireType, Seq<u8>), _>(kind)
            ==> fields_merged(layout, record, bytes, limit, depth) == Err::<
            (Seq<Datum>, Seq<u8>),
            _,
        >(DecodeErrorView::plain(kind)),
{
}

/// A message or an entry that is longer than what is left is told with the message and the
/// field, as is a length that does not end.
pub proof fn cut_messages_are_told(
    layout: Layout,
    record: Seq<Datum>,
    tag: u32,
    missing: u64,
    rest: Seq<u8>,
    depth: nat,
    message: Seq<char>,
)
    requires
        1 <= tag <= fields(layout).len(),
        title(layout) == Some(message),
        depth >= 1,
        fields(layout)[tag - 1].kind is Message || fields(layout)[tag - 1].kind is Messages
            || fields(layout)[tag - 1].kind is Entries,
    ensures
        missing > rest.len() ==> field_merged(
            layout,
            record,
            tag,
            WireType::LengthDelimited,
            varint_bytes(missing as nat) + rest,
            depth,
        ) == Err::<(Seq<Datum>, Seq<u8>), _>(
            DecodeErrorView::plain(DecodeErrorKind::BufferUnderflow).within(
                message,
                fields(layout)[tag - 1].name@,
            ),
        ),
        varint_at(rest) is None ==> field_merged(
            layout,
            record,
            tag,
            WireType::LengthDelimited,
            rest,
            depth,
        ) == Err::<(Seq<Datum>, Seq<u8>), _>(
            DecodeErrorView::plain(DecodeErrorKind::InvalidVarint).within(
                message,
                fields(layout)[tag - 1].name@,
            ),
        ),
{
    varint_reads_back(missing, rest);
}

/// Messages may be nested as deep as the limit says and no deeper.
pub proof fn nesting_has_a_limit(
    layout: Layout,
    record: Seq<Datum>,
    tag: u32,
    bytes: Seq<u8>,
    message: Seq<char>,
)
    requires
        1 <= tag <= fields(layout).len(),
        title(layout) == Some(message),
        fields(layout)[tag - 1].kind is Message || fields(layout)[tag - 1].kind is Messages
            || fields(layout)[tag - 1].kind is Entries,
    ensures
        field_merged(layout, record, tag, WireType::LengthDelimited, bytes, 0) == Err::<
            (Seq<Datum>, Seq<u8>),
            _,
        >(
            DecodeErrorView::plain(DecodeErrorKind::RecursionLimitReached).within(
                message,
                fields(layout)[tag - 1].name@,
            ),
        ),
        crate::codec::RECURSION_LIMIT == 100,
{
}

/// What is put into a map of bytes is found under its key, whatever was there, and what is
/// under other keys stays.
pub proof fn maps_of_bytes_give_what_was_put(
    map: &mut BytesMap,
    key: String,
    value: Vec<u8>,
    after: BytesMap,
    word: &str,
    given: Option<&Vec<u8>>,
    empty: BytesMap,
    none: Option<&Vec<u8>>,
)
    requires
        call_ensures(BytesMap::insert, (map, key, value), ()),
        after == *final(map),
        call_ensures(BytesMap::get, (&after, word), given),
        call_ensures(BytesMap::new, (), empty),
        call_ensures(BytesMap::get, (&empty, word), none),
    ensures
        word@ == key@ ==> (given matches Some(v) && v@ == value@),
        word@ != key@ ==> match given {
            Some(v) => entry_value(old(map)@, word@) == Some(v@),
            None => entry_value(old(map)@, word@) is None,
        },
        none is None,
        empty@.len() == 0,
{
    get_after_insert(old(map)@, key@, value@, word@);
}

/// The entries of a map of bytes have different keys, and are given as they stand.
pub proof fn maps_of_bytes_are_listed(
    map: BytesMap,
    at: usize,
    len: usize,
    none: bool,
    entry: &Entry,
    copy: BytesMap,
)
    requires
        call_ensures(BytesMap::len, (&map,), len),
        call_ensures(BytesMap::is_empty, (&map,), none),
        call_ensures(BytesMap::entry, (&map, at), entry),
        call_ensures(BytesMap::clone, (&map,), copy),
        at < map@.len(),
    ensures
        len == map@.len(),
        none <==> len == 0,
        map@[at as int] == (entry.key@, entry.value@),
        forall|i: int, j: int|
            0 <= i < j < map@.len() ==> (#[trigger] map@[i]).0 != (#[trigger] map@[j]).0,
        copy@ == map@,
{
}

/// Maps are equal where they have the same values under the same keys, in whatever order.
pub proof fn maps_of_bytes_are_equal_by_their_values(
    a: BytesMap,
    b: BytesMap,
    equal: bool,
    key: Seq<char>,
)
    requires
        call_ensures(<BytesMap as PartialEq>::eq, (&a, &b), equal),
    ensures
        equal ==> entry_value(a@, key) == entry_value(b@, key),
        (forall|k: Seq<char>| #[trigger] entry_value(a@, k) == entry_value(b@, k)) ==> equal,
{
}

/// What is encoded can be decoded, into the same fields; what cannot be decoded is told.
pub proof fn messages_go_over_the_wire<M: Message>(
    message: M,
    bytes: Vec<u8>,
    received: &[u8],
    back: std::result::Result<M, DecodeError>,
)
    requires
        call_ensures(encode::<M>, (&message,), bytes),
        received@ == bytes@,
        call_ensures(decode::<M>, (received,), back),
        message.well_formed(),
        bytes@.len() <= u64::MAX,
    ensures
        back matches Ok(same) && same.record() == message.record(),
{
    decode_inverts_encode(message);
}

/// Decoding gives the message that the bytes stand for, and fails where they stand for
/// none.
pub proof fn bytes_are_decoded_as_they_stand<M: Message>(
    bytes: &[u8],
    written: M,
    given: std::result::Result<M, DecodeError>,
)
    requires
        call_ensures(decode::<M>, (bytes,), given),
    ensures
        given is Ok <==> can_be_read::<M>(bytes@),
        is_read_as(bytes@, written) ==> (given matches Ok(m) && m.record() == written.record()),
{
}

} // verus!
