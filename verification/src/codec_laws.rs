//! What is written can be read back.

use vstd::prelude::*;
use vstd::utf8::{encode_utf8, encode_utf8_decode_utf8, encode_utf8_valid_utf8};

use crate::codec::{blank_datum, blank_record, decoded, encoded, encoded_from};
use crate::codec::{entries_encoded, entry_encoded, entry_record, field_encoded, field_merged};
use crate::codec::{fields_merged, keys_differ, nested_merged, number_of, of_kind, raw_of};
use crate::codec::{records_encoded, run_encoded, runs_encoded, shaped, with_entry};
use crate::codec::{Datum, Message, RECURSION_LIMIT};
use crate::error::DecodeErrorView;
use crate::fields::{entry_bytes, entry_is_shaped};
use crate::layout::{fields, tags_count_up, FieldKind, Layout};
use crate::varint::{varint_bytes, varint_reads_back};
use crate::wire::{delimited_bytes, delimited_reads_back, key_bytes, key_reads_back};
use crate::wire::{skipped, DecodeErrorKind, WireType, MAX_TAG};

verus! {

/// How many levels of messages and maps a message may hold inside.
spec fn nesting(layout: Layout) -> nat {
    match layout {
        Layout::ChaincodeSpec => 2,
        Layout::ChaincodeMessage
        | Layout::ChannelHeader
        | Layout::KeyModification
        | Layout::QueryResponse
        | Layout::ChaincodeProposalPayload
        | Layout::ChaincodeInput => 1,
        _ => 0,
    }
}

proof fn lemma_nesting(layout: Layout, i: int)
    requires
        0 <= i < fields(layout).len(),
    ensures
        match fields(layout)[i].kind {
            FieldKind::Entries => nesting(layout) >= 1,
            FieldKind::Message(inner) => nesting(layout) >= 1 + nesting(inner),
            FieldKind::Messages(inner) => nesting(layout) >= 1 + nesting(inner),
            _ => true,
        },
{
    reveal(fields);
}

/// A field that reads well is followed by the reading of what is behind it.
pub(crate) proof fn lemma_step(
    layout: Layout,
    record: Seq<Datum>,
    tag: u32,
    wire: WireType,
    value: Seq<u8>,
    rest: Seq<u8>,
    limit: nat,
    depth: nat,
    next: Seq<Datum>,
)
    requires
        1 <= tag <= 8,
        limit <= rest.len(),
        field_merged(layout, record, tag, wire, value + rest, depth) == Ok::<_, DecodeErrorView>(
            (next, rest),
        ),
    ensures
        fields_merged(layout, record, key_bytes(tag, wire) + value + rest, limit, depth)
            == fields_merged(layout, next, rest, limit, depth),
{
    let bytes = key_bytes(tag, wire) + value + rest;
    assert(bytes =~= key_bytes(tag, wire) + (value + rest));
    key_reads_back(tag, wire, value + rest);
}

/// A nested message reads back.
proof fn lemma_nested(inner: Layout, record: Seq<Datum>, rest: Seq<u8>, depth: nat)
    requires
        shaped(inner, record),
        nesting(inner) <= depth,
        encoded(inner, record).len() <= u64::MAX,
    ensures
        nested_merged(
            inner,
            blank_record(inner),
            delimited_bytes(encoded(inner, record)) + rest,
            depth,
        ) == Ok::<_, DecodeErrorView>((record, rest)),
    decreases depth, 4nat, 0nat,
{
    let content = encoded(inner, record);
    delimited_reads_back(content, rest);
    lemma_fields(inner, record, blank_record(inner), 0, rest, depth);
}

pub(crate) proof fn lemma_numbers(kind: FieldKind, number: int)
    requires
        kind is Int32 || kind is Int64 || kind is Uint64 || kind is Bool,
        of_kind(kind, Datum::Int(number)),
    ensures
        0 <= raw_of(number) <= u64::MAX,
        number_of(kind, raw_of(number)) == number,
{
}

/// A run among the bytes of a field is no longer than the field.
proof fn lemma_run_len(tag: u32, content: Seq<u8>)
    ensures
        content.len() <= run_encoded(tag, content).len(),
{
}

/// The values of a field with many values, put one after the other.
proof fn lemma_runs(
    layout: Layout,
    record: Seq<Datum>,
    i: int,
    done: Seq<Seq<u8>>,
    runs: Seq<Seq<u8>>,
    rest: Seq<u8>,
    limit: nat,
    depth: nat,
)
    requires
        0 <= i < fields(layout).len(),
        record.len() == fields(layout).len(),
        fields(layout)[i].kind is ManyBytes,
        record[i] == Datum::ManyBytes(done),
        limit <= rest.len(),
        runs_encoded(fields(layout)[i].tag, runs).len() <= u64::MAX,
    ensures
        fields_merged(
            layout,
            record,
            runs_encoded(fields(layout)[i].tag, runs) + rest,
            limit,
            depth,
        ) == fields_merged(
            layout,
            record.update(i, Datum::ManyBytes(done + runs)),
            rest,
            limit,
            depth,
        ),
    decreases runs.len(),
{
    let tag = fields(layout)[i].tag;
    tags_count_up(layout, i);
    if runs.len() == 0 {
        assert(runs_encoded(tag, runs) + rest =~= rest);
        assert(done + runs =~= done);
        assert(record.update(i, Datum::ManyBytes(done + runs)) =~= record);
    } else {
        let later = runs_encoded(tag, runs.skip(1)) + rest;
        let value = delimited_bytes(runs[0]);
        let next = record.update(i, Datum::ManyBytes(done.push(runs[0])));
        delimited_reads_back(runs[0], later);
        assert(runs_encoded(tag, runs) + rest =~= key_bytes(tag, WireType::LengthDelimited) + value
            + later);
        lemma_step(
            layout,
            record,
            tag,
            WireType::LengthDelimited,
            value,
            later,
            limit,
            depth,
            next,
        );
        lemma_runs(layout, next, i, done.push(runs[0]), runs.skip(1), rest, limit, depth);
        assert(done.push(runs[0]) + runs.skip(1) =~= done + runs);
        assert(next.update(i, Datum::ManyBytes(done + runs)) =~= record.update(
            i,
            Datum::ManyBytes(done + runs),
        ));
    }
}

/// A key that is not there yet goes to the end.
pub(crate) proof fn lemma_new_entry(
    entries: Seq<(Seq<char>, Seq<u8>)>,
    key: Seq<char>,
    value: Seq<u8>,
)
    requires
        forall|k: int| 0 <= k < entries.len() ==> (#[trigger] entries[k]).0 != key,
    ensures
        with_entry(entries, key, value) == entries.push((key, value)),
    decreases entries.len(),
{
    if entries.len() > 0 {
        lemma_new_entry(entries.skip(1), key, value);
    }
    assert(with_entry(entries, key, value) =~= entries.push((key, value)));
}

proof fn lemma_entries(
    layout: Layout,
    record: Seq<Datum>,
    i: int,
    done: Seq<(Seq<char>, Seq<u8>)>,
    entries: Seq<(Seq<char>, Seq<u8>)>,
    rest: Seq<u8>,
    limit: nat,
    depth: nat,
)
    requires
        0 <= i < fields(layout).len(),
        record.len() == fields(layout).len(),
        fields(layout)[i].kind is Entries,
        record[i] == Datum::Entries(done),
        keys_differ(done + entries),
        limit <= rest.len(),
        depth >= 1,
        entries_encoded(fields(layout)[i].tag, entries).len() <= u64::MAX,
    ensures
        fields_merged(
            layout,
            record,
            entries_encoded(fields(layout)[i].tag, entries) + rest,
            limit,
            depth,
        ) == fields_merged(
            layout,
            record.update(i, Datum::Entries(done + entries)),
            rest,
            limit,
            depth,
        ),
    decreases depth, 1nat, entries.len(),
{
    let tag = fields(layout)[i].tag;
    tags_count_up(layout, i);
    if entries.len() == 0 {
        assert(entries_encoded(tag, entries) + rest =~= rest);
        assert(done + entries =~= done);
        assert(record.update(i, Datum::Entries(done + entries)) =~= record);
    } else {
        let first = entries[0];
        let later = entries_encoded(tag, entries.skip(1)) + rest;
        let content = entry_encoded(first.0, first.1);
        let next = record.update(i, Datum::Entries(done.push(first)));
        lemma_run_len(tag, content);
        assert forall|k: int| 0 <= k < done.len() implies (#[trigger] done[k]).0 != first.0 by {
            assert((done + entries)[k] == done[k]);
            assert((done + entries)[done.len() as int] == first);
        }
        lemma_one_entry(layout, record, i, done, first, later, limit, depth);
        assert(entries_encoded(tag, entries) + rest =~= run_encoded(tag, content) + later);
        assert(done.push(first) + entries.skip(1) =~= done + entries);
        lemma_entries(layout, next, i, done.push(first), entries.skip(1), rest, limit, depth);
        assert(next.update(i, Datum::Entries(done + entries)) =~= record.update(
            i,
            Datum::Entries(done + entries),
        ));
    }
}

/// One of the entries of a map reads back.
proof fn lemma_one_entry(
    layout: Layout,
    record: Seq<Datum>,
    i: int,
    done: Seq<(Seq<char>, Seq<u8>)>,
    entry: (Seq<char>, Seq<u8>),
    rest: Seq<u8>,
    limit: nat,
    depth: nat,
)
    requires
        0 <= i < fields(layout).len(),
        record.len() == fields(layout).len(),
        fields(layout)[i].kind is Entries,
        record[i] == Datum::Entries(done),
        forall|k: int| 0 <= k < done.len() ==> (#[trigger] done[k]).0 != entry.0,
        limit <= rest.len(),
        depth >= 1,
        entry_encoded(entry.0, entry.1).len() <= u64::MAX,
    ensures
        fields_merged(
            layout,
            record,
            run_encoded(fields(layout)[i].tag, entry_encoded(entry.0, entry.1)) + rest,
            limit,
            depth,
        ) == fields_merged(
            layout,
            record.update(i, Datum::Entries(done.push(entry))),
            rest,
            limit,
            depth,
        ),
    decreases depth, 0nat, 0nat,
{
    let tag = fields(layout)[i].tag;
    let nested = entry_record(entry.0, entry.1);
    let content = entry_encoded(entry.0, entry.1);
    tags_count_up(layout, i);
    entry_bytes(entry.0, entry.1);
    entry_is_shaped(entry.0, entry.1);
    lemma_nested(Layout::Entry, nested, rest, (depth - 1) as nat);
    lemma_new_entry(done, entry.0, entry.1);
    lemma_step(
        layout,
        record,
        tag,
        WireType::LengthDelimited,
        delimited_bytes(content),
        rest,
        limit,
        depth,
        record.update(i, Datum::Entries(done.push(entry))),
    );
    assert(run_encoded(tag, content) + rest =~= key_bytes(tag, WireType::LengthDelimited)
        + delimited_bytes(content) + rest);
}

proof fn lemma_records(
    layout: Layout,
    record: Seq<Datum>,
    i: int,
    inner: Layout,
    done: Seq<Seq<Datum>>,
    list: Seq<Seq<Datum>>,
    rest: Seq<u8>,
    limit: nat,
    depth: nat,
)
    requires
        0 <= i < fields(layout).len(),
        record.len() == fields(layout).len(),
        fields(layout)[i].kind == FieldKind::Messages(inner),
        record[i] == Datum::Messages(done),
        forall|k: int| 0 <= k < list.len() ==> shaped(inner, #[trigger] list[k]),
        limit <= rest.len(),
        depth >= 1 + nesting(inner),
        records_encoded(fields(layout)[i].tag, inner, list).len() <= u64::MAX,
    ensures
        fields_merged(
            layout,
            record,
            records_encoded(fields(layout)[i].tag, inner, list) + rest,
            limit,
            depth,
        ) == fields_merged(
            layout,
            record.update(i, Datum::Messages(done + list)),
            rest,
            limit,
            depth,
        ),
    decreases depth, 1nat, list.len(),
{
    let tag = fields(layout)[i].tag;
    tags_count_up(layout, i);
    if list.len() == 0 {
        assert(records_encoded(tag, inner, list) + rest =~= rest);
        assert(done + list =~= done);
        assert(record.update(i, Datum::Messages(done + list)) =~= record);
    } else {
        let first = list[0];
        let others = list.subrange(1, list.len() as int);
        let later = records_encoded(tag, inner, others) + rest;
        let content = encoded(inner, first);
        let next = record.update(i, Datum::Messages(done.push(first)));
        lemma_run_len(tag, content);
        lemma_one_record(layout, record, i, inner, done, first, later, limit, depth);
        assert(records_encoded(tag, inner, list) + rest =~= run_encoded(tag, content) + later);
        lemma_records(layout, next, i, inner, done.push(first), others, rest, limit, depth);
        assert(done.push(first) + others =~= done + list);
        assert(next.update(i, Datum::Messages(done + list)) =~= record.update(
            i,
            Datum::Messages(done + list),
        ));
    }
}

/// One of the messages of a field with many of them reads back.
proof fn lemma_one_record(
    layout: Layout,
    record: Seq<Datum>,
    i: int,
    inner: Layout,
    done: Seq<Seq<Datum>>,
    nested: Seq<Datum>,
    rest: Seq<u8>,
    limit: nat,
    depth: nat,
)
    requires
        0 <= i < fields(layout).len(),
        record.len() == fields(layout).len(),
        fields(layout)[i].kind == FieldKind::Messages(inner),
        record[i] == Datum::Messages(done),
        shaped(inner, nested),
        limit <= rest.len(),
        depth >= 1 + nesting(inner),
        encoded(inner, nested).len() <= u64::MAX,
    ensures
        fields_merged(
            layout,
            record,
            run_encoded(fields(layout)[i].tag, encoded(inner, nested)) + rest,
            limit,
            depth,
        ) == fields_merged(
            layout,
            record.update(i, Datum::Messages(done.push(nested))),
            rest,
            limit,
            depth,
        ),
    decreases depth, 0nat, 0nat,
{
    let tag = fields(layout)[i].tag;
    let value = delimited_bytes(encoded(inner, nested));
    tags_count_up(layout, i);
    lemma_nested(inner, nested, rest, (depth - 1) as nat);
    lemma_step(
        layout,
        record,
        tag,
        WireType::LengthDelimited,
        value,
        rest,
        limit,
        depth,
        record.update(i, Datum::Messages(done.push(nested))),
    );
    assert(run_encoded(tag, encoded(inner, nested)) + rest =~= key_bytes(
        tag,
        WireType::LengthDelimited,
    ) + value + rest);
}

/// A field reads back into a record in which it was blank.
proof fn lemma_field(
    layout: Layout,
    record: Seq<Datum>,
    i: int,
    datum: Datum,
    rest: Seq<u8>,
    limit: nat,
    depth: nat,
)
    requires
        0 <= i < fields(layout).len(),
        record.len() == fields(layout).len(),
        record[i] == blank_datum(fields(layout)[i].kind),
        of_kind(fields(layout)[i].kind, datum),
        limit <= rest.len(),
        nesting(layout) <= depth,
        field_encoded(fields(layout)[i], datum).len() <= u64::MAX,
    ensures
        fields_merged(
            layout,
            record,
            field_encoded(fields(layout)[i], datum) + rest,
            limit,
            depth,
        ) == fields_merged(layout, record.update(i, datum), rest, limit, depth),
    decreases depth, 2nat, 0nat,
{
    let field = fields(layout)[i];
    let tag = field.tag;
    let bytes = field_encoded(field, datum);
    let next = record.update(i, datum);
    tags_count_up(layout, i);
    lemma_nesting(layout, i);
    match datum {
        Datum::Int(number) => {
            if number == 0 {
                assert(bytes + rest =~= rest);
                assert(next =~= record);
            } else {
                lemma_numbers(field.kind, number);
                let value = varint_bytes(raw_of(number));
                varint_reads_back(raw_of(number) as u64, rest);
                lemma_step(layout, record, tag, WireType::Varint, value, rest, limit, depth, next);
            }
        },
        Datum::Text(text) => {
            if text.len() == 0 {
                assert(bytes + rest =~= rest);
                assert(text =~= Seq::<char>::empty());
                assert(next =~= record);
            } else {
                let content = encode_utf8(text);
                encode_utf8_valid_utf8(text);
                encode_utf8_decode_utf8(text);
                lemma_run_len(tag, content);
                lemma_one_run(layout, record, i, content, rest, limit, depth, datum);
            }
        },
        Datum::Bytes(content) => {
            if content.len() == 0 {
                assert(bytes + rest =~= rest);
                assert(content =~= Seq::<u8>::empty());
                assert(next =~= record);
            } else {
                lemma_run_len(tag, content);
                lemma_one_run(layout, record, i, content, rest, limit, depth, datum);
            }
        },
        Datum::ManyBytes(runs) => {
            lemma_runs(layout, record, i, seq![], runs, rest, limit, depth);
            assert(Seq::<Seq<u8>>::empty() + runs =~= runs);
        },
        Datum::Entries(entries) => {
            assert(Seq::<(Seq<char>, Seq<u8>)>::empty() + entries =~= entries);
            lemma_entries(layout, record, i, seq![], entries, rest, limit, depth);
        },
        Datum::Message(None) => {
            assert(bytes + rest =~= rest);
            assert(next =~= record);
        },
        Datum::Message(Some(nested)) => {
            let inner = field.kind->Message_0;
            let content = encoded(inner, nested);
            lemma_run_len(tag, content);
            lemma_nested(inner, nested, rest, (depth - 1) as nat);
            lemma_step(
                layout,
                record,
                tag,
                WireType::LengthDelimited,
                delimited_bytes(content),
                rest,
                limit,
                depth,
                next,
            );
            assert(bytes + rest =~= key_bytes(tag, WireType::LengthDelimited) + delimited_bytes(
                content,
            ) + rest);
        },
        Datum::Messages(list) => {
            assert(Seq::<Seq<Datum>>::empty() + list =~= list);
            lemma_records(
                layout,
                record,
                i,
                field.kind->Messages_0,
                seq![],
                list,
                rest,
                limit,
                depth,
            );
        },
    }
}

/// A field of text or bytes reads back.
pub(crate) proof fn lemma_one_run(
    layout: Layout,
    record: Seq<Datum>,
    i: int,
    content: Seq<u8>,
    rest: Seq<u8>,
    limit: nat,
    depth: nat,
    datum: Datum,
)
    requires
        0 <= i < fields(layout).len(),
        record.len() == fields(layout).len(),
        limit <= rest.len(),
        content.len() <= u64::MAX,
        match fields(layout)[i].kind {
            FieldKind::Bytes => datum == Datum::Bytes(content),
            FieldKind::Text => vstd::utf8::valid_utf8(content) && datum == Datum::Text(
                vstd::utf8::decode_utf8(content),
            ),
            _ => false,
        },
    ensures
        fields_merged(
            layout,
            record,
            run_encoded(fields(layout)[i].tag, content) + rest,
            limit,
            depth,
        ) == fields_merged(layout, record.update(i, datum), rest, limit, depth),
{
    let tag = fields(layout)[i].tag;
    tags_count_up(layout, i);
    delimited_reads_back(content, rest);
    lemma_step(
        layout,
        record,
        tag,
        WireType::LengthDelimited,
        delimited_bytes(content),
        rest,
        limit,
        depth,
        record.update(i, datum),
    );
    assert(run_encoded(tag, content) + rest =~= key_bytes(tag, WireType::LengthDelimited)
        + delimited_bytes(content) + rest);
}

/// The fields from the given one on read back, where those before it are there.
proof fn lemma_fields(
    layout: Layout,
    record: Seq<Datum>,
    current: Seq<Datum>,
    from: nat,
    rest: Seq<u8>,
    depth: nat,
)
    requires
        shaped(layout, record),
        current.len() == record.len(),
        from <= record.len(),
        forall|k: int| 0 <= k < from ==> #[trigger] current[k] == record[k],
        forall|k: int|
            from <= k < record.len() ==> #[trigger] current[k] == blank_datum(
                fields(layout)[k].kind,
            ),
        nesting(layout) <= depth,
        encoded_from(layout, record, from).len() <= u64::MAX,
    ensures
        fields_merged(
            layout,
            current,
            encoded_from(layout, record, from) + rest,
            rest.len(),
            depth,
        ) == Ok::<_, DecodeErrorView>((record, rest)),
    decreases depth, 3nat, (record.len() - from) as nat,
{
    if from == record.len() {
        assert(current =~= record);
        assert(encoded_from(layout, record, from) + rest =~= rest);
    } else {
        let i = from as int;
        let later = encoded_from(layout, record, from + 1) + rest;
        let next = current.update(i, record[i]);
        assert(encoded_from(layout, record, from) + rest =~= field_encoded(
            fields(layout)[i],
            record[i],
        ) + later);
        lemma_field(layout, current, i, record[i], later, rest.len(), depth);
        lemma_fields(layout, record, next, from + 1, rest, depth);
    }
}

/// The bytes of a record stand for that record, as long as their number fits into
/// 64 bits.
pub proof fn record_reads_back(layout: Layout, record: Seq<Datum>)
    requires
        shaped(layout, record),
        encoded(layout, record).len() <= u64::MAX,
    ensures
        decoded(layout, encoded(layout, record)) == Ok::<_, DecodeErrorView>(record),
{
    let bytes = encoded(layout, record);
    lemma_fields(layout, record, blank_record(layout), 0, seq![], RECURSION_LIMIT as nat);
    assert(bytes + Seq::<u8>::empty() =~= bytes);
}

/// Decoding inverts encoding: the bytes of a message stand for that message, as
/// long as their number fits into 64 bits.
pub proof fn decode_inverts_encode<M: Message>(message: M)
    requires
        message.well_formed(),
        encoded(M::layout(), message.record()).len() <= u64::MAX,
    ensures
        decoded(M::layout(), encoded(M::layout(), message.record())) == Ok::<_, DecodeErrorView>(
            message.record(),
        ),
{
    message.record_is_shaped();
    record_reads_back(M::layout(), message.record());
}

/// A field that a message does not have is passed over, whatever it holds: what
/// follows it means the same as without it.
pub proof fn unknown_fields_are_passed_over(
    layout: Layout,
    record: Seq<Datum>,
    tag: u32,
    wire: WireType,
    value: Seq<u8>,
    rest: Seq<u8>,
    limit: nat,
    depth: nat,
)
    requires
        fields(layout).len() < tag <= MAX_TAG,
        skipped(wire, tag, value + rest, depth) == Ok::<_, DecodeErrorKind>(rest),
        limit <= rest.len(),
    ensures
        fields_merged(layout, record, key_bytes(tag, wire) + value + rest, limit, depth)
            == fields_merged(layout, record, rest, limit, depth),
{
    assert(key_bytes(tag, wire) + value + rest =~= key_bytes(tag, wire) + (value + rest));
    key_reads_back(tag, wire, value + rest);
    assert(field_merged(layout, record, tag, wire, value + rest, depth) == Ok::<
        _,
        DecodeErrorView,
    >((record, rest)));
}

} // verus!
