//! The forms that values take among the bytes of a message, each behind the byte
//! that tells its tag and how it is laid out.

use vstd::prelude::*;
use vstd::utf8::{encode_utf8, encode_utf8_decode_utf8, encode_utf8_valid_utf8};

use crate::codec::{blank_record, encoded, encoded_from, entries_encoded};
use crate::codec::{entry_encoded, field_encoded, fields_merged, keys_differ, of_kind};
use crate::codec::{raw_of, records_encoded, run_encoded, runs_encoded};
use crate::codec::{nested_merged, Datum, Message};
use crate::codec_laws::{lemma_new_entry, lemma_numbers, lemma_one_run, lemma_step};
use crate::error::DecodeErrorView;
use crate::fields::{optional_record, records};
use crate::layout::{fields, tags_count_up, Field, FieldKind, Layout};
use crate::proto::QueryResultBytes;
use crate::varint::{varint_bytes, varint_reads_back};
use crate::wire::{delimited_bytes, delimited_reads_back, key_bytes, WireType};

verus! {

// ---- numbers ---------------------------------------------------------------
/// The number that bytes stand for, seven bits to a byte and the low ones first.
pub open spec fn base_128(bytes: Seq<u8>) -> nat
    decreases bytes.len(),
{
    if bytes.len() == 0 {
        0
    } else {
        (bytes[0] % 128) as nat + 128 * base_128(bytes.skip(1))
    }
}

/// A varint counts in base 128, says of every byte whether another one follows, and
/// has no byte more than it needs.
pub proof fn varints_count_in_base_128(value: nat)
    ensures
        base_128(varint_bytes(value)) == value,
        varint_bytes(value).len() >= 1,
        forall|i: int|
            0 <= i < varint_bytes(value).len() ==> ((#[trigger] varint_bytes(value)[i]) >= 128
                <==> i + 1 < varint_bytes(value).len()),
        varint_bytes(value).len() > 1 ==> varint_bytes(value).last() != 0,
    decreases value,
{
    let bytes = varint_bytes(value);
    if value < 128 {
        assert(bytes.skip(1) =~= Seq::<u8>::empty());
        assert(base_128(bytes.skip(1)) == 0);
    } else {
        let later = varint_bytes(value / 128);
        varints_count_in_base_128(value / 128);
        assert(bytes.skip(1) =~= later);
        assert forall|i: int| 0 <= i < bytes.len() implies ((#[trigger] bytes[i]) >= 128 <==> i + 1
            < bytes.len()) by {
            if i > 0 {
                assert(bytes[i] == later[i - 1]);
            }
        }
        assert(bytes.last() == later.last());
        if later.len() == 1 {
            assert(base_128(later.skip(1)) == 0);
        }
    }
}

// ---- forms -----------------------------------------------------------------
/// A run of bytes under a tag: the tag with the mark of a run, the length, and the
/// bytes.
pub open spec fn run(tag: int, content: Seq<u8>) -> Seq<u8> {
    seq![(8 * tag + 2) as u8] + varint_bytes(content.len()) + content
}

/// A number under a tag: the tag, and the number; a negative one in two's
/// complement of 64 bits.
pub open spec fn number(tag: int, value: int) -> Seq<u8> {
    seq![(8 * tag) as u8] + varint_bytes(
        if value < 0 {
            (value + 0x1_0000_0000_0000_0000) as nat
        } else {
            value as nat
        },
    )
}

/// Runs of bytes under the same tag, one after the other.
pub open spec fn runs(tag: int, list: Seq<Seq<u8>>) -> Seq<u8>
    decreases list.len(),
{
    if list.len() == 0 {
        seq![]
    } else {
        run(tag, list[0]) + runs(tag, list.skip(1))
    }
}

/// A run under a tag, unless it is empty.
pub open spec fn set_run(tag: int, content: Seq<u8>) -> Seq<u8> {
    if content.len() == 0 {
        seq![]
    } else {
        run(tag, content)
    }
}

/// A number under a tag, unless it is zero.
pub open spec fn set_number(tag: int, value: int) -> Seq<u8> {
    if value == 0 {
        seq![]
    } else {
        number(tag, value)
    }
}

/// The bytes that a message is written as.
pub open spec fn written<M: Message>(message: M) -> Seq<u8> {
    encoded(M::layout(), message.record())
}

/// A message under a tag, where there is one.
pub open spec fn set_message<M: Message>(tag: int, message: Option<M>) -> Seq<u8> {
    match message {
        None => seq![],
        Some(m) => run(tag, written(m)),
    }
}

/// The entries of a map: the key under the first tag, the value under the second.
pub open spec fn entry_runs(entries: Seq<(Seq<char>, Seq<u8>)>) -> Seq<Seq<u8>> {
    Seq::new(entries.len(), |i: int| run(1, encode_utf8(entries[i].0)) + run(2, entries[i].1))
}

/// The entries of a map as they are written.
pub open spec fn set_entry_runs(entries: Seq<(Seq<char>, Seq<u8>)>) -> Seq<Seq<u8>> {
    Seq::new(
        entries.len(),
        |i: int| set_run(1, encode_utf8(entries[i].0)) + set_run(2, entries[i].1),
    )
}

/// The results of a query: the bytes of each under the first tag.
pub open spec fn result_runs(results: Seq<Seq<u8>>) -> Seq<Seq<u8>> {
    Seq::new(results.len(), |i: int| run(1, results[i]))
}

/// The results of a query as they are written.
pub open spec fn set_result_runs(results: Seq<QueryResultBytes>) -> Seq<Seq<u8>> {
    Seq::new(results.len(), |i: int| set_run(1, results[i].result_bytes@))
}

/// The number that stands for a truth value.
pub open spec fn truth(value: bool) -> int {
    if value {
        1
    } else {
        0
    }
}

/// Whether the length of each run fits into 64 bits.
pub open spec fn fits(list: Seq<Seq<u8>>) -> bool {
    forall|i: int| 0 <= i < list.len() ==> (#[trigger] list[i]).len() <= u64::MAX
}

/// Whether the lengths of the keys and values fit into 64 bits.
pub open spec fn entries_fit(entries: Seq<(Seq<char>, Seq<u8>)>) -> bool {
    forall|i: int|
        0 <= i < entries.len() ==> encode_utf8((#[trigger] entries[i]).0).len() <= u64::MAX
            && entries[i].1.len() <= u64::MAX
}

/// The records of the results of a query.
pub open spec fn result_records(results: Seq<Seq<u8>>) -> Seq<Seq<Datum>> {
    Seq::new(results.len(), |i: int| seq![Datum::Bytes(results[i])])
}

// ---- reading ---------------------------------------------------------------
proof fn lemma_run_form(tag: u32, content: Seq<u8>)
    requires
        1 <= tag <= 8,
    ensures
        run_encoded(tag, content) == run(tag as int, content),
{
    assert(run_encoded(tag, content) =~= run(tag as int, content));
}

/// A run of bytes is taken for the value of its field, whatever that was before.
pub proof fn step_bytes(
    layout: Layout,
    record: Seq<Datum>,
    tag: int,
    content: Seq<u8>,
    rest: Seq<u8>,
    limit: nat,
    depth: nat,
)
    requires
        1 <= tag <= fields(layout).len(),
        record.len() == fields(layout).len(),
        fields(layout)[tag - 1].kind == FieldKind::Bytes,
        limit <= rest.len(),
        content.len() <= u64::MAX,
    ensures
        fields_merged(layout, record, run(tag, content) + rest, limit, depth) == fields_merged(
            layout,
            record.update(tag - 1, Datum::Bytes(content)),
            rest,
            limit,
            depth,
        ),
{
    tags_count_up(layout, tag - 1);
    lemma_run_form(tag as u32, content);
    lemma_one_run(layout, record, tag - 1, content, rest, limit, depth, Datum::Bytes(content));
}

/// A text is taken for the value of its field, whatever that was before.
pub proof fn step_text(
    layout: Layout,
    record: Seq<Datum>,
    tag: int,
    text: Seq<char>,
    rest: Seq<u8>,
    limit: nat,
    depth: nat,
)
    requires
        1 <= tag <= fields(layout).len(),
        record.len() == fields(layout).len(),
        fields(layout)[tag - 1].kind == FieldKind::Text,
        limit <= rest.len(),
        encode_utf8(text).len() <= u64::MAX,
    ensures
        fields_merged(layout, record, run(tag, encode_utf8(text)) + rest, limit, depth)
            == fields_merged(
            layout,
            record.update(tag - 1, Datum::Text(text)),
            rest,
            limit,
            depth,
        ),
{
    tags_count_up(layout, tag - 1);
    lemma_run_form(tag as u32, encode_utf8(text));
    encode_utf8_valid_utf8(text);
    encode_utf8_decode_utf8(text);
    lemma_one_run(
        layout,
        record,
        tag - 1,
        encode_utf8(text),
        rest,
        limit,
        depth,
        Datum::Text(text),
    );
}

/// A number is taken for the value of its field, whatever that was before.
pub proof fn step_number(
    layout: Layout,
    record: Seq<Datum>,
    tag: int,
    value: int,
    rest: Seq<u8>,
    limit: nat,
    depth: nat,
)
    requires
        1 <= tag <= fields(layout).len(),
        record.len() == fields(layout).len(),
        fields(layout)[tag - 1].kind is Int32 || fields(layout)[tag - 1].kind is Int64
            || fields(layout)[tag - 1].kind is Uint64 || fields(layout)[tag - 1].kind is Bool,
        of_kind(fields(layout)[tag - 1].kind, Datum::Int(value)),
        limit <= rest.len(),
    ensures
        fields_merged(layout, record, number(tag, value) + rest, limit, depth) == fields_merged(
            layout,
            record.update(tag - 1, Datum::Int(value)),
            rest,
            limit,
            depth,
        ),
{
    let kind = fields(layout)[tag - 1].kind;
    tags_count_up(layout, tag - 1);
    lemma_numbers(kind, value);
    varint_reads_back(raw_of(value) as u64, rest);
    let bytes = varint_bytes(raw_of(value));
    lemma_step(
        layout,
        record,
        tag as u32,
        WireType::Varint,
        bytes,
        rest,
        limit,
        depth,
        record.update(tag - 1, Datum::Int(value)),
    );
    assert(number(tag, value) =~= key_bytes(tag as u32, WireType::Varint) + bytes);
}

/// Runs of bytes under the same tag are all values of the field, in their order.
pub proof fn step_runs(
    layout: Layout,
    record: Seq<Datum>,
    tag: int,
    list: Seq<Seq<u8>>,
    rest: Seq<u8>,
    limit: nat,
    depth: nat,
)
    requires
        1 <= tag <= fields(layout).len(),
        record.len() == fields(layout).len(),
        fields(layout)[tag - 1].kind == FieldKind::ManyBytes,
        record[tag - 1] == Datum::ManyBytes(seq![]),
        limit <= rest.len(),
        fits(list),
    ensures
        fields_merged(layout, record, runs(tag, list) + rest, limit, depth) == fields_merged(
            layout,
            record.update(tag - 1, Datum::ManyBytes(list)),
            rest,
            limit,
            depth,
        ),
{
    lemma_more_runs(layout, record, tag, seq![], list, rest, limit, depth);
    assert(Seq::<Seq<u8>>::empty() + list =~= list);
}

proof fn lemma_more_runs(
    layout: Layout,
    record: Seq<Datum>,
    tag: int,
    done: Seq<Seq<u8>>,
    list: Seq<Seq<u8>>,
    rest: Seq<u8>,
    limit: nat,
    depth: nat,
)
    requires
        1 <= tag <= fields(layout).len(),
        record.len() == fields(layout).len(),
        fields(layout)[tag - 1].kind == FieldKind::ManyBytes,
        record[tag - 1] == Datum::ManyBytes(done),
        limit <= rest.len(),
        fits(list),
    ensures
        fields_merged(layout, record, runs(tag, list) + rest, limit, depth) == fields_merged(
            layout,
            record.update(tag - 1, Datum::ManyBytes(done + list)),
            rest,
            limit,
            depth,
        ),
    decreases list.len(),
{
    if list.len() == 0 {
        assert(runs(tag, list) + rest =~= rest);
        assert(done + list =~= done);
        assert(record.update(tag - 1, Datum::ManyBytes(done + list)) =~= record);
    } else {
        let first = list[0];
        let others = list.skip(1);
        let later = runs(tag, others) + rest;
        let next = record.update(tag - 1, Datum::ManyBytes(done.push(first)));
        tags_count_up(layout, tag - 1);
        lemma_run_form(tag as u32, first);
        delimited_reads_back(first, later);
        assert(runs(tag, list) + rest =~= run(tag, first) + later);
        assert(run(tag, first) =~= key_bytes(tag as u32, WireType::LengthDelimited)
            + delimited_bytes(first));
        lemma_step(
            layout,
            record,
            tag as u32,
            WireType::LengthDelimited,
            delimited_bytes(first),
            later,
            limit,
            depth,
            next,
        );
        assert forall|i: int| 0 <= i < others.len() implies (#[trigger] others[i]).len()
            <= u64::MAX by {
            assert(others[i] == list[i + 1]);
        }
        lemma_more_runs(layout, next, tag, done.push(first), others, rest, limit, depth);
        assert(done.push(first) + others =~= done + list);
        assert(next.update(tag - 1, Datum::ManyBytes(done + list)) =~= record.update(
            tag - 1,
            Datum::ManyBytes(done + list),
        ));
    }
}

proof fn lemma_nested_run(
    inner: Layout,
    content: Seq<u8>,
    nested: Seq<Datum>,
    rest: Seq<u8>,
    depth: nat,
)
    requires
        content.len() <= u64::MAX,
        fields_merged(inner, blank_record(inner), content + rest, rest.len(), depth) == Ok::<
            _,
            DecodeErrorView,
        >((nested, rest)),
    ensures
        nested_merged(inner, blank_record(inner), delimited_bytes(content) + rest, depth) == Ok::<
            _,
            DecodeErrorView,
        >((nested, rest)),
{
    delimited_reads_back(content, rest);
}

/// A message under a tag is taken for the value of a field that had none.
pub proof fn step_message(
    layout: Layout,
    record: Seq<Datum>,
    tag: int,
    inner: Layout,
    content: Seq<u8>,
    nested: Seq<Datum>,
    rest: Seq<u8>,
    limit: nat,
    depth: nat,
)
    requires
        1 <= tag <= fields(layout).len(),
        record.len() == fields(layout).len(),
        fields(layout)[tag - 1].kind == FieldKind::Message(inner),
        record[tag - 1] == Datum::Message(None),
        limit <= rest.len(),
        content.len() <= u64::MAX,
        depth >= 1,
        fields_merged(inner, blank_record(inner), content + rest, rest.len(), (depth - 1) as nat)
            == Ok::<_, DecodeErrorView>((nested, rest)),
    ensures
        fields_merged(layout, record, run(tag, content) + rest, limit, depth) == fields_merged(
            layout,
            record.update(tag - 1, Datum::Message(Some(nested))),
            rest,
            limit,
            depth,
        ),
{
    tags_count_up(layout, tag - 1);
    lemma_run_form(tag as u32, content);
    lemma_nested_run(inner, content, nested, rest, (depth - 1) as nat);
    lemma_step(
        layout,
        record,
        tag as u32,
        WireType::LengthDelimited,
        delimited_bytes(content),
        rest,
        limit,
        depth,
        record.update(tag - 1, Datum::Message(Some(nested))),
    );
    assert(run(tag, content) =~= key_bytes(tag as u32, WireType::LengthDelimited)
        + delimited_bytes(content));
}

proof fn lemma_entry_content(key: Seq<char>, value: Seq<u8>, rest: Seq<u8>, depth: nat)
    requires
        encode_utf8(key).len() <= u64::MAX,
        value.len() <= u64::MAX,
    ensures
        fields_merged(
            Layout::Entry,
            blank_record(Layout::Entry),
            (run(1, encode_utf8(key)) + run(2, value)) + rest,
            rest.len(),
            depth,
        ) == Ok::<_, DecodeErrorView>((seq![Datum::Text(key), Datum::Bytes(value)], rest)),
{
    reveal(fields);
    let l = Layout::Entry;
    let r0 = blank_record(l);
    let t1 = run(2, value) + rest;
    assert((run(1, encode_utf8(key)) + run(2, value)) + rest =~= run(1, encode_utf8(key)) + t1);
    step_text(l, r0, 1, key, t1, rest.len(), depth);
    let r1 = r0.update(0, Datum::Text(key));
    step_bytes(l, r1, 2, value, rest, rest.len(), depth);
    assert(r1.update(1, Datum::Bytes(value)) =~= seq![Datum::Text(key), Datum::Bytes(value)]);
}

/// Entries under the same tag are all entries of the map.
pub proof fn step_entries(
    layout: Layout,
    record: Seq<Datum>,
    tag: int,
    entries: Seq<(Seq<char>, Seq<u8>)>,
    rest: Seq<u8>,
    limit: nat,
    depth: nat,
)
    requires
        1 <= tag <= fields(layout).len(),
        record.len() == fields(layout).len(),
        fields(layout)[tag - 1].kind == FieldKind::Entries,
        record[tag - 1] == Datum::Entries(seq![]),
        limit <= rest.len(),
        depth >= 1,
        keys_differ(entries),
        entries_fit(entries),
        fits(entry_runs(entries)),
    ensures
        fields_merged(layout, record, runs(tag, entry_runs(entries)) + rest, limit, depth)
            == fields_merged(
            layout,
            record.update(tag - 1, Datum::Entries(entries)),
            rest,
            limit,
            depth,
        ),
{
    assert(entries.take(0) =~= Seq::<(Seq<char>, Seq<u8>)>::empty());
    lemma_more_entries(layout, record, tag, 0, entries, rest, limit, depth);
    assert(entry_runs(entries).skip(0) =~= entry_runs(entries));
}

proof fn lemma_next_entry(
    layout: Layout,
    record: Seq<Datum>,
    tag: int,
    from: int,
    entries: Seq<(Seq<char>, Seq<u8>)>,
    later: Seq<u8>,
    limit: nat,
    depth: nat,
)
    requires
        1 <= tag <= fields(layout).len(),
        record.len() == fields(layout).len(),
        fields(layout)[tag - 1].kind == FieldKind::Entries,
        0 <= from < entries.len(),
        record[tag - 1] == Datum::Entries(entries.take(from)),
        limit <= later.len(),
        depth >= 1,
        keys_differ(entries),
        entries_fit(entries),
        fits(entry_runs(entries)),
    ensures
        fields_merged(layout, record, run(tag, entry_runs(entries)[from]) + later, limit, depth)
            == fields_merged(
            layout,
            record.update(tag - 1, Datum::Entries(entries.take(from + 1))),
            later,
            limit,
            depth,
        ),
{
    let key = entries[from].0;
    let value = entries[from].1;
    let content = run(1, encode_utf8(key)) + run(2, value);
    let done = entries.take(from);
    let next = record.update(tag - 1, Datum::Entries(entries.take(from + 1)));
    assert(entry_runs(entries)[from] == content);
    tags_count_up(layout, tag - 1);
    lemma_entry_content(key, value, later, (depth - 1) as nat);
    lemma_nested_run(
        Layout::Entry,
        content,
        seq![Datum::Text(key), Datum::Bytes(value)],
        later,
        (depth - 1) as nat,
    );
    assert forall|k: int| 0 <= k < done.len() implies (#[trigger] done[k]).0 != key by {
        assert(entries[k].0 != entries[from].0);
    }
    lemma_new_entry(done, key, value);
    assert(done.push((key, value)) =~= entries.take(from + 1));
    lemma_step(
        layout,
        record,
        tag as u32,
        WireType::LengthDelimited,
        delimited_bytes(content),
        later,
        limit,
        depth,
        next,
    );
    assert(run(tag, content) =~= key_bytes(tag as u32, WireType::LengthDelimited)
        + delimited_bytes(content));
}

proof fn lemma_more_entries(
    layout: Layout,
    record: Seq<Datum>,
    tag: int,
    from: int,
    entries: Seq<(Seq<char>, Seq<u8>)>,
    rest: Seq<u8>,
    limit: nat,
    depth: nat,
)
    requires
        1 <= tag <= fields(layout).len(),
        record.len() == fields(layout).len(),
        fields(layout)[tag - 1].kind == FieldKind::Entries,
        0 <= from <= entries.len(),
        record[tag - 1] == Datum::Entries(entries.take(from)),
        limit <= rest.len(),
        depth >= 1,
        keys_differ(entries),
        entries_fit(entries),
        fits(entry_runs(entries)),
    ensures
        fields_merged(
            layout,
            record,
            runs(tag, entry_runs(entries).skip(from)) + rest,
            limit,
            depth,
        ) == fields_merged(
            layout,
            record.update(tag - 1, Datum::Entries(entries)),
            rest,
            limit,
            depth,
        ),
    decreases entries.len() - from,
{
    let all = entry_runs(entries);
    if from == entries.len() {
        assert(entries.take(from) =~= entries);
        assert(runs(tag, all.skip(from)) + rest =~= rest);
        assert(record.update(tag - 1, Datum::Entries(entries)) =~= record);
    } else {
        let later = runs(tag, all.skip(from + 1)) + rest;
        let next = record.update(tag - 1, Datum::Entries(entries.take(from + 1)));
        lemma_next_entry(layout, record, tag, from, entries, later, limit, depth);
        assert(all.skip(from).skip(1) =~= all.skip(from + 1));
        assert(runs(tag, all.skip(from)) + rest =~= run(tag, all[from]) + later);
        lemma_more_entries(layout, next, tag, from + 1, entries, rest, limit, depth);
        assert(next.update(tag - 1, Datum::Entries(entries)) =~= record.update(
            tag - 1,
            Datum::Entries(entries),
        ));
    }
}

/// Results under the same tag are all results of the query, in their order.
pub proof fn step_results(
    layout: Layout,
    record: Seq<Datum>,
    tag: int,
    results: Seq<Seq<u8>>,
    rest: Seq<u8>,
    limit: nat,
    depth: nat,
)
    requires
        1 <= tag <= fields(layout).len(),
        record.len() == fields(layout).len(),
        fields(layout)[tag - 1].kind == FieldKind::Messages(Layout::QueryResultBytes),
        record[tag - 1] == Datum::Messages(seq![]),
        limit <= rest.len(),
        depth >= 1,
        fits(results),
        fits(result_runs(results)),
    ensures
        fields_merged(layout, record, runs(tag, result_runs(results)) + rest, limit, depth)
            == fields_merged(
            layout,
            record.update(tag - 1, Datum::Messages(result_records(results))),
            rest,
            limit,
            depth,
        ),
{
    assert(result_records(results).take(0) =~= Seq::<Seq<Datum>>::empty());
    lemma_more_results(layout, record, tag, 0, results, rest, limit, depth);
    assert(result_runs(results).skip(0) =~= result_runs(results));
}

proof fn lemma_next_result(
    layout: Layout,
    record: Seq<Datum>,
    tag: int,
    from: int,
    results: Seq<Seq<u8>>,
    later: Seq<u8>,
    limit: nat,
    depth: nat,
)
    requires
        1 <= tag <= fields(layout).len(),
        record.len() == fields(layout).len(),
        fields(layout)[tag - 1].kind == FieldKind::Messages(Layout::QueryResultBytes),
        0 <= from < results.len(),
        record[tag - 1] == Datum::Messages(result_records(results).take(from)),
        limit <= later.len(),
        depth >= 1,
        results[from].len() <= u64::MAX,
        run(1, results[from]).len() <= u64::MAX,
    ensures
        fields_merged(layout, record, run(tag, run(1, results[from])) + later, limit, depth)
            == fields_merged(
            layout,
            record.update(tag - 1, Datum::Messages(result_records(results).take(from + 1))),
            later,
            limit,
            depth,
        ),
{
    let inner = Layout::QueryResultBytes;
    let content = run(1, results[from]);
    let list = result_records(results);
    let nested = seq![Datum::Bytes(results[from])];
    let next = record.update(tag - 1, Datum::Messages(list.take(from + 1)));
    let blank = blank_record(inner);
    tags_count_up(layout, tag - 1);
    assert(fields(inner).len() == 1 && fields(inner)[0].kind == FieldKind::Bytes) by {
        reveal(fields);
    }
    step_bytes(inner, blank, 1, results[from], later, later.len(), (depth - 1) as nat);
    assert(blank.update(0, Datum::Bytes(results[from])) =~= nested);
    lemma_nested_run(inner, content, nested, later, (depth - 1) as nat);
    assert(list[from] == nested);
    assert(list.take(from).push(nested) =~= list.take(from + 1));
    lemma_step(
        layout,
        record,
        tag as u32,
        WireType::LengthDelimited,
        delimited_bytes(content),
        later,
        limit,
        depth,
        next,
    );
    assert(run(tag, content) =~= key_bytes(tag as u32, WireType::LengthDelimited)
        + delimited_bytes(content));
}

proof fn lemma_more_results(
    layout: Layout,
    record: Seq<Datum>,
    tag: int,
    from: int,
    results: Seq<Seq<u8>>,
    rest: Seq<u8>,
    limit: nat,
    depth: nat,
)
    requires
        1 <= tag <= fields(layout).len(),
        record.len() == fields(layout).len(),
        fields(layout)[tag - 1].kind == FieldKind::Messages(Layout::QueryResultBytes),
        0 <= from <= results.len(),
        record[tag - 1] == Datum::Messages(result_records(results).take(from)),
        limit <= rest.len(),
        depth >= 1,
        fits(results),
        fits(result_runs(results)),
    ensures
        fields_merged(
            layout,
            record,
            runs(tag, result_runs(results).skip(from)) + rest,
            limit,
            depth,
        ) == fields_merged(
            layout,
            record.update(tag - 1, Datum::Messages(result_records(results))),
            rest,
            limit,
            depth,
        ),
    decreases results.len() - from,
{
    let all = result_runs(results);
    let list = result_records(results);
    if from == results.len() {
        assert(list.take(from) =~= list);
        assert(runs(tag, all.skip(from)) + rest =~= rest);
        assert(record.update(tag - 1, Datum::Messages(list)) =~= record);
    } else {
        let later = runs(tag, all.skip(from + 1)) + rest;
        let next = record.update(tag - 1, Datum::Messages(list.take(from + 1)));
        assert(results[from].len() <= u64::MAX);
        assert(all[from].len() <= u64::MAX);
        lemma_next_result(layout, record, tag, from, results, later, limit, depth);
        assert(all.skip(from).skip(1) =~= all.skip(from + 1));
        assert(runs(tag, all.skip(from)) + rest =~= run(tag, all[from]) + later);
        lemma_more_results(layout, next, tag, from + 1, results, rest, limit, depth);
        assert(next.update(tag - 1, Datum::Messages(list)) =~= record.update(
            tag - 1,
            Datum::Messages(list),
        ));
    }
}

pub(crate) proof fn lemma_same_results(given: Seq<QueryResultBytes>, results: Seq<Seq<u8>>)
    requires
        records(given) == result_records(results),
    ensures
        given.len() == results.len(),
        forall|i: int| 0 <= i < given.len() ==> (#[trigger] given[i]).result_bytes@ == results[i],
{
    assert(records(given).len() == given.len());
    assert(result_records(results).len() == results.len());
    assert forall|i: int| 0 <= i < given.len() implies (#[trigger] given[i]).result_bytes@
        == results[i] by {
        assert(records(given)[i] == given[i].record());
        assert(result_records(results)[i] == seq![Datum::Bytes(results[i])]);
        assert(given[i].record()[0] == Datum::Bytes(results[i]));
    }
}

// ---- writing ---------------------------------------------------------------
pub(crate) proof fn write_number(field: Field, value: int)
    requires
        1 <= field.tag <= 8,
    ensures
        field_encoded(field, Datum::Int(value)) == set_number(field.tag as int, value),
{
    assert(field_encoded(field, Datum::Int(value)) =~= set_number(field.tag as int, value));
}

pub(crate) proof fn write_bytes(field: Field, content: Seq<u8>)
    requires
        1 <= field.tag <= 8,
    ensures
        field_encoded(field, Datum::Bytes(content)) == set_run(field.tag as int, content),
{
    lemma_run_form(field.tag, content);
}

proof fn lemma_text_is_blank(text: Seq<char>)
    ensures
        encode_utf8(text).len() == 0 <==> text.len() == 0,
{
    if text.len() > 0 {
        vstd::utf8::char_is_scalar(text[0]);
    }
}

pub(crate) proof fn write_text(field: Field, text: Seq<char>)
    requires
        1 <= field.tag <= 8,
    ensures
        field_encoded(field, Datum::Text(text)) == set_run(field.tag as int, encode_utf8(text)),
{
    lemma_text_is_blank(text);
    lemma_run_form(field.tag, encode_utf8(text));
}

proof fn lemma_runs_form(tag: u32, list: Seq<Seq<u8>>)
    requires
        1 <= tag <= 8,
    ensures
        runs_encoded(tag, list) == runs(tag as int, list),
    decreases list.len(),
{
    if list.len() > 0 {
        lemma_run_form(tag, list[0]);
        lemma_runs_form(tag, list.skip(1));
    }
}

pub(crate) proof fn write_runs(field: Field, list: Seq<Seq<u8>>)
    requires
        1 <= field.tag <= 8,
    ensures
        field_encoded(field, Datum::ManyBytes(list)) == runs(field.tag as int, list),
{
    lemma_runs_form(field.tag, list);
}

proof fn lemma_entries_form(tag: u32, entries: Seq<(Seq<char>, Seq<u8>)>)
    requires
        1 <= tag <= 8,
    ensures
        entries_encoded(tag, entries) == runs(tag as int, set_entry_runs(entries)),
    decreases entries.len(),
{
    if entries.len() > 0 {
        let (key, value) = entries[0];
        lemma_text_is_blank(key);
        lemma_run_form(1, encode_utf8(key));
        lemma_run_form(2, value);
        assert(set_entry_runs(entries)[0] == entry_encoded(key, value));
        lemma_run_form(tag, entry_encoded(key, value));
        lemma_entries_form(tag, entries.skip(1));
        assert(set_entry_runs(entries).skip(1) =~= set_entry_runs(entries.skip(1)));
    }
}

pub(crate) proof fn write_entries(field: Field, entries: Seq<(Seq<char>, Seq<u8>)>)
    requires
        1 <= field.tag <= 8,
    ensures
        field_encoded(field, Datum::Entries(entries)) == runs(
            field.tag as int,
            set_entry_runs(entries),
        ),
{
    lemma_entries_form(field.tag, entries);
}

pub(crate) proof fn write_message<M: Message>(field: Field, message: Option<M>)
    requires
        1 <= field.tag <= 8,
        field.kind == FieldKind::Message(M::layout()),
    ensures
        field_encoded(field, optional_record(message)) == set_message(field.tag as int, message),
{
    if let Some(m) = message {
        lemma_run_form(field.tag, written(m));
    }
}

proof fn lemma_results_form(tag: u32, list: Seq<QueryResultBytes>)
    requires
        1 <= tag <= 8,
    ensures
        records_encoded(tag, Layout::QueryResultBytes, records(list)) == runs(
            tag as int,
            set_result_runs(list),
        ),
    decreases list.len(),
{
    let all = records(list);
    let forms = set_result_runs(list);
    if list.len() > 0 {
        let inner = Layout::QueryResultBytes;
        let first = list[0].record();
        assert(all[0] == first);
        assert(fields(inner).len() == 1 && fields(inner)[0].tag == 1) by {
            reveal(fields);
        }
        assert(encoded_from(inner, first, 0) == field_encoded(fields(inner)[0], first[0])
            + encoded_from(inner, first, 1));
        assert(encoded_from(inner, first, 1) == Seq::<u8>::empty());
        write_bytes(fields(inner)[0], list[0].result_bytes@);
        assert(encoded(inner, first) =~= forms[0]);
        lemma_run_form(tag, forms[0]);
        lemma_results_form(tag, list.skip(1));
        assert(all.subrange(1, all.len() as int) =~= records(list.skip(1)));
        assert(forms.skip(1) =~= set_result_runs(list.skip(1)));
    }
}

pub(crate) proof fn write_results(field: Field, list: Seq<QueryResultBytes>)
    requires
        1 <= field.tag <= 8,
        field.kind == FieldKind::Messages(Layout::QueryResultBytes),
    ensures
        field_encoded(field, Datum::Messages(records(list))) == runs(
            field.tag as int,
            set_result_runs(list),
        ),
{
    lemma_results_form(field.tag, list);
}

} // verus!
