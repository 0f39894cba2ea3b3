//! Composite keys: ledger keys made of an object type and attributes, in an
//! order in which the keys that share a prefix stand together.

use vstd::prelude::*;
use vstd::utf8::encode_utf8;

use crate::byte_order::{byte_order_is_text_order, bytes_before, bytes_tell_texts_apart};
use crate::error::{Error, ErrorView, Result};
use crate::text;
use crate::text_map::{before, before_is_irreflexive, before_is_transitive};

verus! {

/// Opens a composite key and ends each of its components.
pub const COMPOSITE_KEY_NAMESPACE: char = '\u{0}';

/// The largest Unicode scalar value; ends the range of a partial composite key.
pub const MAX_UNICODE_RUNE: char = '\u{10FFFF}';

/// Each of `parts` with the delimiter behind it.
pub open spec fn terminated(parts: Seq<Seq<char>>) -> Seq<char>
    decreases parts.len(),
{
    if parts.len() == 0 {
        seq![]
    } else {
        terminated(parts.drop_last()) + parts.last().push(COMPOSITE_KEY_NAMESPACE)
    }
}

/// The composite key with the given components.
pub open spec fn composite_key(object_type: Seq<char>, attributes: Seq<Seq<char>>) -> Seq<char> {
    seq![COMPOSITE_KEY_NAMESPACE] + terminated(seq![object_type] + attributes)
}

/// The characters of each of `attributes`.
pub open spec fn texts(attributes: Seq<&str>) -> Seq<Seq<char>> {
    Seq::new(attributes.len(), |i: int| attributes[i]@)
}

/// What is wrong with a component, if anything is.
pub open spec fn component_fault(component: Seq<char>) -> Option<Seq<char>> {
    if component.len() == 0 {
        Some("composite key component must not be empty"@)
    } else if component.contains(COMPOSITE_KEY_NAMESPACE) || component.contains(MAX_UNICODE_RUNE) {
        Some(
            "composite key component "@ + text::debug_form(component)
                + " contains U+0000 or U+10FFFF"@,
        )
    } else {
        None
    }
}

/// What is wrong with the first faulty one of `components`.
pub open spec fn first_fault(components: Seq<Seq<char>>) -> Option<Seq<char>>
    decreases components.len(),
{
    if components.len() == 0 {
        None
    } else {
        match first_fault(components.drop_last()) {
            Some(fault) => Some(fault),
            None => component_fault(components.last()),
        }
    }
}

/// The non-empty pieces between the delimiters of `chars`.
pub open spec fn pieces(chars: Seq<char>) -> Seq<Seq<char>>
    decreases chars.len(),
{
    let end = text::first_index(chars, COMPOSITE_KEY_NAMESPACE);
    let later = if end < chars.len() {
        pieces(chars.skip(end as int + 1))
    } else {
        seq![]
    };
    if end == 0 {
        later
    } else {
        seq![chars.take(end as int)] + later
    }
}

/// The components of a composite key, or what keeps `key` from being one.
pub open spec fn components(key: Seq<char>) -> std::result::Result<
    (Seq<char>, Seq<Seq<char>>),
    Seq<char>,
> {
    if key.len() == 0 || key[0] != COMPOSITE_KEY_NAMESPACE {
        Err("not a composite key"@)
    } else {
        let parts = pieces(key.skip(1));
        if parts.len() == 0 {
            Err("composite key has no object type"@)
        } else {
            Ok((parts[0], parts.skip(1)))
        }
    }
}

/// Fails on a component that a composite key cannot hold. An empty one could not
/// be told from the end of the key when it is split.
pub fn validate_composite_component(s: &str) -> (r: Result<()>)
    ensures
        match component_fault(s@) {
            None => r is Ok,
            Some(fault) => r matches Err(e) && e@ == ErrorView::InvalidArgument(fault),
        },
{
    if s.is_empty() {
        return Err(
            Error::InvalidArgument("composite key component must not be empty".to_owned()),
        );
    }
    if text::contains_char(s, COMPOSITE_KEY_NAMESPACE) || text::contains_char(s, MAX_UNICODE_RUNE) {
        return Err(
            Error::InvalidArgument(
                text::triple(
                    "composite key component ",
                    text::debug_text(s).as_str(),
                    " contains U+0000 or U+10FFFF",
                ),
            ),
        );
    }
    Ok(())
}

/// Builds the composite key of an object type and attributes, each of which must
/// be non-empty and free of U+0000 and U+10FFFF.
pub fn create_composite_key(object_type: &str, attributes: &[&str]) -> (r: Result<String>)
    ensures
        match first_fault(seq![object_type@] + texts(attributes@)) {
            None => r matches Ok(key) && key@ == composite_key(object_type@, texts(attributes@)),
            Some(fault) => r matches Err(e) && e@ == ErrorView::InvalidArgument(fault),
        },
{
    let ghost all = seq![object_type@] + texts(attributes@);
    proof {
        reveal_with_fuel(first_fault, 2);
        reveal_with_fuel(terminated, 2);
        assert(all.take(1).drop_last() =~= Seq::<Seq<char>>::empty());
        assert(all.take(1).last() == object_type@);
        lemma_fault_persists(all, 1);
    }
    if let Err(e) = validate_composite_component(object_type) {
        return Err(e);
    }
    let mut key = String::new();
    key.push(COMPOSITE_KEY_NAMESPACE);
    key.append(object_type);
    key.push(COMPOSITE_KEY_NAMESPACE);
    assert(key@ =~= seq![COMPOSITE_KEY_NAMESPACE] + terminated(all.take(1)));
    let mut i: usize = 0;
    while i < attributes.len()
        invariant
            0 <= i <= attributes@.len(),
            all == seq![object_type@] + texts(attributes@),
            first_fault(all.take(i + 1)) is None,
            key@ == seq![COMPOSITE_KEY_NAMESPACE] + terminated(all.take(i + 1)),
        decreases attributes@.len() - i,
    {
        let attribute = attributes[i];
        proof {
            assert(all.take(i + 2).drop_last() =~= all.take(i + 1));
            assert(all.take(i + 2).last() == attribute@);
            lemma_fault_persists(all, i + 2);
        }
        if let Err(e) = validate_composite_component(attribute) {
            return Err(e);
        }
        key.append(attribute);
        key.push(COMPOSITE_KEY_NAMESPACE);
        assert(key@ =~= seq![COMPOSITE_KEY_NAMESPACE] + terminated(all.take(i + 2)));
        i = i + 1;
    }
    assert(all.take(i + 1) =~= all);
    Ok(key)
}

/// A fault among the first components is the fault of all of them.
proof fn lemma_fault_persists(components: Seq<Seq<char>>, count: int)
    requires
        0 <= count <= components.len(),
    ensures
        first_fault(components.take(count)) matches Some(fault) ==> first_fault(components)
            == Some(fault),
    decreases components.len(),
{
    if count == components.len() {
        assert(components.take(count) =~= components);
    } else {
        assert(components.drop_last().take(count) =~= components.take(count));
        lemma_fault_persists(components.drop_last(), count);
    }
}

/// Splits a composite key back into its object type and attributes.
pub fn split_composite_key(composite_key: &str) -> (r: Result<(String, Vec<String>)>)
    ensures
        match components(composite_key@) {
            Ok((object_type, attributes)) => r matches Ok((t, a)) && t@ == object_type
                && a.deep_view() == attributes,
            Err(fault) => r matches Err(e) && e@ == ErrorView::InvalidArgument(fault),
        },
{
    let chars = text::chars_of(composite_key);
    if chars.len() == 0 || chars[0] != COMPOSITE_KEY_NAMESPACE {
        return Err(Error::InvalidArgument("not a composite key".to_owned()));
    }
    let ghost all = pieces(chars@.skip(1));
    let mut parts: Vec<String> = Vec::new();
    let mut at: usize = 1;
    let mut more = true;
    while more
        invariant
            chars@.len() >= 1,
            1 <= at <= chars@.len(),
            all == pieces(chars@.skip(1)),
            all == parts.deep_view() + (if more {
                pieces(chars@.skip(at as int))
            } else {
                seq![]
            }),
        decreases (if more { chars@.len() - at + 1 } else { 0 }),
    {
        let ghost rest = chars@.skip(at as int);
        let ghost before = parts.deep_view();
        let end = text::find_from(chars.as_slice(), COMPOSITE_KEY_NAMESPACE, at);
        proof {
            assert(rest.take(end - at) =~= chars@.subrange(at as int, end as int));
            if end < chars@.len() {
                assert(rest.skip(end - at + 1) =~= chars@.skip(end + 1));
            }
        }
        if end > at {
            let part = text::text_between(chars.as_slice(), at, end);
            parts.push(part);
            assert(parts.deep_view() =~= before.push(part@));
        }
        if end < chars.len() {
            at = end + 1;
        } else {
            more = false;
        }
        assert(all =~= parts.deep_view() + (if more {
            pieces(chars@.skip(at as int))
        } else {
            seq![]
        }));
    }
    assert(all =~= parts.deep_view());
    if parts.len() == 0 {
        return Err(Error::InvalidArgument("composite key has no object type".to_owned()));
    }
    let ghost whole = parts.deep_view();
    let object_type = parts.remove(0);
    assert(parts.deep_view() =~= whole.skip(1));
    Ok((object_type, parts))
}

/// The components of delimited parts are the parts.
proof fn lemma_pieces_of_terminated(parts: Seq<Seq<char>>, rest: Seq<char>)
    requires
        first_fault(parts) is None,
    ensures
        pieces(terminated(parts) + rest) == parts + pieces(rest),
    decreases parts.len(),
{
    if parts.len() == 0 {
        assert(terminated(parts) + rest =~= rest);
        assert(parts + pieces(rest) =~= pieces(rest));
    } else {
        let last = parts.last();
        let tail = last.push(COMPOSITE_KEY_NAMESPACE) + rest;
        assert(terminated(parts) + rest =~= terminated(parts.drop_last()) + tail);
        lemma_pieces_of_terminated(parts.drop_last(), tail);
        text::first_index_is(tail, COMPOSITE_KEY_NAMESPACE, last.len());
        assert(tail.take(last.len() as int) =~= last);
        assert(tail.skip(last.len() as int + 1) =~= rest);
        assert(parts + pieces(rest) =~= parts.drop_last() + (seq![last] + pieces(rest)));
    }
}

/// Whatever key can be created splits back into its object type and attributes.
pub proof fn split_inverts_create(object_type: Seq<char>, attributes: Seq<Seq<char>>)
    requires
        first_fault(seq![object_type] + attributes) is None,
    ensures
        components(composite_key(object_type, attributes)) == Ok::<_, Seq<char>>(
            (object_type, attributes),
        ),
{
    let parts = seq![object_type] + attributes;
    let key = composite_key(object_type, attributes);
    lemma_pieces_of_terminated(parts, seq![]);
    assert(key.skip(1) =~= terminated(parts) + Seq::<char>::empty());
    assert(pieces(Seq::<char>::empty()) =~= Seq::<Seq<char>>::empty());
    assert(parts + pieces(Seq::<char>::empty()) =~= parts);
    assert(parts.skip(1) =~= attributes);
}

/// A composite key is refused if and only if one of its components is empty or
/// holds U+0000 or U+10FFFF.
pub proof fn faults_are_exactly_the_bad_components(components: Seq<Seq<char>>)
    ensures
        first_fault(components) is None <==> forall|i: int|
            0 <= i < components.len() ==> {
                let c = #[trigger] components[i];
                c.len() > 0 && !c.contains(COMPOSITE_KEY_NAMESPACE) && !c.contains(MAX_UNICODE_RUNE)
            },
    decreases components.len(),
{
    if components.len() > 0 {
        let shorter = components.drop_last();
        faults_are_exactly_the_bad_components(shorter);
        assert forall|i: int| 0 <= i < shorter.len() implies shorter[i] == components[i] by {}
        if first_fault(components) is None {
            assert forall|i: int| 0 <= i < components.len() implies ({
                let c = #[trigger] components[i];
                c.len() > 0 && !c.contains(COMPOSITE_KEY_NAMESPACE) && !c.contains(MAX_UNICODE_RUNE)
            }) by {
                if i < shorter.len() {
                    assert(shorter[i] == components[i]);
                }
            }
        }
    }
}

proof fn lemma_terminated_add(a: Seq<Seq<char>>, b: Seq<Seq<char>>)
    ensures
        terminated(a + b) == terminated(a) + terminated(b),
    decreases b.len(),
{
    if b.len() == 0 {
        assert(a + b =~= a);
        assert(terminated(a) + terminated(b) =~= terminated(a));
    } else {
        lemma_terminated_add(a, b.drop_last());
        assert((a + b).drop_last() =~= a + b.drop_last());
        assert(terminated(a + b) =~= terminated(a) + terminated(b));
    }
}

proof fn lemma_before_behind_prefix(prefix: Seq<char>, a: Seq<char>, b: Seq<char>)
    ensures
        before(prefix + a, prefix + b) == before(a, b),
    decreases prefix.len(),
{
    if prefix.len() == 0 {
        assert(prefix + a =~= a);
        assert(prefix + b =~= b);
    } else {
        assert((prefix + a).skip(1) =~= prefix.skip(1) + a);
        assert((prefix + b).skip(1) =~= prefix.skip(1) + b);
        lemma_before_behind_prefix(prefix.skip(1), a, b);
    }
}

/// Whether a key lies in the range of a partial composite key: from the prefix up
/// to the prefix followed by the largest character.
pub open spec fn in_partial_range(prefix: Seq<char>, key: Seq<char>) -> bool {
    (key == prefix || before(prefix, key)) && before(key, prefix.push(MAX_UNICODE_RUNE))
}

/// Whether the bytes of a key lie in a range of bytes, from its start up to its end.
pub open spec fn in_byte_range(start: Seq<u8>, end: Seq<u8>, key: Seq<u8>) -> bool {
    (key == start || bytes_before(start, key)) && bytes_before(key, end)
}

/// The ledger keeps keys in the order of their bytes in UTF-8; the range of a partial
/// composite key holds the same keys in that order.
pub proof fn partial_range_is_a_range_of_bytes(prefix: Seq<char>, key: Seq<char>)
    ensures
        in_byte_range(
            encode_utf8(prefix),
            encode_utf8(prefix.push(MAX_UNICODE_RUNE)),
            encode_utf8(key),
        ) == in_partial_range(prefix, key),
{
    bytes_tell_texts_apart(key, prefix);
    byte_order_is_text_order(prefix, key);
    byte_order_is_text_order(key, prefix.push(MAX_UNICODE_RUNE));
}

proof fn lemma_range_holds_its_keys(
    object_type: Seq<char>,
    attributes: Seq<Seq<char>>,
    more: Seq<Seq<char>>,
)
    requires
        first_fault(seq![object_type] + attributes + more) is None,
    ensures
        in_partial_range(
            composite_key(object_type, attributes),
            composite_key(object_type, attributes + more),
        ),
{
    let prefix = composite_key(object_type, attributes);
    let key = composite_key(object_type, attributes + more);
    let parts = seq![object_type] + attributes;
    let rest = terminated(more);
    lemma_terminated_add(parts, more);
    assert(seq![object_type] + (attributes + more) =~= parts + more);
    assert(key =~= prefix + rest);
    assert(prefix.push(MAX_UNICODE_RUNE) =~= prefix + seq![MAX_UNICODE_RUNE]);
    assert(prefix + Seq::<char>::empty() =~= prefix);
    lemma_before_behind_prefix(prefix, Seq::empty(), rest);
    lemma_before_behind_prefix(prefix, rest, seq![MAX_UNICODE_RUNE]);
    if more.len() == 0 {
        assert(key =~= prefix);
        assert(before(rest, seq![MAX_UNICODE_RUNE]));
    } else {
        faults_are_exactly_the_bad_components(parts + more);
        let first = more[0];
        assert((parts + more)[parts.len() as int] == first);
        assert(!first.contains(MAX_UNICODE_RUNE));
        lemma_terminated_add(seq![first], more.skip(1));
        assert(seq![first] + more.skip(1) =~= more);
        reveal_with_fuel(terminated, 2);
        assert(seq![first].drop_last() =~= Seq::<Seq<char>>::empty());
        assert(rest[0] == first[0]);
        assert(first.contains(first[0]));
        let c: char = first[0];
        vstd::utf8::char_is_scalar(c);
        vstd::utf8::char_u32_cast(c, c as u32);
        assert((rest[0] as int) < (MAX_UNICODE_RUNE as int));
        assert(before(rest, seq![MAX_UNICODE_RUNE]));
        assert(before(Seq::empty(), rest));
    }
}

/// What stands between a prefix and the prefix followed by the largest character
/// starts with the prefix.
proof fn lemma_range_shares_prefix(prefix: Seq<char>, key: Seq<char>)
    requires
        !before(key, prefix),
        before(key, prefix.push(MAX_UNICODE_RUNE)),
    ensures
        prefix.len() <= key.len(),
        key.take(prefix.len() as int) == prefix,
    decreases prefix.len(),
{
    if prefix.len() == 0 {
        assert(key.take(0) =~= prefix);
    } else {
        let end = prefix.push(MAX_UNICODE_RUNE);
        assert(key.len() > 0);
        assert(end[0] == prefix[0]);
        assert(key[0] == prefix[0]);
        assert(end.skip(1) =~= prefix.skip(1).push(MAX_UNICODE_RUNE));
        lemma_range_shares_prefix(prefix.skip(1), key.skip(1));
        let rest = key.skip(1).take(prefix.len() - 1);
        assert(key.take(prefix.len() as int) =~= seq![key[0]] + rest);
        assert(prefix =~= seq![prefix[0]] + prefix.skip(1));
    }
}

/// Of all composite keys the range of a partial one holds exactly those that start
/// with its components, whether keys are ordered by their characters or by their
/// bytes.
pub proof fn partial_range_holds_exactly_its_keys(
    object_type: Seq<char>,
    attributes: Seq<Seq<char>>,
    other_type: Seq<char>,
    other_attributes: Seq<Seq<char>>,
)
    requires
        first_fault(seq![object_type] + attributes) is None,
        first_fault(seq![other_type] + other_attributes) is None,
    ensures
        in_partial_range(
            composite_key(object_type, attributes),
            composite_key(other_type, other_attributes),
        ) <==> (other_type == object_type && attributes.len() <= other_attributes.len()
            && other_attributes.take(attributes.len() as int) == attributes),
        in_byte_range(
            encode_utf8(composite_key(object_type, attributes)),
            encode_utf8(composite_key(object_type, attributes).push(MAX_UNICODE_RUNE)),
            encode_utf8(composite_key(other_type, other_attributes)),
        ) <==> (other_type == object_type && attributes.len() <= other_attributes.len()
            && other_attributes.take(attributes.len() as int) == attributes),
{
    let prefix = composite_key(object_type, attributes);
    let key = composite_key(other_type, other_attributes);
    let parts = seq![object_type] + attributes;
    let others = seq![other_type] + other_attributes;
    partial_range_is_a_range_of_bytes(prefix, key);
    if other_type == object_type && attributes.len() <= other_attributes.len()
        && other_attributes.take(attributes.len() as int) == attributes {
        let more = other_attributes.skip(attributes.len() as int);
        assert(attributes + more =~= other_attributes);
        assert(parts + more =~= others);
        lemma_range_holds_its_keys(object_type, attributes, more);
    }
    if in_partial_range(prefix, key) {
        if before(key, prefix) {
            if key == prefix {
                before_is_irreflexive(key);
            } else {
                before_is_transitive(key, prefix, key);
                before_is_irreflexive(key);
            }
        }
        lemma_range_shares_prefix(prefix, key);
        let rest = key.skip(prefix.len() as int);
        assert(key =~= prefix + rest);
        assert(terminated(others) =~= terminated(parts) + rest) by {
            assert(terminated(others) =~= key.skip(1));
            assert(key.skip(1) =~= prefix.skip(1) + rest);
            assert(prefix.skip(1) =~= terminated(parts));
        }
        lemma_pieces_of_terminated(parts, rest);
        lemma_pieces_of_terminated(others, seq![]);
        assert(terminated(others) + Seq::<char>::empty() =~= terminated(others));
        assert(pieces(Seq::<char>::empty()) =~= Seq::<Seq<char>>::empty());
        assert(others + Seq::<Seq<char>>::empty() =~= others);
        assert(others == parts + pieces(rest));
        assert(others[0] == parts[0]);
        assert(other_attributes.take(attributes.len() as int) =~= attributes) by {
            assert forall|i: int| 0 <= i < attributes.len() implies other_attributes[i]
                == attributes[i] by {
                assert(others[i + 1] == (parts + pieces(rest))[i + 1]);
            }
        }
    }
}

} // verus!
