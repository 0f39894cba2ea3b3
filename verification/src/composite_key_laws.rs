//! How composite keys are made and taken apart.

use vstd::prelude::*;

use crate::composite_key::{component_fault, components, composite_key, first_fault, pieces};
use crate::byte_order::bytes_before;
use crate::composite_key::{in_byte_range, in_partial_range, terminated, texts};
use crate::text;
use crate::text_map::before;

verus! {

/// A composite key starts with U+0000, and each component is followed by U+0000.
pub proof fn composite_keys_end_every_component(
    object_type: Seq<char>,
    attributes: Seq<Seq<char>>,
    attribute: Seq<char>,
)
    ensures
        composite_key(object_type, seq![]) == seq!['\u{0}'] + object_type + seq!['\u{0}'],
        composite_key(object_type, attributes.push(attribute)) == composite_key(
            object_type,
            attributes,
        ) + attribute + seq!['\u{0}'],
{
    let one = seq![object_type] + Seq::<Seq<char>>::empty();
    assert(one =~= seq![object_type]);
    assert(one.drop_last() =~= Seq::<Seq<char>>::empty());
    assert(terminated(one.drop_last()) =~= Seq::<char>::empty());
    assert(composite_key(object_type, seq![]) =~= seq!['\u{0}'] + object_type + seq!['\u{0}']);
    let all = seq![object_type] + attributes.push(attribute);
    assert(all.drop_last() =~= seq![object_type] + attributes);
    assert(all.last() == attribute);
    assert(composite_key(object_type, attributes.push(attribute)) =~= composite_key(
        object_type,
        attributes,
    ) + attribute + seq!['\u{0}']);
}

/// A component is refused where it is empty or holds U+0000 or U+10FFFF, in words that
/// say which of the two it is.
pub proof fn components_are_refused_for_a_reason(component: Seq<char>)
    ensures
        component_fault(component) is None <==> component.len() > 0 && !component.contains('\u{0}')
            && !component.contains('\u{10FFFF}'),
        component.len() == 0 ==> component_fault(component) == Some(
            "composite key component must not be empty"@,
        ),
        component.len() > 0 && (component.contains('\u{0}') || component.contains('\u{10FFFF}'))
            ==> component_fault(component) == Some(
            "composite key component "@ + text::debug_form(component)
                + " contains U+0000 or U+10FFFF"@,
        ),
{
}

/// Of faulty components the first one is told.
pub proof fn the_first_faulty_component_is_told(components: Seq<Seq<char>>, at: int)
    requires
        0 <= at < components.len(),
        component_fault(components[at]) is Some,
        forall|i: int| 0 <= i < at ==> component_fault(#[trigger] components[i]) is None,
    ensures
        first_fault(components) == component_fault(components[at]),
    decreases components.len(),
{
    let shorter = components.drop_last();
    assert forall|i: int| 0 <= i < shorter.len() implies shorter[i] == components[i] by {}
    if at == components.len() - 1 {
        lemma_no_fault(shorter);
    } else {
        the_first_faulty_component_is_told(shorter, at);
    }
}

proof fn lemma_no_fault(components: Seq<Seq<char>>)
    requires
        forall|i: int|
            0 <= i < components.len() ==> component_fault(#[trigger] components[i]) is None,
    ensures
        first_fault(components) is None,
    decreases components.len(),
{
    if components.len() > 0 {
        let shorter = components.drop_last();
        assert forall|i: int| 0 <= i < shorter.len() implies component_fault(
            #[trigger] shorter[i],
        ) is None by {
            assert(shorter[i] == components[i]);
        }
        lemma_no_fault(shorter);
        assert(component_fault(components[components.len() - 1]) is None);
    }
}

/// A key is split at every U+0000: what stands before the first one is the first piece
/// unless it is empty, and the rest is split in the same way.
pub proof fn keys_are_split_at_every_delimiter(front: Seq<char>, rest: Seq<char>)
    requires
        !front.contains('\u{0}'),
    ensures
        pieces(front + seq!['\u{0}'] + rest) == if front.len() == 0 {
            pieces(rest)
        } else {
            seq![front] + pieces(rest)
        },
        pieces(front) == if front.len() == 0 {
            Seq::<Seq<char>>::empty()
        } else {
            seq![front]
        },
{
    let chars = front + seq!['\u{0}'] + rest;
    assert forall|k: int| 0 <= k < front.len() implies chars[k] != '\u{0}' by {
        assert(front.contains(front[k]));
    }
    text::first_index_is(chars, '\u{0}', front.len());
    assert(chars.take(front.len() as int) =~= front);
    assert(chars.skip(front.len() as int + 1) =~= rest);
    assert forall|k: int| 0 <= k < front.len() implies front[k] != '\u{0}' by {
        assert(front.contains(front[k]));
    }
    text::first_index_is(front, '\u{0}', front.len());
    assert(front.take(front.len() as int) =~= front);
    assert(seq![front] + Seq::<Seq<char>>::empty() =~= seq![front]);
}

/// What does not start with U+0000 is no composite key; what has nothing but U+0000 has
/// no object type; anything else has the first piece for its object type and the others
/// for its attributes.
pub proof fn composite_keys_start_with_the_delimiter(key: Seq<char>, rest: Seq<char>)
    ensures
        key.len() == 0 || key[0] != '\u{0}' ==> components(key) == Err::<
            (Seq<char>, Seq<Seq<char>>),
            _,
        >("not a composite key"@),
        pieces(rest).len() == 0 ==> components(seq!['\u{0}'] + rest) == Err::<
            (Seq<char>, Seq<Seq<char>>),
            _,
        >("composite key has no object type"@),
        pieces(rest).len() > 0 ==> (components(seq!['\u{0}'] + rest) matches Ok((t, a)) && seq![t]
            + a == pieces(rest)),
{
    assert((seq!['\u{0}'] + rest).skip(1) =~= rest);
    if pieces(rest).len() > 0 {
        assert(seq![pieces(rest)[0]] + pieces(rest).skip(1) =~= pieces(rest));
    }
}

/// The range of a partial key holds the key itself and what follows it, up to the
/// prefix with U+10FFFF behind it.
pub proof fn partial_ranges_end_behind_the_prefix(prefix: Seq<char>, key: Seq<char>)
    ensures
        in_partial_range(prefix, key) <==> (key == prefix || before(prefix, key)) && before(
            key,
            prefix + seq!['\u{10FFFF}'],
        ),
{
    assert(prefix + seq!['\u{10FFFF}'] =~= prefix.push('\u{10FFFF}'));
}

/// Bytes stand before others where they end first or have the lesser byte at the first
/// place at which they differ.
pub proof fn bytes_stand_by_their_first_difference(
    front: Seq<u8>,
    a: u8,
    b: u8,
    x: Seq<u8>,
    y: Seq<u8>,
)
    requires
        a < b,
    ensures
        bytes_before(front + seq![a] + x, front + seq![b] + y),
        !bytes_before(front + seq![b] + y, front + seq![a] + x),
        bytes_before(front, front + seq![a] + x),
        !bytes_before(front + seq![a] + x, front),
        !bytes_before(front, front),
    decreases front.len(),
{
    let left = front + seq![a] + x;
    let right = front + seq![b] + y;
    if front.len() == 0 {
        assert(left[0] == a && right[0] == b);
    } else {
        bytes_stand_by_their_first_difference(front.skip(1), a, b, x, y);
        assert(left.skip(1) =~= front.skip(1) + seq![a] + x);
        assert(right.skip(1) =~= front.skip(1) + seq![b] + y);
    }
}

/// A range of bytes holds its start and what follows it, up to its end.
pub proof fn ranges_of_bytes_hold_their_start(start: Seq<u8>, end: Seq<u8>, key: Seq<u8>)
    ensures
        in_byte_range(start, end, key) <==> (key == start || bytes_before(start, key))
            && bytes_before(key, end),
{
}

/// The attributes are taken as they are, in their order.
pub proof fn attributes_are_taken_as_they_are(attributes: Seq<&str>, i: int)
    ensures
        texts(attributes).len() == attributes.len(),
        0 <= i < attributes.len() ==> texts(attributes)[i] == attributes[i]@,
{
}

} // verus!
