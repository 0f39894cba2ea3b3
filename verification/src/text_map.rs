//! Maps whose keys are text, in the order of the keys.

use vstd::prelude::*;

use crate::text;

verus! {

/// Whether `a` stands before `b` in the order of their characters.
pub open spec fn before(a: Seq<char>, b: Seq<char>) -> bool
    decreases a.len(),
{
    if b.len() == 0 {
        false
    } else if a.len() == 0 {
        true
    } else if a[0] != b[0] {
        (a[0] as int) < (b[0] as int)
    } else {
        before(a.skip(1), b.skip(1))
    }
}

/// No text stands before itself.
pub proof fn before_is_irreflexive(a: Seq<char>)
    ensures
        !before(a, a),
    decreases a.len(),
{
    if a.len() > 0 {
        before_is_irreflexive(a.skip(1));
    }
}

/// What stands before something stands before all that is behind it.
pub proof fn before_is_transitive(a: Seq<char>, b: Seq<char>, c: Seq<char>)
    requires
        before(a, b),
        before(b, c),
    ensures
        before(a, c),
    decreases a.len(),
{
    if a.len() > 0 && a[0] == b[0] && b[0] == c[0] {
        before_is_transitive(a.skip(1), b.skip(1), c.skip(1));
    }
}

/// Of two texts that differ one stands before the other.
pub proof fn before_is_total(a: Seq<char>, b: Seq<char>)
    ensures
        a == b || before(a, b) || before(b, a),
    decreases a.len(),
{
    if a.len() == 0 && b.len() == 0 {
        assert(a =~= b);
    } else if a.len() > 0 && b.len() > 0 && a[0] == b[0] {
        before_is_total(a.skip(1), b.skip(1));
        if a.skip(1) == b.skip(1) {
            assert(a =~= seq![a[0]] + a.skip(1));
            assert(b =~= seq![b[0]] + b.skip(1));
        }
    }
}

/// How two texts stand to each other.
#[derive(Debug, Clone, Copy, PartialEq, Eq, Structural)]
pub enum Standing {
    Before,
    Same,
    Behind,
}

/// Says how `a` stands to `b`.
pub fn standing(a: &str, b: &str) -> (r: Standing)
    ensures
        match r {
            Standing::Before => before(a@, b@),
            Standing::Same => a@ == b@,
            Standing::Behind => before(b@, a@),
        },
{
    let left = text::chars_of(a);
    let right = text::chars_of(b);
    let mut i: usize = 0;
    assert(left@.skip(0) =~= left@);
    assert(right@.skip(0) =~= right@);
    while i < left.len() && i < right.len()
        invariant
            left@ == a@,
            right@ == b@,
            0 <= i <= left@.len(),
            i <= right@.len(),
            forall|k: int| 0 <= k < i ==> left@[k] == right@[k],
            before(a@, b@) == before(left@.skip(i as int), right@.skip(i as int)),
            before(b@, a@) == before(right@.skip(i as int), left@.skip(i as int)),
        decreases left@.len() - i,
    {
        let x = left[i];
        let y = right[i];
        assert(left@.skip(i as int).skip(1) =~= left@.skip(i + 1));
        assert(right@.skip(i as int).skip(1) =~= right@.skip(i + 1));
        if x != y {
            if x < y {
                return Standing::Before;
            }
            return Standing::Behind;
        }
        i = i + 1;
    }
    if left.len() == right.len() {
        assert(a@ =~= b@);
        Standing::Same
    } else if i == left.len() {
        Standing::Before
    } else {
        Standing::Behind
    }
}

/// `entries` with `value` under `key`, at its place in the order, instead of what
/// was there.
pub open spec fn inserted<V>(entries: Seq<(Seq<char>, V)>, key: Seq<char>, value: V) -> Seq<
    (Seq<char>, V),
>
    decreases entries.len(),
{
    if entries.len() == 0 || before(key, entries[0].0) {
        seq![(key, value)] + entries
    } else if entries[0].0 == key {
        seq![(key, value)] + entries.skip(1)
    } else {
        seq![entries[0]] + inserted(entries.skip(1), key, value)
    }
}

/// The value under `key`.
pub open spec fn found<V>(entries: Seq<(Seq<char>, V)>, key: Seq<char>) -> Option<V>
    decreases entries.len(),
{
    if entries.len() == 0 {
        None
    } else if entries[0].0 == key {
        Some(entries[0].1)
    } else {
        found(entries.skip(1), key)
    }
}

/// Whether the keys stand in order, each once.
pub open spec fn ordered<V>(entries: Seq<(Seq<char>, V)>) -> bool {
    forall|i: int, j: int|
        0 <= i < j < entries.len() ==> before(
            (#[trigger] entries[i]).0,
            (#[trigger] entries[j]).0,
        )
}

/// What is put under a key is found there, and what is under other keys stays.
pub proof fn found_after_insert<V>(
    entries: Seq<(Seq<char>, V)>,
    key: Seq<char>,
    value: V,
    other: Seq<char>,
)
    ensures
        found(inserted(entries, key, value), key) == Some(value),
        other != key ==> found(inserted(entries, key, value), other) == found(entries, other),
    decreases entries.len(),
{
    let after = inserted(entries, key, value);
    reveal_with_fuel(found, 2);
    if entries.len() == 0 || before(key, entries[0].0) {
        assert(after.skip(1) =~= entries);
    } else if entries[0].0 == key {
        assert(after.skip(1) =~= entries.skip(1));
    } else {
        assert(after.skip(1) =~= inserted(entries.skip(1), key, value));
        found_after_insert(entries.skip(1), key, value, other);
    }
}

proof fn lemma_inserted_is<V>(entries: Seq<(Seq<char>, V)>, key: Seq<char>, value: V, at: int)
    requires
        ordered(entries),
        0 <= at <= entries.len(),
        forall|i: int| 0 <= i < at ==> before((#[trigger] entries[i]).0, key),
        at < entries.len() ==> entries[at].0 == key || before(key, entries[at].0),
    ensures
        inserted(entries, key, value) == if at < entries.len() && entries[at].0 == key {
            entries.update(at, (key, value))
        } else {
            entries.insert(at, (key, value))
        },
        ordered(inserted(entries, key, value)),
    decreases entries.len(),
{
    let expected = if at < entries.len() && entries[at].0 == key {
        entries.update(at, (key, value))
    } else {
        entries.insert(at, (key, value))
    };
    if at > 0 {
        let first = entries[0].0;
        assert(before(first, key));
        if before(key, first) {
            before_is_transitive(key, first, key);
            before_is_irreflexive(key);
        }
        if first == key {
            before_is_irreflexive(key);
        }
        lemma_inserted_is(entries.skip(1), key, value, at - 1);
    } else if at < entries.len() && entries[at].0 == key {
        before_is_irreflexive(key);
    }
    assert(inserted(entries, key, value) =~= expected);
    assert forall|i: int, j: int| 0 <= i < j < expected.len() implies before(
        (#[trigger] expected[i]).0,
        (#[trigger] expected[j]).0,
    ) by {
        let replaced = at < entries.len() && entries[at].0 == key;
        if !replaced {
            if i == at {
                let behind = entries[j - 1].0;
                if j - 1 > at {
                    before_is_transitive(key, entries[at].0, behind);
                }
            } else if i > at {
                assert(before(entries[i - 1].0, entries[j - 1].0));
            } else if j > at {
                assert(before(entries[i].0, entries[j - 1].0));
            }
        } else {
            assert(before(entries[i].0, entries[j].0));
        }
    }
}

proof fn lemma_found_is<V>(entries: Seq<(Seq<char>, V)>, key: Seq<char>, at: int)
    requires
        0 <= at <= entries.len(),
        forall|i: int| 0 <= i < at ==> (#[trigger] entries[i]).0 != key,
        at < entries.len() ==> entries[at].0 == key,
    ensures
        found(entries, key) == if at < entries.len() {
            Some(entries[at].1)
        } else {
            None
        },
    decreases at,
{
    if at > 0 {
        lemma_found_is(entries.skip(1), key, at - 1);
    }
}

#[derive(Debug)]
struct Slot<V> {
    key: String,
    value: V,
}

/// A map from text to values, in the order of the keys.
#[derive(Debug)]
pub struct TextMap<V> {
    slots: Vec<Slot<V>>,
}

impl<V> View for TextMap<V> {
    type V = Seq<(Seq<char>, V)>;

    closed spec fn view(&self) -> Seq<(Seq<char>, V)> {
        Seq::new(self.slots@.len(), |i: int| (self.slots@[i].key@, self.slots@[i].value))
    }
}

impl<V: Clone> Clone for TextMap<V> {
    fn clone(&self) -> (r: TextMap<V>)
        ensures
            r@.len() == self@.len(),
            forall|i: int|
                0 <= i < r@.len() ==> (#[trigger] r@[i]).0 == self@[i].0 && cloned::<V>(
                    self@[i].1,
                    r@[i].1,
                ),
    {
        proof {
            use_type_invariant(self);
        }
        let mut slots: Vec<Slot<V>> = Vec::new();
        let mut i: usize = 0;
        while i < self.slots.len()
            invariant
                0 <= i <= self.slots@.len(),
                slots@.len() == i,
                forall|k: int|
                    0 <= k < i ==> (#[trigger] slots@[k]).key@ == self.slots@[k].key@
                        && cloned::<V>(self.slots@[k].value, slots@[k].value),
            decreases self.slots@.len() - i,
        {
            let slot = &self.slots[i];
            slots.push(Slot { key: slot.key.clone(), value: slot.value.clone() });
            i = i + 1;
        }
        assert forall|i: int, j: int| 0 <= i < j < slots@.len() implies before(
            (#[trigger] slots@[i]).key@,
            (#[trigger] slots@[j]).key@,
        ) by {
            assert(before(self@[i].0, self@[j].0));
        }
        TextMap { slots }
    }
}

impl<V> TextMap<V> {
    #[verifier::type_invariant]
    closed spec fn in_order(&self) -> bool {
        ordered(self@)
    }

    /// The empty map.
    pub fn new() -> (r: TextMap<V>)
        ensures
            r@ == Seq::<(Seq<char>, V)>::empty(),
    {
        let r = TextMap { slots: Vec::new() };
        assert(r@ =~= Seq::<(Seq<char>, V)>::empty());
        r
    }

    /// The number of entries.
    pub fn len(&self) -> (r: usize)
        ensures
            r == self@.len(),
            ordered(self@),
    {
        proof {
            use_type_invariant(self);
        }
        self.slots.len()
    }

    /// Whether there are no entries.
    pub fn is_empty(&self) -> (r: bool)
        ensures
            r == (self@.len() == 0),
    {
        self.slots.len() == 0
    }

    /// The key at the given place.
    pub fn key_at(&self, index: usize) -> (r: &str)
        requires
            index < self@.len(),
        ensures
            r@ == self@[index as int].0,
    {
        self.slots[index].key.as_str()
    }

    /// The value at the given place.
    pub fn value_at(&self, index: usize) -> (r: &V)
        requires
            index < self@.len(),
        ensures
            *r == self@[index as int].1,
    {
        &self.slots[index].value
    }

    /// The value under `key`.
    pub fn get(&self, key: &str) -> (r: Option<&V>)
        ensures
            match r {
                Some(value) => found(self@, key@) == Some(*value),
                None => found(self@, key@) is None,
            },
    {
        let mut i: usize = 0;
        while i < self.slots.len()
            invariant
                0 <= i <= self.slots@.len(),
                forall|k: int| 0 <= k < i ==> (#[trigger] self@[k]).0 != key@,
            decreases self.slots@.len() - i,
        {
            if text::same_text(self.slots[i].key.as_str(), key) {
                proof {
                    lemma_found_is(self@, key@, i as int);
                }
                return Some(&self.slots[i].value);
            }
            i = i + 1;
        }
        proof {
            lemma_found_is(self@, key@, i as int);
        }
        None
    }

    /// Whether there is a value under `key`.
    pub fn contains_key(&self, key: &str) -> (r: bool)
        ensures
            r == found(self@, key@) is Some,
    {
        self.get(key).is_some()
    }

    /// Puts `value` under `key`, in place of what was there.
    pub fn insert(&mut self, key: String, value: V)
        ensures
            final(self)@ == inserted(old(self)@, key@, value),
    {
        proof {
            use_type_invariant(&*self);
        }
        let mut at: usize = 0;
        let mut replace = false;
        while at < self.slots.len()
            invariant_except_break
                !replace,
            invariant
                0 <= at <= self.slots@.len(),
                self@ == old(self)@,
                forall|i: int| 0 <= i < at ==> before((#[trigger] self@[i]).0, key@),
            ensures
                at < self.slots@.len() ==> self@[at as int].0 == key@ || before(
                    key@,
                    self@[at as int].0,
                ),
                replace == (at < self.slots@.len() && self@[at as int].0 == key@),
            decreases self.slots@.len() - at,
        {
            match standing(self.slots[at].key.as_str(), key.as_str()) {
                Standing::Before => {
                    at = at + 1;
                },
                Standing::Same => {
                    replace = true;
                    break;
                },
                Standing::Behind => {
                    proof {
                        if self@[at as int].0 == key@ {
                            before_is_irreflexive(key@);
                        }
                    }
                    break;
                },
            }
        }
        let ghost held = self@;
        proof {
            lemma_inserted_is(held, key@, value, at as int);
        }
        let mut slots: Vec<Slot<V>> = Vec::new();
        std::mem::swap(&mut slots, &mut self.slots);
        if replace {
            slots[at] = Slot { key, value };
        } else {
            slots.insert(at, Slot { key, value });
        }
        let ghost after = Seq::new(slots@.len(), |i: int| (slots@[i].key@, slots@[i].value));
        assert(after =~= inserted(held, key@, value));
        *self = TextMap { slots };
        assert(self@ =~= after);
    }

    /// The keys and values, in order.
    pub fn into_pairs(self) -> (r: Vec<(String, V)>)
        ensures
            r@.len() == self@.len(),
            forall|i: int|
                0 <= i < r@.len() ==> (#[trigger] r@[i]).0@ == self@[i].0 && r@[i].1 == self@[i].1,
            ordered(self@),
    {
        proof {
            use_type_invariant(&self);
        }
        let ghost all = self@;
        let mut left = self.slots;
        let mut out: Vec<(String, V)> = Vec::new();
        while left.len() > 0
            invariant
                left@.len() + out@.len() == all.len(),
                forall|i: int|
                    0 <= i < left@.len() ==> (#[trigger] left@[i]).key@ == all[i].0
                        && left@[i].value == all[i].1,
                forall|i: int|
                    0 <= i < out@.len() ==> (#[trigger] out@[i]).0@ == all[left@.len() + i].0
                        && out@[i].1 == all[left@.len() + i].1,
            decreases left@.len(),
        {
            match left.pop() {
                Some(slot) => {
                    let ghost had = out@;
                    out.insert(0, (slot.key, slot.value));
                    assert forall|i: int| 0 <= i < out@.len() implies (#[trigger] out@[i]).0@
                        == all[left@.len() + i].0 && out@[i].1 == all[left@.len() + i].1 by {
                        if i > 0 {
                            assert(out@[i] == had[i - 1]);
                        }
                    }
                },
                None => {},
            }
        }
        out
    }
}

} // verus!
