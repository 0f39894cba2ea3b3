//! Maps from text to bytes, as transient data and decorations are.

use vstd::prelude::*;
use vstd::slice::slice_to_vec;

use crate::codec::{keys_differ, with_entry};
use crate::text;

verus! {

/// An entry of a [`BytesMap`].
#[derive(Debug, Clone, PartialEq, Eq)]
pub struct Entry {
    pub key: String,
    pub value: Vec<u8>,
}

/// A map from text to bytes. The entries keep the order in which their keys came.
#[derive(Debug, Eq)]
pub struct BytesMap {
    entries: Vec<Entry>,
}

impl View for BytesMap {
    type V = Seq<(Seq<char>, Seq<u8>)>;

    closed spec fn view(&self) -> Seq<(Seq<char>, Seq<u8>)> {
        Seq::new(self.entries@.len(), |i: int| (self.entries@[i].key@, self.entries@[i].value@))
    }
}

/// The value under `key`.
pub open spec fn entry_value(entries: Seq<(Seq<char>, Seq<u8>)>, key: Seq<char>) -> Option<Seq<u8>>
    decreases entries.len(),
{
    if entries.len() == 0 {
        None
    } else if entries[0].0 == key {
        Some(entries[0].1)
    } else {
        entry_value(entries.skip(1), key)
    }
}

proof fn lemma_with_entry(
    entries: Seq<(Seq<char>, Seq<u8>)>,
    key: Seq<char>,
    value: Seq<u8>,
    at: int,
)
    requires
        0 <= at <= entries.len(),
        forall|i: int| 0 <= i < at ==> (#[trigger] entries[i]).0 != key,
        at < entries.len() ==> entries[at].0 == key,
    ensures
        with_entry(entries, key, value) == if at < entries.len() {
            entries.update(at, (key, value))
        } else {
            entries.push((key, value))
        },
    decreases at,
{
    if at > 0 {
        lemma_with_entry(entries.skip(1), key, value, at - 1);
    }
    assert(with_entry(entries, key, value) =~= if at < entries.len() {
        entries.update(at, (key, value))
    } else {
        entries.push((key, value))
    });
}

proof fn lemma_entry_value(entries: Seq<(Seq<char>, Seq<u8>)>, key: Seq<char>, at: int)
    requires
        0 <= at <= entries.len(),
        forall|i: int| 0 <= i < at ==> (#[trigger] entries[i]).0 != key,
        at < entries.len() ==> entries[at].0 == key,
    ensures
        entry_value(entries, key) == if at < entries.len() {
            Some(entries[at].1)
        } else {
            None
        },
    decreases at,
{
    if at > 0 {
        lemma_entry_value(entries.skip(1), key, at - 1);
    }
}

impl BytesMap {
    /// No key occurs twice.
    pub open spec fn well_formed(&self) -> bool {
        keys_differ(self@)
    }

    #[verifier::type_invariant]
    closed spec fn keys_are_distinct(&self) -> bool {
        keys_differ(self@)
    }

    /// The empty map.
    pub fn new() -> (r: BytesMap)
        ensures
            r@ == Seq::<(Seq<char>, Seq<u8>)>::empty(),
            r.well_formed(),
    {
        let r = BytesMap { entries: Vec::new() };
        assert(r@ =~= Seq::<(Seq<char>, Seq<u8>)>::empty());
        r
    }

    /// The number of entries.
    pub fn len(&self) -> (r: usize)
        ensures
            r == self@.len(),
            self.well_formed(),
    {
        proof {
            use_type_invariant(self);
        }
        self.entries.len()
    }

    /// Whether there are no entries.
    pub fn is_empty(&self) -> (r: bool)
        ensures
            r == (self@.len() == 0),
    {
        self.entries.len() == 0
    }

    /// The entry at the given place.
    pub fn entry(&self, index: usize) -> (r: &Entry)
        requires
            index < self@.len(),
        ensures
            self@[index as int] == (r.key@, r.value@),
    {
        &self.entries[index]
    }

    fn find(&self, key: &str) -> (r: usize)
        ensures
            0 <= r <= self@.len(),
            forall|i: int| 0 <= i < r ==> (#[trigger] self@[i]).0 != key@,
            r < self@.len() ==> self@[r as int].0 == key@,
    {
        let mut i: usize = 0;
        while i < self.entries.len()
            invariant
                0 <= i <= self.entries@.len(),
                forall|k: int| 0 <= k < i ==> (#[trigger] self@[k]).0 != key@,
            decreases self.entries@.len() - i,
        {
            if text::same_text(self.entries[i].key.as_str(), key) {
                return i;
            }
            i = i + 1;
        }
        i
    }

    /// The value under `key`.
    pub fn get(&self, key: &str) -> (r: Option<&Vec<u8>>)
        ensures
            match r {
                Some(value) => entry_value(self@, key@) == Some(value@),
                None => entry_value(self@, key@) is None,
            },
    {
        let at = self.find(key);
        proof {
            lemma_entry_value(self@, key@, at as int);
        }
        if at < self.entries.len() {
            Some(&self.entries[at].value)
        } else {
            None
        }
    }

    /// Puts `value` under `key`, in place of what was there.
    pub fn insert(&mut self, key: String, value: Vec<u8>)
        ensures
            final(self)@ == with_entry(old(self)@, key@, value@),
            final(self).well_formed(),
    {
        proof {
            use_type_invariant(&*self);
        }
        let at = self.find(key.as_str());
        let ghost before = self@;
        proof {
            lemma_with_entry(before, key@, value@, at as int);
        }
        let mut entries: Vec<Entry> = Vec::new();
        std::mem::swap(&mut entries, &mut self.entries);
        let ghost held = entries@;
        if at < entries.len() {
            entries[at] = Entry { key, value };
        } else {
            entries.push(Entry { key, value });
        }
        let ghost after = Seq::new(entries@.len(), |i: int| (entries@[i].key@, entries@[i].value@));
        assert(after =~= with_entry(before, key@, value@));
        assert(keys_differ(after));
        *self = BytesMap { entries };
        assert(self@ =~= after);
    }
}

/// Whether two maps have the same values under the same keys.
pub open spec fn same_values(a: Seq<(Seq<char>, Seq<u8>)>, b: Seq<(Seq<char>, Seq<u8>)>) -> bool {
    forall|key: Seq<char>| #[trigger] entry_value(a, key) == entry_value(b, key)
}

impl vstd::std_specs::cmp::PartialEqSpecImpl for BytesMap {
    open spec fn obeys_eq_spec() -> bool {
        true
    }

    open spec fn eq_spec(&self, other: &BytesMap) -> bool {
        same_values(self@, other@)
    }
}

/// Maps are equal whatever the order of their entries.
impl PartialEq for BytesMap {
    fn eq(&self, other: &BytesMap) -> (r: bool) {
        let within = self.is_within(other);
        let around = other.is_within(self);
        proof {
            if within && around {
                assert forall|key: Seq<char>| #[trigger] entry_value(self@, key) == entry_value(
                    other@,
                    key,
                ) by {
                    lemma_some_entry(self@, key);
                    lemma_some_entry(other@, key);
                }
            }
        }
        within && around
    }
}

/// What is found under a key is the value of an entry.
proof fn lemma_some_entry(entries: Seq<(Seq<char>, Seq<u8>)>, key: Seq<char>)
    ensures
        entry_value(entries, key) matches Some(value) ==> exists|i: int|
            0 <= i < entries.len() && #[trigger] entries[i] == (key, value),
    decreases entries.len(),
{
    if entries.len() > 0 {
        if entries[0].0 == key {
            assert(entries[0] == (key, entries[0].1));
        } else {
            let rest = entries.skip(1);
            lemma_some_entry(rest, key);
            if let Some(value) = entry_value(rest, key) {
                let i = choose|i: int| 0 <= i < rest.len() && #[trigger] rest[i] == (key, value);
                assert(entries[i + 1] == (key, value));
            }
        }
    }
}

impl BytesMap {
    /// Whether `other` has every entry of this map.
    fn is_within(&self, other: &BytesMap) -> (r: bool)
        ensures
            r == (forall|i: int|
                0 <= i < self@.len() ==> entry_value(other@, (#[trigger] self@[i]).0) == Some(
                    self@[i].1,
                )),
            forall|i: int|
                0 <= i < self@.len() ==> entry_value(self@, (#[trigger] self@[i]).0) == Some(
                    self@[i].1,
                ),
    {
        proof {
            use_type_invariant(self);
            assert forall|i: int| 0 <= i < self@.len() implies entry_value(
                self@,
                (#[trigger] self@[i]).0,
            ) == Some(self@[i].1) by {
                lemma_entry_value(self@, self@[i].0, i);
            }
        }
        let mut i: usize = 0;
        while i < self.entries.len()
            invariant
                0 <= i <= self.entries@.len(),
                forall|k: int|
                    0 <= k < i ==> entry_value(other@, (#[trigger] self@[k]).0) == Some(
                        self@[k].1,
                    ),
                forall|k: int|
                    0 <= k < self@.len() ==> entry_value(self@, (#[trigger] self@[k]).0) == Some(
                        self@[k].1,
                    ),
            decreases self.entries@.len() - i,
        {
            let entry = &self.entries[i];
            assert(self@[i as int] == (entry.key@, entry.value@));
            match other.get(entry.key.as_str()) {
                Some(value) => {
                    if !text::same_bytes(value.as_slice(), entry.value.as_slice()) {
                        return false;
                    }
                },
                None => return false,
            }
            i = i + 1;
        }
        true
    }
}

impl Clone for BytesMap {
    fn clone(&self) -> (r: BytesMap)
        ensures
            r@ == self@,
    {
        proof {
            use_type_invariant(self);
        }
        let mut entries: Vec<Entry> = Vec::new();
        let mut i: usize = 0;
        while i < self.entries.len()
            invariant
                0 <= i <= self.entries@.len(),
                entries@.len() == i,
                forall|k: int|
                    0 <= k < i ==> (#[trigger] entries@[k]).key@ == self.entries@[k].key@
                        && entries@[k].value@ == self.entries@[k].value@,
            decreases self.entries@.len() - i,
        {
            let entry = &self.entries[i];
            entries.push(
                Entry { key: entry.key.clone(), value: slice_to_vec(entry.value.as_slice()) },
            );
            i = i + 1;
        }
        let ghost copy = Seq::new(entries@.len(), |i: int| (entries@[i].key@, entries@[i].value@));
        assert(copy =~= self@);
        BytesMap { entries }
    }
}

/// What is put under a key is found there, and what is under other keys stays.
pub proof fn get_after_insert(
    entries: Seq<(Seq<char>, Seq<u8>)>,
    key: Seq<char>,
    value: Seq<u8>,
    other: Seq<char>,
)
    ensures
        entry_value(with_entry(entries, key, value), other) == if other == key {
            Some(value)
        } else {
            entry_value(entries, other)
        },
    decreases entries.len(),
{
    let after = with_entry(entries, key, value);
    if entries.len() == 0 {
        assert(after.skip(1) =~= Seq::<(Seq<char>, Seq<u8>)>::empty());
    } else if entries[0].0 == key {
        assert(after.skip(1) =~= entries.skip(1));
    } else {
        assert(after.skip(1) =~= with_entry(entries.skip(1), key, value));
        get_after_insert(entries.skip(1), key, value, other);
    }
    reveal_with_fuel(entry_value, 2);
}

} // verus!
