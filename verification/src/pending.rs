//! The ledger requests that wait for a reply, by transaction.

use vstd::prelude::*;

use crate::text;

verus! {

/// Correlates the peer's replies with ledger requests in flight: a transaction of
/// a channel.
#[derive(Debug, Clone)]
pub struct TxKey {
    pub channel_id: String,
    pub tx_id: String,
}

impl View for TxKey {
    type V = (Seq<char>, Seq<char>);

    open spec fn view(&self) -> (Seq<char>, Seq<char>) {
        (self.channel_id@, self.tx_id@)
    }
}

struct Waiting<T> {
    key: TxKey,
    waiter: T,
}

/// Who waits for the reply to which transaction's request; at most one waiter per
/// transaction.
pub struct Pending<T> {
    list: Vec<Waiting<T>>,
}

impl<T> View for Pending<T> {
    type V = Map<(Seq<char>, Seq<char>), T>;

    closed spec fn view(&self) -> Map<(Seq<char>, Seq<char>), T> {
        waiting_map(self.list@)
    }
}

/// The waiters of a list by transaction.
closed spec fn waiting_map<T>(list: Seq<Waiting<T>>) -> Map<(Seq<char>, Seq<char>), T>
    decreases list.len(),
{
    if list.len() == 0 {
        Map::empty()
    } else {
        waiting_map(list.drop_last()).insert(list.last().key@, list.last().waiter)
    }
}

closed spec fn keys_apart<T>(list: Seq<Waiting<T>>) -> bool {
    forall|i: int, j: int|
        0 <= i < j < list.len() ==> (#[trigger] list[i]).key@ != (#[trigger] list[j]).key@
}

proof fn lemma_has<T>(list: Seq<Waiting<T>>, key: (Seq<char>, Seq<char>))
    ensures
        waiting_map(list).dom().contains(key) <==> exists|i: int|
            0 <= i < list.len() && (#[trigger] list[i]).key@ == key,
    decreases list.len(),
{
    if list.len() > 0 {
        let shorter = list.drop_last();
        lemma_has(shorter, key);
        if waiting_map(list).dom().contains(key) {
            if list.last().key@ == key {
                assert(list[list.len() - 1].key@ == key);
            } else {
                let i = choose|i: int| 0 <= i < shorter.len() && (#[trigger] shorter[i]).key@ == key;
                assert(list[i].key@ == key);
            }
        }
        if exists|i: int| 0 <= i < list.len() && (#[trigger] list[i]).key@ == key {
            let i = choose|i: int| 0 <= i < list.len() && (#[trigger] list[i]).key@ == key;
            if i < shorter.len() {
                assert(shorter[i].key@ == key);
            }
        }
    }
}

proof fn lemma_at<T>(list: Seq<Waiting<T>>, i: int)
    requires
        keys_apart(list),
        0 <= i < list.len(),
    ensures
        waiting_map(list).dom().contains(list[i].key@),
        waiting_map(list)[list[i].key@] == list[i].waiter,
        waiting_map(list.remove(i)) == waiting_map(list).remove(list[i].key@),
    decreases list.len(),
{
    let shorter = list.drop_last();
    let n = list.len() - 1;
    if i == n {
        assert(list.remove(i) =~= shorter);
        lemma_has(shorter, list[i].key@);
        assert(waiting_map(list.remove(i)) =~= waiting_map(list).remove(list[i].key@));
    } else {
        assert(shorter[i] == list[i]);
        lemma_at(shorter, i);
        assert(list.remove(i).drop_last() =~= shorter.remove(i));
        assert(list.remove(i).last() == list.last());
        assert(list[i].key@ != list[n].key@);
        assert(waiting_map(list.remove(i)) =~= waiting_map(list).remove(list[i].key@));
    }
}

impl<T> Pending<T> {
    #[verifier::type_invariant]
    closed spec fn one_waiter_each(&self) -> bool {
        keys_apart(self.list@)
    }

    /// Nobody waits.
    pub fn new() -> (r: Pending<T>)
        ensures
            r@ == Map::<(Seq<char>, Seq<char>), T>::empty(),
    {
        Pending { list: Vec::new() }
    }

    fn find(&self, key: &TxKey) -> (r: Option<usize>)
        ensures
            match r {
                Some(i) => i < self.list@.len() && self.list@[i as int].key@ == key@,
                None => forall|i: int|
                    0 <= i < self.list@.len() ==> (#[trigger] self.list@[i]).key@ != key@,
            },
    {
        let mut i: usize = 0;
        while i < self.list.len()
            invariant
                0 <= i <= self.list@.len(),
                forall|k: int| 0 <= k < i ==> (#[trigger] self.list@[k]).key@ != key@,
            decreases self.list@.len() - i,
        {
            let entry = &self.list[i].key;
            if text::same_text(entry.channel_id.as_str(), key.channel_id.as_str())
                && text::same_text(entry.tx_id.as_str(), key.tx_id.as_str()) {
                return Some(i);
            }
            i = i + 1;
        }
        None
    }

    /// Lets `waiter` wait, unless somebody already does for the transaction.
    pub fn insert(&mut self, key: TxKey, waiter: T) -> (r: bool)
        ensures
            r == !old(self)@.dom().contains(key@),
            final(self)@ == if r {
                old(self)@.insert(key@, waiter)
            } else {
                old(self)@
            },
    {
        proof {
            use_type_invariant(&*self);
            lemma_has(self.list@, key@);
        }
        if self.find(&key).is_some() {
            return false;
        }
        let mut list: Vec<Waiting<T>> = Vec::new();
        std::mem::swap(&mut list, &mut self.list);
        let ghost before = list@;
        list.push(Waiting { key, waiter });
        assert(list@.drop_last() =~= before);
        *self = Pending { list };
        true
    }

    /// Ends the wait for a reply to the transaction's request.
    pub fn remove(&mut self, key: &TxKey) -> (r: Option<T>)
        ensures
            match r {
                Some(waiter) => old(self)@.dom().contains(key@) && waiter == old(self)@[key@],
                None => !old(self)@.dom().contains(key@),
            },
            final(self)@ == old(self)@.remove(key@),
    {
        proof {
            use_type_invariant(&*self);
            lemma_has(self.list@, key@);
        }
        match self.find(key) {
            None => {
                assert(self@ =~= old(self)@.remove(key@));
                None
            },
            Some(i) => {
                proof {
                    lemma_at(self.list@, i as int);
                }
                let mut list: Vec<Waiting<T>> = Vec::new();
                std::mem::swap(&mut list, &mut self.list);
                let ghost before = list@;
                let found = list.remove(i);
                assert(list@ =~= before.remove(i as int));
                assert(keys_apart(list@));
                *self = Pending { list };
                Some(found.waiter)
            },
        }
    }
}

} // verus!
