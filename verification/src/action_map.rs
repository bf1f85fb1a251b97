//! An ordered map from action names to values, the storage behind the
//! strength snapshots.

use vstd::prelude::*;
use crate::assoc::{distinct_keys, has_key, index_of, lookup, put, without, lemma_index_unique};

verus! {

/// Action names with one value each, in order of first insertion.
pub struct ActionMap<V> {
    entries: Vec<(String, V)>,
}

impl<V> View for ActionMap<V> {
    type V = Seq<(Seq<char>, V)>;

    closed spec fn view(&self) -> Seq<(Seq<char>, V)> {
        Seq::new(self.entries@.len(), |i: int| (self.entries@[i].0@, self.entries@[i].1))
    }
}

impl<V: Copy> ActionMap<V> {
    /// No action name is stored twice.
    pub open spec fn wf(&self) -> bool {
        distinct_keys(self@)
    }

    /// Whether `action` has an entry.
    pub open spec fn spec_contains(&self, action: Seq<char>) -> bool {
        has_key(self@, action)
    }

    /// The value stored for `action`, if any.
    pub open spec fn spec_get(&self, action: Seq<char>) -> Option<V> {
        lookup(self@, action)
    }

    pub fn new() -> (m: Self)
        ensures
            m@ == Seq::<(Seq<char>, V)>::empty(),
            m.wf(),
    {
        let m = ActionMap { entries: Vec::new() };
        assert(m@ =~= Seq::<(Seq<char>, V)>::empty());
        m
    }

    pub fn len(&self) -> (n: usize)
        ensures
            n == self@.len(),
    {
        self.entries.len()
    }

    /// The name of the entry at position `i`.
    pub fn action_at(&self, i: usize) -> (name: &String)
        requires
            i < self@.len(),
        ensures
            name@ == self@[i as int].0,
    {
        &self.entries[i].0
    }

    /// The value of the entry at position `i`.
    pub fn value_at(&self, i: usize) -> (v: V)
        requires
            i < self@.len(),
        ensures
            v == self@[i as int].1,
    {
        self.entries[i].1
    }

    /// The position of the entry for `action`.
    pub fn find(&self, action: &String) -> (at: Option<usize>)
        ensures
            match at {
                Some(i) => i < self@.len() && self@[i as int].0 == action@ && (self.wf()
                    ==> index_of(self@, action@) == i),
                None => !has_key(self@, action@),
            },
            at.is_some() == has_key(self@, action@),
    {
        let mut i: usize = 0;
        while i < self.entries.len()
            invariant
                i <= self.entries@.len(),
                forall|j: int| 0 <= j < i ==> (#[trigger] self@[j]).0 != action@,
            decreases self.entries@.len() - i,
        {
            if self.entries[i].0 == *action {
                proof {
                    assert(self@[i as int].0 == action@);
                    if self.wf() {
                        lemma_index_unique(self@, action@, i as int);
                    }
                }
                return Some(i);
            }
            i += 1;
        }
        None
    }

    pub fn contains(&self, action: &String) -> (b: bool)
        ensures
            b == self.spec_contains(action@),
    {
        self.find(action).is_some()
    }

    pub fn get(&self, action: &String) -> (v: Option<V>)
        requires
            self.wf(),
        ensures
            v == self.spec_get(action@),
    {
        match self.find(action) {
            Some(i) => Some(self.entries[i].1),
            None => None,
        }
    }

    /// Stores `value` for `action`, over whatever stood there.
    pub fn set(&mut self, action: String, value: V)
        requires
            old(self).wf(),
        ensures
            final(self)@ == put(old(self)@, action@, value),
            final(self).wf(),
    {
        proof {
            crate::assoc::lemma_put(self@, action@, value);
        }
        match self.find(&action) {
            Some(i) => {
                self.entries[i].1 = value;
                assert(self@ =~= put(old(self)@, action@, value));
            },
            None => {
                self.entries.push((action, value));
                assert(self@ =~= put(old(self)@, action@, value));
            },
        }
    }

    /// Appends an entry for an action that has none.
    pub fn push_new(&mut self, action: String, value: V)
        requires
            old(self).wf(),
            !has_key(old(self)@, action@),
        ensures
            final(self)@ == old(self)@.push((action@, value)),
            final(self).wf(),
    {
        proof {
            crate::assoc::lemma_put(self@, action@, value);
        }
        self.entries.push((action, value));
        assert(self@ =~= old(self)@.push((action@, value)));
    }

    /// Drops the entry for `action`, if there is one.
    pub fn remove(&mut self, action: &String)
        requires
            old(self).wf(),
        ensures
            final(self)@ == without(old(self)@, action@),
            final(self).wf(),
    {
        proof {
            crate::assoc::lemma_without(self@, action@);
        }
        match self.find(action) {
            Some(i) => {
                let _ = self.entries.remove(i);
                assert(self@ =~= without(old(self)@, action@));
            },
            None => {},
        }
    }

    /// Hands out the whole content and leaves the map empty.
    pub fn take(&mut self) -> (content: Self)
        ensures
            content@ == old(self)@,
            final(self)@ == Seq::<(Seq<char>, V)>::empty(),
            final(self).wf(),
    {
        let mut content = ActionMap { entries: Vec::new() };
        core::mem::swap(&mut self.entries, &mut content.entries);
        assert(self@ =~= Seq::<(Seq<char>, V)>::empty());
        assert(content@ =~= old(self)@);
        content
    }
}

} // verus!
