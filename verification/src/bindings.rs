//! The binding registry: which physical input stands for which action.

use vstd::prelude::*;
use crate::assoc::{distinct_keys, has_key, index_of, lookup, put, without, lemma_index_unique};

verus! {

/// The kinds of physical input source.
#[derive(Clone, Copy, Debug, PartialEq, Eq, Structural)]
pub enum DeviceClass {
    Keyboard,
    MouseButton,
    MouseAxis,
    GamepadButton,
    GamepadAxis,
}

/// One physical input: a code within its device class, for one player.
#[derive(Clone, Copy, Debug, PartialEq, Eq, Structural)]
pub struct BindingKey {
    pub class: DeviceClass,
    pub code: u32,
    pub player: usize,
}

/// Physical inputs with the action each is bound to, in binding order.
pub struct Bindings {
    entries: Vec<(BindingKey, String)>,
}

impl View for Bindings {
    type V = Seq<(BindingKey, Seq<char>)>;

    closed spec fn view(&self) -> Seq<(BindingKey, Seq<char>)> {
        Seq::new(self.entries@.len(), |i: int| (self.entries@[i].0, self.entries@[i].1@))
    }
}

impl Bindings {
    /// No physical input is bound twice.
    pub open spec fn wf(&self) -> bool {
        distinct_keys(self@)
    }

    /// The action bound to `key`, if any.
    pub open spec fn spec_action(&self, key: BindingKey) -> Option<Seq<char>> {
        lookup(self@, key)
    }

    pub fn new() -> (b: Self)
        ensures
            b@ == Seq::<(BindingKey, Seq<char>)>::empty(),
            b.wf(),
    {
        let b = Bindings { entries: Vec::new() };
        assert(b@ =~= Seq::<(BindingKey, Seq<char>)>::empty());
        b
    }

    pub fn len(&self) -> (n: usize)
        ensures
            n == self@.len(),
    {
        self.entries.len()
    }

    /// The physical input of the binding at position `i`.
    pub fn key_at(&self, i: usize) -> (key: BindingKey)
        requires
            i < self@.len(),
        ensures
            key == self@[i as int].0,
    {
        self.entries[i].0
    }

    /// The action of the binding at position `i`.
    pub fn action_at(&self, i: usize) -> (name: &String)
        requires
            i < self@.len(),
        ensures
            name@ == self@[i as int].1,
    {
        &self.entries[i].1
    }

    /// The position of the binding for `key`.
    pub fn find(&self, key: BindingKey) -> (at: Option<usize>)
        ensures
            match at {
                Some(i) => i < self@.len() && self@[i as int].0 == key && (self.wf() ==> index_of(
                    self@,
                    key,
                ) == i),
                None => !has_key(self@, key),
            },
            at.is_some() == has_key(self@, key),
    {
        let mut i: usize = 0;
        while i < self.entries.len()
            invariant
                i <= self.entries@.len(),
                forall|j: int| 0 <= j < i ==> (#[trigger] self@[j]).0 != key,
            decreases self.entries@.len() - i,
        {
            if self.entries[i].0 == key {
                proof {
                    assert(self@[i as int].0 == key);
                    if self.wf() {
                        lemma_index_unique(self@, key, i as int);
                    }
                }
                return Some(i);
            }
            i += 1;
        }
        None
    }

    /// The action bound to exactly `key`.
    pub fn action(&self, key: BindingKey) -> (name: Option<&String>)
        requires
            self.wf(),
        ensures
            match name {
                Some(a) => self.spec_action(key) == Some(a@),
                None => self.spec_action(key).is_none(),
            },
    {
        match self.find(key) {
            Some(i) => Some(&self.entries[i].1),
            None => None,
        }
    }

    /// Binds `key` to `action`; an earlier binding of `key` is replaced
    /// where it stands.
    pub fn bind(&mut self, key: BindingKey, action: String)
        requires
            old(self).wf(),
        ensures
            final(self)@ == put(old(self)@, key, action@),
            final(self).wf(),
    {
        proof {
            crate::assoc::lemma_put(self@, key, action@);
        }
        match self.find(key) {
            Some(i) => {
                self.entries[i].1 = action;
                assert(self@ =~= put(old(self)@, key, action@));
            },
            None => {
                self.entries.push((key, action));
                assert(self@ =~= put(old(self)@, key, action@));
            },
        }
    }

    /// Removes the binding of `key`; nothing happens where there is none.
    pub fn unbind(&mut self, key: BindingKey)
        requires
            old(self).wf(),
        ensures
            final(self)@ == without(old(self)@, key),
            final(self).wf(),
    {
        proof {
            crate::assoc::lemma_without(self@, key);
        }
        match self.find(key) {
            Some(i) => {
                let _ = self.entries.remove(i);
                assert(self@ =~= without(old(self)@, key));
            },
            None => {},
        }
    }
}

} // verus!
