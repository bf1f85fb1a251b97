//! The bounded pool of player slots and the gamepads that hold them.

use vstd::prelude::*;

verus! {

/// Player slots, each free or held by one connected gamepad.
pub struct PlayerSlots {
    slots: Vec<Option<usize>>,
}

impl View for PlayerSlots {
    type V = Seq<Option<usize>>;

    closed spec fn view(&self) -> Seq<Option<usize>> {
        self.slots@
    }
}

/// The gamepad `pad` holds some slot of `slots`.
pub open spec fn is_seated(slots: Seq<Option<usize>>, pad: usize) -> bool {
    exists|p: int| 0 <= p < slots.len() && #[trigger] slots[p] == Some(pad)
}

/// The slot that `pad` holds, where it holds one.
pub open spec fn seat_of(slots: Seq<Option<usize>>, pad: usize) -> int {
    choose|p: int| 0 <= p < slots.len() && #[trigger] slots[p] == Some(pad)
}

/// The player handle of `pad`, if it has one.
pub open spec fn player_of(slots: Seq<Option<usize>>, pad: usize) -> Option<usize> {
    if is_seated(slots, pad) {
        Some(seat_of(slots, pad) as usize)
    } else {
        None
    }
}

/// No gamepad holds two slots.
pub open spec fn one_seat_each(slots: Seq<Option<usize>>) -> bool {
    forall|p: int, q: int|
        0 <= p < q < slots.len() && (#[trigger] slots[p]).is_some() ==> slots[p] != (
        #[trigger] slots[q])
}

/// `p` is the lowest free slot.
pub open spec fn is_lowest_free(slots: Seq<Option<usize>>, p: int) -> bool {
    &&& 0 <= p < slots.len()
    &&& slots[p].is_none()
    &&& forall|q: int| 0 <= q < p ==> (#[trigger] slots[q]).is_some()
}

/// Every slot is taken.
pub open spec fn is_full(slots: Seq<Option<usize>>) -> bool {
    forall|q: int| 0 <= q < slots.len() ==> (#[trigger] slots[q]).is_some()
}

/// The pool after `pad` connects: a gamepad without a slot takes the
/// lowest free one; a full pool, or a gamepad that has a slot, changes
/// nothing.
pub open spec fn after_connect(slots: Seq<Option<usize>>, pad: usize) -> Seq<Option<usize>> {
    if is_seated(slots, pad) || is_full(slots) {
        slots
    } else {
        slots.update(choose|p: int| is_lowest_free(slots, p), Some(pad))
    }
}

/// The pool after `pad` disconnects: its slot, if it held one, is free.
pub open spec fn after_disconnect(slots: Seq<Option<usize>>, pad: usize) -> Seq<Option<usize>> {
    if is_seated(slots, pad) {
        slots.update(seat_of(slots, pad), None)
    } else {
        slots
    }
}

/// With one seat each, the slot of a gamepad is found at exactly one place.
pub proof fn lemma_seat_unique(slots: Seq<Option<usize>>, pad: usize, p: int)
    requires
        one_seat_each(slots),
        0 <= p < slots.len(),
        slots[p] == Some(pad),
    ensures
        is_seated(slots, pad),
        seat_of(slots, pad) == p,
        player_of(slots, pad) == Some(p as usize),
{
    let q = seat_of(slots, pad);
    assert(0 <= q < slots.len() && slots[q] == Some(pad));
    if q < p {
        assert(slots[q] != slots[p]);
    } else if p < q {
        assert(slots[p] != slots[q]);
    }
}

/// The lowest free slot is unique.
pub proof fn lemma_lowest_free_unique(slots: Seq<Option<usize>>, p: int)
    requires
        is_lowest_free(slots, p),
    ensures
        (choose|q: int| is_lowest_free(slots, q)) == p,
        !is_full(slots),
{
    let q = choose|q: int| is_lowest_free(slots, q);
    assert(is_lowest_free(slots, q));
    if q < p {
        assert(slots[q].is_some());
    } else if p < q {
        assert(slots[p].is_some());
    }
}

/// Two different gamepads never have the same player handle.
pub proof fn lemma_handles_injective(pool: &PlayerSlots, pad: usize, other: usize)
    requires
        pool.wf(),
        pad != other,
        pool.spec_player(pad).is_some(),
    ensures
        pool.spec_player(pad) != pool.spec_player(other),
{
    let p = seat_of(pool@, pad);
    assert(0 <= p < pool@.len() && pool@[p] == Some(pad));
    assert(pool@.len() == pool.slots.len());
    if is_seated(pool@, other) {
        let q = seat_of(pool@, other);
        assert(0 <= q < pool@.len() && pool@[q] == Some(other));
    }
}

impl PlayerSlots {
    /// No gamepad holds two slots.
    pub open spec fn wf(&self) -> bool {
        one_seat_each(self@)
    }

    /// The player handle of `pad`, if it has one.
    pub open spec fn spec_player(&self, pad: usize) -> Option<usize> {
        player_of(self@, pad)
    }

    /// A pool of `size` free slots.
    pub fn new(size: usize) -> (pool: Self)
        ensures
            pool@.len() == size,
            forall|p: int| 0 <= p < size ==> (#[trigger] pool@[p]).is_none(),
            pool.wf(),
    {
        let mut slots: Vec<Option<usize>> = Vec::new();
        let mut i: usize = 0;
        while i < size
            invariant
                i <= size,
                slots@.len() == i,
                forall|p: int| 0 <= p < i ==> (#[trigger] slots@[p]).is_none(),
            decreases size - i,
        {
            slots.push(None);
            i += 1;
        }
        PlayerSlots { slots }
    }

    /// The number of slots, free or taken.
    pub fn size(&self) -> (n: usize)
        ensures
            n == self@.len(),
    {
        self.slots.len()
    }

    /// The gamepad that holds slot `player`.
    pub fn gamepad_of(&self, player: usize) -> (pad: Option<usize>)
        ensures
            pad == if player < self@.len() {
                self@[player as int]
            } else {
                None
            },
    {
        if player < self.slots.len() {
            self.slots[player]
        } else {
            None
        }
    }

    /// The lowest free slot.
    pub fn get_available_player_handle(&self) -> (handle: Option<usize>)
        ensures
            match handle {
                Some(p) => is_lowest_free(self@, p as int),
                None => is_full(self@),
            },
    {
        let mut i: usize = 0;
        while i < self.slots.len()
            invariant
                i <= self.slots@.len(),
                forall|q: int| 0 <= q < i ==> (#[trigger] self.slots@[q]).is_some(),
            decreases self.slots@.len() - i,
        {
            if self.slots[i].is_none() {
                return Some(i);
            }
            i += 1;
        }
        None
    }

    /// The player handle of the gamepad `pad`.
    pub fn get_player_handle_for_gamepad(&self, pad: usize) -> (handle: Option<usize>)
        requires
            self.wf(),
        ensures
            handle == self.spec_player(pad),
            match handle {
                Some(p) => p < self@.len() && self@[p as int] == Some(pad),
                None => !is_seated(self@, pad),
            },
    {
        let mut i: usize = 0;
        while i < self.slots.len()
            invariant
                i <= self.slots@.len(),
                self.wf(),
                forall|q: int| 0 <= q < i ==> (#[trigger] self.slots@[q]) != Some(pad),
            decreases self.slots@.len() - i,
        {
            match self.slots[i] {
                Some(g) => {
                    if g == pad {
                        proof {
                            lemma_seat_unique(self@, pad, i as int);
                        }
                        return Some(i);
                    }
                },
                None => {},
            }
            i += 1;
        }
        None
    }

    /// Seats a gamepad that connects. Returns its handle; `None` where the
    /// pool is full and the gamepad stays without one.
    pub fn connect(&mut self, pad: usize) -> (handle: Option<usize>)
        requires
            old(self).wf(),
        ensures
            final(self)@ == after_connect(old(self)@, pad),
            final(self).wf(),
            handle == final(self).spec_player(pad),
            handle.is_none() <==> (is_full(old(self)@) && !is_seated(old(self)@, pad)),
    {
        match self.get_player_handle_for_gamepad(pad) {
            Some(p) => Some(p),
            None => {
                match self.get_available_player_handle() {
                    Some(p) => {
                        proof {
                            lemma_lowest_free_unique(self@, p as int);
                        }
                        self.slots[p] = Some(pad);
                        proof {
                            assert forall|a: int, b: int|
                                0 <= a < b < self@.len() && (
                                #[trigger] self@[a]).is_some() implies self@[a] != (
                            #[trigger] self@[b]) by {
                                if a != p && b != p {
                                    assert(old(self)@[a].is_some());
                                    assert(old(self)@[a] != old(self)@[b]);
                                } else if a == p {
                                    assert(old(self)@[b] != Some(pad));
                                } else {
                                    assert(old(self)@[a] != Some(pad));
                                }
                            }
                            lemma_seat_unique(self@, pad, p as int);
                        }
                        Some(p)
                    },
                    None => {
                        proof {
                            assert(!is_seated(self@, pad));
                        }
                        None
                    },
                }
            },
        }
    }

    /// Frees the slot of a gamepad that disconnects. Returns the handle it
    /// held, `None` where it held none.
    pub fn disconnect(&mut self, pad: usize) -> (handle: Option<usize>)
        requires
            old(self).wf(),
        ensures
            final(self)@ == after_disconnect(old(self)@, pad),
            final(self).wf(),
            handle == old(self).spec_player(pad),
            final(self).spec_player(pad).is_none(),
    {
        match self.get_player_handle_for_gamepad(pad) {
            Some(p) => {
                proof {
                    lemma_seat_unique(self@, pad, p as int);
                }
                self.slots[p] = None;
                proof {
                    assert(self@ =~= after_disconnect(old(self)@, pad));
                    assert forall|a: int, b: int|
                        0 <= a < b < self@.len() && (#[trigger] self@[a]).is_some() implies self@[a]
                        != (#[trigger] self@[b]) by {
                        if b != p {
                            assert(old(self)@[a].is_some());
                            assert(old(self)@[a] != old(self)@[b]);
                        }
                    }
                    if is_seated(self@, pad) {
                        let q = seat_of(self@, pad);
                        assert(old(self)@[q] == Some(pad));
                        lemma_seat_unique(old(self)@, pad, q);
                    }
                }
                Some(p)
            },
            None => None,
        }
    }
}

} // verus!
