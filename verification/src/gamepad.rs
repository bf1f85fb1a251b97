//! Gamepad notifications and what they do to the player slots and to the
//! axis values that are held from frame to frame.

use vstd::prelude::*;
use crate::action_map::ActionMap;
use crate::assoc::{
    distinct_keys, has_key, index_of, lemma_index_unique, lemma_put, lookup, put, without,
};
use crate::bindings::{BindingKey, DeviceClass};
use crate::phase::Snapshot;
use crate::players::{after_connect, after_disconnect, player_of};
use crate::strength::Strength;

verus! {

/// The last value that a gamepad reported for an axis bound to an action.
#[derive(Clone, Copy, Debug, PartialEq, Eq, Structural)]
pub struct AxisHold {
    pub strength: Strength,
    pub gamepad: usize,
}

/// What a gamepad tells the engine. `value` holds the bits of the signed
/// reading.
#[derive(Clone, Copy, Debug, PartialEq, Eq, Structural)]
pub enum PadEvent {
    Axis { gamepad: usize, axis: u32, value: u32 },
    Connected { gamepad: usize },
    Disconnected { gamepad: usize },
    Other,
}

/// What the engine tells of a connection or disconnection.
#[derive(Clone, Copy, Debug, PartialEq, Eq, Structural)]
pub enum PadNotice {
    Connected { gamepad: usize, player: usize },
    HouseFull { gamepad: usize },
    Disconnected { gamepad: usize, player: usize },
}

/// The axis holds, by action.
pub type Holds = Seq<(Seq<char>, AxisHold)>;

/// The part of the engine that gamepad notifications change.
pub ghost struct PadState {
    pub slots: Seq<Option<usize>>,
    pub holds: Holds,
    pub notices: Seq<PadNotice>,
}

/// The key of a gamepad button of `player`.
pub open spec fn button_key(player: usize, code: u32) -> BindingKey {
    BindingKey { class: DeviceClass::GamepadButton, code, player }
}

/// The key of a gamepad axis of `player`.
pub open spec fn axis_key(player: usize, code: u32) -> BindingKey {
    BindingKey { class: DeviceClass::GamepadAxis, code, player }
}

/// `holds` without the values that `gamepad` reported; the others keep
/// their order.
pub open spec fn release_holds(holds: Holds, gamepad: usize) -> Holds
    decreases holds.len(),
{
    if holds.len() == 0 {
        holds
    } else {
        let rest = release_holds(holds.drop_last(), gamepad);
        if holds.last().1.gamepad != gamepad {
            rest.push(holds.last())
        } else {
            rest
        }
    }
}

/// The state after one notification.
///
/// An axis value counts only from a gamepad that has a player handle, and
/// only where that player's axis is bound: its magnitude is then held for
/// the action, or, where it is zero, nothing is held for the action any
/// more. A gamepad that connects is seated if it can be. One that
/// disconnects gives up its slot and the values it reported.
pub open spec fn after_event(
    st: PadState,
    binds: Seq<(BindingKey, Seq<char>)>,
    ev: PadEvent,
) -> PadState {
    match ev {
        PadEvent::Axis { gamepad, axis, value } => match player_of(st.slots, gamepad) {
            Some(p) => match lookup(binds, axis_key(p, axis)) {
                Some(action) => PadState {
                    holds: if Strength::spec_of_reading(value).spec_is_zero() {
                        without(st.holds, action)
                    } else {
                        put(
                            st.holds,
                            action,
                            AxisHold { strength: Strength::spec_of_reading(value), gamepad },
                        )
                    },
                    ..st
                },
                None => st,
            },
            None => st,
        },
        PadEvent::Connected { gamepad } => {
            let slots = after_connect(st.slots, gamepad);
            PadState {
                slots,
                notices: st.notices.push(
                    match player_of(slots, gamepad) {
                        Some(player) => PadNotice::Connected { gamepad, player },
                        None => PadNotice::HouseFull { gamepad },
                    },
                ),
                ..st
            }
        },
        PadEvent::Disconnected { gamepad } => match player_of(st.slots, gamepad) {
            Some(player) => PadState {
                slots: after_disconnect(st.slots, gamepad),
                holds: release_holds(st.holds, gamepad),
                notices: st.notices.push(PadNotice::Disconnected { gamepad, player }),
            },
            None => st,
        },
        PadEvent::Other => st,
    }
}

/// The state after a run of notifications, taken in order.
pub open spec fn after_events(
    st: PadState,
    binds: Seq<(BindingKey, Seq<char>)>,
    evs: Seq<PadEvent>,
) -> PadState
    decreases evs.len(),
{
    if evs.len() == 0 {
        st
    } else {
        after_event(after_events(st, binds, evs.drop_last()), binds, evs.last())
    }
}

/// `current` after each held axis value is written to its action, in the
/// order of `holds`.
pub open spec fn apply_holds(current: Snapshot, holds: Holds) -> Snapshot
    decreases holds.len(),
{
    if holds.len() == 0 {
        current
    } else {
        put(apply_holds(current, holds.drop_last()), holds.last().0, holds.last().1.strength)
    }
}

/// Every action of `release_holds(holds, gamepad)` is an action of `holds`.
pub proof fn lemma_release_keys(holds: Holds, gamepad: usize, action: Seq<char>)
    requires
        has_key(release_holds(holds, gamepad), action),
    ensures
        has_key(holds, action),
    decreases holds.len(),
{
    if holds.len() > 0 {
        let rest = release_holds(holds.drop_last(), gamepad);
        let t = release_holds(holds, gamepad);
        let i = index_of(t, action);
        if i < rest.len() {
            assert(rest[i].0 == action);
            lemma_release_keys(holds.drop_last(), gamepad, action);
            let j = index_of(holds.drop_last(), action);
            assert(holds[j].0 == action);
        } else {
            assert(holds[holds.len() - 1].0 == action);
        }
    }
}

/// No value that `gamepad` reported is left after `release_holds`.
pub proof fn lemma_release_drops(holds: Holds, gamepad: usize, i: int)
    requires
        0 <= i < release_holds(holds, gamepad).len(),
    ensures
        release_holds(holds, gamepad)[i].1.gamepad != gamepad,
    decreases holds.len(),
{
    if holds.len() > 0 {
        let rest = release_holds(holds.drop_last(), gamepad);
        if i < rest.len() {
            lemma_release_drops(holds.drop_last(), gamepad, i);
        }
    }
}

/// After the held values are written, an action with a held value has
/// that value as its strength, and every other action is as it was.
pub proof fn lemma_apply_holds(current: Snapshot, holds: Holds, action: Seq<char>)
    requires
        distinct_keys(current),
        distinct_keys(holds),
    ensures
        distinct_keys(apply_holds(current, holds)),
        lookup(apply_holds(current, holds), action) == match lookup(holds, action) {
            Some(hold) => Some(hold.strength),
            None => lookup(current, action),
        },
    decreases holds.len(),
{
    if holds.len() > 0 {
        let rest = holds.drop_last();
        let last = holds.last();
        let before = apply_holds(current, rest);
        assert forall|i: int, j: int| 0 <= i < j < rest.len() implies (#[trigger] rest[i]).0 != (
        #[trigger] rest[j]).0 by {
            assert(holds[i].0 != holds[j].0);
        }
        lemma_apply_holds(current, rest, action);
        lemma_put(before, last.0, last.1.strength);
        if last.0 == action {
            lemma_index_unique(holds, action, holds.len() - 1);
        } else {
            if has_key(rest, action) {
                let i = index_of(rest, action);
                assert(holds[i] == rest[i]);
                lemma_index_unique(holds, action, i);
                lemma_index_unique(rest, action, i);
            }
            if has_key(holds, action) {
                let i = index_of(holds, action);
                assert(rest[i] == holds[i]);
            }
        }
    }
}

/// The holds without those of `gamepad`.
pub fn released(holds: &ActionMap<AxisHold>, gamepad: usize) -> (kept: ActionMap<AxisHold>)
    requires
        holds.wf(),
    ensures
        kept@ == release_holds(holds@, gamepad),
        kept.wf(),
{
    let mut kept: ActionMap<AxisHold> = ActionMap::new();
    let n = holds.len();
    let mut i: usize = 0;
    while i < n
        invariant
            i <= n,
            n == holds@.len(),
            holds.wf(),
            kept.wf(),
            kept@ == release_holds(holds@.take(i as int), gamepad),
        decreases n - i,
    {
        let hold = holds.value_at(i);
        proof {
            assert(holds@.take(i + 1).drop_last() =~= holds@.take(i as int));
            assert(holds@.take(i + 1).last() == holds@[i as int]);
        }
        if hold.gamepad != gamepad {
            let name = holds.action_at(i).clone();
            proof {
                if has_key(kept@, name@) {
                    lemma_release_keys(holds@.take(i as int), gamepad, name@);
                    let j = index_of(holds@.take(i as int), name@);
                    assert(holds@[j].0 == name@);
                    assert(holds@[j].0 != holds@[i as int].0);
                }
            }
            kept.push_new(name, hold);
        }
        i += 1;
    }
    proof {
        assert(holds@.take(n as int) =~= holds@);
    }
    kept
}

} // verus!
