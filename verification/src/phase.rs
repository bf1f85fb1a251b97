//! Lifecycle phases of an action, read off two consecutive snapshots.

use vstd::prelude::*;
use crate::assoc::has_key;
use crate::strength::Strength;

verus! {

/// A strength snapshot: action names with their strength, in the order in
/// which they were first written.
pub type Snapshot = Seq<(Seq<char>, Strength)>;

/// The action contributes in this frame.
pub open spec fn active(current: Snapshot, previous: Snapshot, action: Seq<char>) -> bool {
    has_key(current, action)
}

/// The action contributes in this frame and did not in the one before.
pub open spec fn just_begun(current: Snapshot, previous: Snapshot, action: Seq<char>) -> bool {
    has_key(current, action) && !has_key(previous, action)
}

/// The action contributes in this frame and did in the one before.
pub open spec fn in_progress(current: Snapshot, previous: Snapshot, action: Seq<char>) -> bool {
    has_key(current, action) && has_key(previous, action)
}

/// The action contributed in the frame before and no longer does.
pub open spec fn just_ended(current: Snapshot, previous: Snapshot, action: Seq<char>) -> bool {
    !has_key(current, action) && has_key(previous, action)
}

/// The entries of `s` whose action is in `other` exactly when `present`
/// says so, in the order of `s`.
pub open spec fn select(s: Snapshot, other: Snapshot, present: bool) -> Snapshot
    decreases s.len(),
{
    if s.len() == 0 {
        s
    } else {
        let rest = select(s.drop_last(), other, present);
        if has_key(other, s.last().0) == present {
            rest.push(s.last())
        } else {
            rest
        }
    }
}

/// The action names of `s`, in order.
pub open spec fn names(s: Snapshot) -> Seq<Seq<char>> {
    Seq::new(s.len(), |i: int| s[i].0)
}

/// An action in neither snapshot is in no phase.
pub proof fn lemma_absent_action_has_no_phase(
    current: Snapshot,
    previous: Snapshot,
    action: Seq<char>,
)
    requires
        !has_key(current, action),
        !has_key(previous, action),
    ensures
        !active(current, previous, action),
        !just_begun(current, previous, action),
        !in_progress(current, previous, action),
        !just_ended(current, previous, action),
{
}

/// No action begins and ends in the same frame; one that begins or is in
/// progress is active, and one that has ended is not.
pub proof fn lemma_phases_exclusive(current: Snapshot, previous: Snapshot, action: Seq<char>)
    ensures
        !(just_begun(current, previous, action) && just_ended(current, previous, action)),
        !(just_begun(current, previous, action) && in_progress(current, previous, action)),
        !(in_progress(current, previous, action) && just_ended(current, previous, action)),
        active(current, previous, action) <==> (just_begun(current, previous, action)
            || in_progress(current, previous, action)),
        just_ended(current, previous, action) ==> !active(current, previous, action),
{
}

/// The lists that events are drawn from hold an action exactly when it is
/// in the phase of that kind: `select(current, previous, false)` for what
/// has begun, `select(current, previous, true)` for what is in progress,
/// and `select(previous, current, false)` for what has ended.
pub proof fn lemma_selection_matches_phase(
    current: Snapshot,
    previous: Snapshot,
    action: Seq<char>,
)
    ensures
        has_key(select(current, previous, false), action) <==> just_begun(
            current,
            previous,
            action,
        ),
        has_key(select(current, previous, true), action) <==> in_progress(
            current,
            previous,
            action,
        ),
        has_key(select(previous, current, false), action) <==> just_ended(
            current,
            previous,
            action,
        ),
{
    lemma_select_keys(current, previous, false, action);
    lemma_select_keys(current, previous, true, action);
    lemma_select_keys(previous, current, false, action);
}

/// `select` keeps exactly the entries that pass, and each entry of the
/// result stands in `s`.
pub proof fn lemma_select_keys(s: Snapshot, other: Snapshot, present: bool, action: Seq<char>)
    ensures
        has_key(select(s, other, present), action) <==> (has_key(s, action) && has_key(
            other,
            action,
        ) == present),
    decreases s.len(),
{
    let t = select(s, other, present);
    if s.len() == 0 {
    } else {
        let rest = select(s.drop_last(), other, present);
        lemma_select_keys(s.drop_last(), other, present, action);
        let last = s.last();
        if has_key(t, action) {
            let i = crate::assoc::index_of(t, action);
            if i < rest.len() {
                assert(rest[i].0 == action);
                let j = crate::assoc::index_of(s.drop_last(), action);
                assert(s[j].0 == action);
            } else {
                assert(s[s.len() - 1].0 == action);
            }
        }
        if has_key(s, action) && has_key(other, action) == present {
            let j = crate::assoc::index_of(s, action);
            if j < s.len() - 1 {
                assert(s.drop_last()[j].0 == action);
                let i = crate::assoc::index_of(rest, action);
                assert(t[i].0 == action);
            } else {
                assert(t[t.len() - 1].0 == action);
            }
        }
    }
}

} // verus!
