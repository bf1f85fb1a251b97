//! What the device samplers write into the current snapshot.

use vstd::prelude::*;
use crate::assoc::{distinct_keys, lemma_put, lookup, put};
use crate::bindings::{BindingKey, DeviceClass};
use crate::pad_button::spec_button_of_code;
use crate::phase::Snapshot;
use crate::strength::Strength;
use bevy::input::gamepad::GamepadButtonType;

verus! {

/// The binding `key` is a key or button of `class` whose code is pressed.
pub open spec fn key_hit(key: BindingKey, class: DeviceClass, pressed: Seq<u32>) -> bool {
    key.class == class && pressed.contains(key.code)
}

/// The binding `key` is a gamepad button of a player whose gamepad has
/// that button among `held`. `held` pairs a gamepad with a button.
pub open spec fn pad_hit(
    key: BindingKey,
    slots: Seq<Option<usize>>,
    held: Set<(usize, GamepadButtonType)>,
) -> bool {
    &&& key.class == DeviceClass::GamepadButton
    &&& key.player < slots.len()
    &&& match (slots[key.player as int], spec_button_of_code(key.code)) {
        (Some(gamepad), Some(button)) => held.contains((gamepad, button)),
        _ => false,
    }
}

/// `current` after full strength is written for each binding of `class`
/// whose code is pressed, in binding order.
pub open spec fn press_keys(
    current: Snapshot,
    binds: Seq<(BindingKey, Seq<char>)>,
    class: DeviceClass,
    pressed: Seq<u32>,
) -> Snapshot
    decreases binds.len(),
{
    if binds.len() == 0 {
        current
    } else {
        let before = press_keys(current, binds.drop_last(), class, pressed);
        if key_hit(binds.last().0, class, pressed) {
            put(before, binds.last().1, Strength::spec_full())
        } else {
            before
        }
    }
}

/// `current` after full strength is written for each gamepad button
/// binding that is hit, in binding order.
pub open spec fn press_pads(
    current: Snapshot,
    binds: Seq<(BindingKey, Seq<char>)>,
    slots: Seq<Option<usize>>,
    held: Set<(usize, GamepadButtonType)>,
) -> Snapshot
    decreases binds.len(),
{
    if binds.len() == 0 {
        current
    } else {
        let before = press_pads(current, binds.drop_last(), slots, held);
        if pad_hit(binds.last().0, slots, held) {
            put(before, binds.last().1, Strength::spec_full())
        } else {
            before
        }
    }
}

/// The key of a mouse axis.
pub open spec fn mouse_axis_key(code: u32) -> BindingKey {
    BindingKey { class: DeviceClass::MouseAxis, code, player: 0 }
}

/// `current` after the magnitude of each reading that is not zero is
/// written to the action its axis is bound to, in the order of the
/// readings. A reading pairs an axis code with the bits of its value.
pub open spec fn move_axes(
    current: Snapshot,
    binds: Seq<(BindingKey, Seq<char>)>,
    readings: Seq<(u32, u32)>,
) -> Snapshot
    decreases readings.len(),
{
    if readings.len() == 0 {
        current
    } else {
        let before = move_axes(current, binds, readings.drop_last());
        let (code, value) = readings.last();
        match lookup(binds, mouse_axis_key(code)) {
            Some(action) => if Strength::spec_of_reading(value).spec_is_zero() {
                before
            } else {
                put(before, action, Strength::spec_of_reading(value))
            },
            None => before,
        }
    }
}

/// Some binding of `action` is a key or button of `class` that is pressed.
pub open spec fn some_key_hit(
    binds: Seq<(BindingKey, Seq<char>)>,
    class: DeviceClass,
    pressed: Seq<u32>,
    action: Seq<char>,
) -> bool {
    exists|i: int|
        0 <= i < binds.len() && (#[trigger] binds[i]).1 == action && key_hit(
            binds[i].0,
            class,
            pressed,
        )
}

/// Some binding of `action` is a gamepad button that is hit.
pub open spec fn some_pad_hit(
    binds: Seq<(BindingKey, Seq<char>)>,
    slots: Seq<Option<usize>>,
    held: Set<(usize, GamepadButtonType)>,
    action: Seq<char>,
) -> bool {
    exists|i: int|
        0 <= i < binds.len() && (#[trigger] binds[i]).1 == action && pad_hit(
            binds[i].0,
            slots,
            held,
        )
}

/// After the keys or buttons of a class are sampled, an action with a
/// binding that is hit has full strength, and every other action is as it
/// was: there if and only if it was there, with the strength it had.
pub proof fn lemma_press_keys(
    current: Snapshot,
    binds: Seq<(BindingKey, Seq<char>)>,
    class: DeviceClass,
    pressed: Seq<u32>,
    action: Seq<char>,
)
    requires
        distinct_keys(current),
    ensures
        distinct_keys(press_keys(current, binds, class, pressed)),
        lookup(press_keys(current, binds, class, pressed), action) == if some_key_hit(
            binds,
            class,
            pressed,
            action,
        ) {
            Some(Strength::spec_full())
        } else {
            lookup(current, action)
        },
    decreases binds.len(),
{
    if binds.len() > 0 {
        let rest = binds.drop_last();
        let last = binds.last();
        let before = press_keys(current, rest, class, pressed);
        lemma_press_keys(current, rest, class, pressed, action);
        if some_key_hit(rest, class, pressed, action) {
            let i = choose|i: int|
                0 <= i < rest.len() && (#[trigger] rest[i]).1 == action && key_hit(
                    rest[i].0,
                    class,
                    pressed,
                );
            assert(binds[i] == rest[i]);
        }
        if some_key_hit(binds, class, pressed, action) {
            let i = choose|i: int|
                0 <= i < binds.len() && (#[trigger] binds[i]).1 == action && key_hit(
                    binds[i].0,
                    class,
                    pressed,
                );
            if i < rest.len() {
                assert(rest[i] == binds[i]);
            }
        }
        if key_hit(last.0, class, pressed) {
            lemma_put(before, last.1, Strength::spec_full());
            assert(binds[binds.len() - 1] == last);
        }
    }
}

/// After the gamepad buttons are sampled, an action with a binding that
/// is hit has full strength, and every other action is as it was.
pub proof fn lemma_press_pads(
    current: Snapshot,
    binds: Seq<(BindingKey, Seq<char>)>,
    slots: Seq<Option<usize>>,
    held: Set<(usize, GamepadButtonType)>,
    action: Seq<char>,
)
    requires
        distinct_keys(current),
    ensures
        distinct_keys(press_pads(current, binds, slots, held)),
        lookup(press_pads(current, binds, slots, held), action) == if some_pad_hit(
            binds,
            slots,
            held,
            action,
        ) {
            Some(Strength::spec_full())
        } else {
            lookup(current, action)
        },
    decreases binds.len(),
{
    if binds.len() > 0 {
        let rest = binds.drop_last();
        let last = binds.last();
        let before = press_pads(current, rest, slots, held);
        lemma_press_pads(current, rest, slots, held, action);
        if some_pad_hit(rest, slots, held, action) {
            let i = choose|i: int|
                0 <= i < rest.len() && (#[trigger] rest[i]).1 == action && pad_hit(
                    rest[i].0,
                    slots,
                    held,
                );
            assert(binds[i] == rest[i]);
        }
        if some_pad_hit(binds, slots, held, action) {
            let i = choose|i: int|
                0 <= i < binds.len() && (#[trigger] binds[i]).1 == action && pad_hit(
                    binds[i].0,
                    slots,
                    held,
                );
            if i < rest.len() {
                assert(rest[i] == binds[i]);
            }
        }
        if pad_hit(last.0, slots, held) {
            lemma_put(before, last.1, Strength::spec_full());
            assert(binds[binds.len() - 1] == last);
        }
    }
}

/// A gamepad without a player handle hits no binding, whatever it has
/// pressed.
pub proof fn lemma_unseated_pad_is_inert(
    key: BindingKey,
    slots: Seq<Option<usize>>,
    held: Set<(usize, GamepadButtonType)>,
)
    requires
        forall|gamepad: usize, button: GamepadButtonType| #[trigger]
            held.contains((gamepad, button)) ==> !crate::players::is_seated(slots, gamepad),
    ensures
        !pad_hit(key, slots, held),
{
    if pad_hit(key, slots, held) {
        let gamepad = slots[key.player as int].unwrap();
        let button = spec_button_of_code(key.code).unwrap();
        assert(held.contains((gamepad, button)));
        assert(slots[key.player as int] == Some(gamepad));
    }
}

/// Whether `code` is among `pressed`.
pub fn has_code(pressed: &Vec<u32>, code: u32) -> (b: bool)
    ensures
        b == pressed@.contains(code),
{
    let mut i: usize = 0;
    while i < pressed.len()
        invariant
            i <= pressed@.len(),
            forall|j: int| 0 <= j < i ==> pressed@[j] != code,
        decreases pressed@.len() - i,
    {
        if pressed[i] == code {
            return true;
        }
        i += 1;
    }
    false
}

} // verus!
