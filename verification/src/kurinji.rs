//! The action state engine: bindings, the two strength snapshots, the
//! player slots, and the per-frame steps over them.

use vstd::prelude::*;
use crate::action_event::{
    views, ActionEvents, OnActionActive, OnActionBegin, OnActionEnd, OnActionProgress,
};
use crate::action_map::ActionMap;
use crate::assoc::{distinct_keys, has_key, lookup, put, without};
use crate::bindings::{BindingKey, Bindings, DeviceClass};
use crate::gamepad::{
    after_event, after_events, apply_holds, axis_key, button_key, released, AxisHold, PadEvent,
    PadNotice, PadState,
};
use crate::phase::{active, in_progress, just_begun, just_ended, names, select, Snapshot};
use crate::players::{is_full, is_lowest_free, one_seat_each, player_of, PlayerSlots};
use crate::pad_button::{
    button_code, button_of_code, held_buttons, pad_button_pressed, spec_button_code,
};
use crate::sampling::{has_code, move_axes, press_keys, press_pads};
use bevy::input::gamepad::{GamepadButton, GamepadButtonType};
use bevy::input::Input;
use crate::strength::Strength;

verus! {

/// The number of player slots of an engine made by `Kurinji::new`.
pub const MAX_PLAYER_HANDLES: usize = 8;

/// The engine's state.
pub struct Kurinji {
    bindings: Bindings,
    current: ActionMap<Strength>,
    previous: ActionMap<Strength>,
    players: PlayerSlots,
    holds: ActionMap<AxisHold>,
}

impl Default for Kurinji {
    fn default() -> (k: Kurinji)
        ensures
            k.wf(),
            k.bindings().len() == 0,
            k.current().len() == 0,
            k.previous().len() == 0,
            k.holds().len() == 0,
            k.slots().len() == MAX_PLAYER_HANDLES,
            forall|p: int| 0 <= p < k.slots().len() ==> (#[trigger] k.slots()[p]).is_none(),
    {
        Kurinji::new()
    }
}

/// Two resets in a row, with nothing written between them, leave both
/// snapshots empty.
pub proof fn lemma_reset_twice(start: Kurinji, once: Kurinji, twice: Kurinji)
    requires
        once.is_reset_of(&start),
        twice.is_reset_of(&once),
    ensures
        twice.current() == Seq::<(Seq<char>, Strength)>::empty(),
        twice.previous() == Seq::<(Seq<char>, Strength)>::empty(),
        forall|action: Seq<char>|
            !active(twice.current(), twice.previous(), action) && !just_ended(
                twice.current(),
                twice.previous(),
                action,
            ),
{
}

/// At any instant, two different gamepads do not share a player handle.
pub proof fn lemma_player_handles_injective(k: &Kurinji, pad: usize, other: usize)
    requires
        k.wf(),
        pad != other,
        player_of(k.slots(), pad).is_some(),
    ensures
        player_of(k.slots(), pad) != player_of(k.slots(), other),
{
    crate::players::lemma_handles_injective(&k.players, pad, other);
}

impl Kurinji {
    /// The bindings, in binding order.
    pub closed spec fn bindings(&self) -> Seq<(BindingKey, Seq<char>)> {
        self.bindings@
    }

    /// The strengths written in this frame.
    pub closed spec fn current(&self) -> Snapshot {
        self.current@
    }

    /// The strengths of the frame before.
    pub closed spec fn previous(&self) -> Snapshot {
        self.previous@
    }

    /// The player slots with the gamepad that holds each.
    pub closed spec fn slots(&self) -> Seq<Option<usize>> {
        self.players@
    }

    /// The last reported axis values, by action.
    pub closed spec fn holds(&self) -> Seq<(Seq<char>, AxisHold)> {
        self.holds@
    }

    /// No physical input is bound twice, no action stands twice in a
    /// snapshot, and no gamepad holds two slots.
    pub open spec fn wf(&self) -> bool {
        &&& distinct_keys(self.bindings())
        &&& distinct_keys(self.current())
        &&& distinct_keys(self.previous())
        &&& distinct_keys(self.holds())
        &&& one_seat_each(self.slots())
    }

    /// `self` differs from `pre` in its bindings at most.
    pub open spec fn same_frame_as(&self, pre: &Kurinji) -> bool {
        &&& self.current() == pre.current()
        &&& self.previous() == pre.previous()
        &&& self.holds() == pre.holds()
        &&& self.slots() == pre.slots()
    }

    /// `self` differs from `pre` in its current snapshot at most.
    pub open spec fn same_but_current(&self, pre: &Kurinji) -> bool {
        &&& self.bindings() == pre.bindings()
        &&& self.previous() == pre.previous()
        &&& self.holds() == pre.holds()
        &&& self.slots() == pre.slots()
    }

    /// `self` is `pre` at the start of the next frame: what was current is
    /// now previous, and nothing is written yet.
    pub open spec fn is_reset_of(&self, pre: &Kurinji) -> bool {
        &&& self.current() == Seq::<(Seq<char>, Strength)>::empty()
        &&& self.previous() == pre.current()
        &&& self.bindings() == pre.bindings()
        &&& self.holds() == pre.holds()
        &&& self.slots() == pre.slots()
    }

    /// An engine with `MAX_PLAYER_HANDLES` player slots and nothing else.
    pub fn new() -> (k: Kurinji)
        ensures
            k.wf(),
            k.bindings().len() == 0,
            k.current().len() == 0,
            k.previous().len() == 0,
            k.holds().len() == 0,
            k.slots().len() == MAX_PLAYER_HANDLES,
            forall|p: int| 0 <= p < k.slots().len() ==> (#[trigger] k.slots()[p]).is_none(),
    {
        Self::with_player_slots(MAX_PLAYER_HANDLES)
    }

    /// An engine with `size` player slots and nothing else.
    pub fn with_player_slots(size: usize) -> (k: Kurinji)
        ensures
            k.wf(),
            k.bindings().len() == 0,
            k.current().len() == 0,
            k.previous().len() == 0,
            k.holds().len() == 0,
            k.slots().len() == size,
            forall|p: int| 0 <= p < k.slots().len() ==> (#[trigger] k.slots()[p]).is_none(),
    {
        Kurinji {
            bindings: Bindings::new(),
            current: ActionMap::new(),
            previous: ActionMap::new(),
            players: PlayerSlots::new(size),
            holds: ActionMap::new(),
        }
    }

    /// Binds a physical input to an action, in place of what it was bound
    /// to before.
    pub fn bind(&mut self, key: BindingKey, action: &str)
        requires
            old(self).wf(),
        ensures
            final(self).wf(),
            final(self).bindings() == put(old(self).bindings(), key, action@),
            final(self).same_frame_as(old(self)),
    {
        self.bindings.bind(key, action.to_owned());
    }

    /// Removes the binding of a physical input, if it has one.
    pub fn unbind(&mut self, key: BindingKey)
        requires
            old(self).wf(),
        ensures
            final(self).wf(),
            final(self).bindings() == without(old(self).bindings(), key),
            final(self).same_frame_as(old(self)),
    {
        self.bindings.unbind(key);
    }

    /// The action bound to exactly this physical input.
    pub fn bound_action(&self, key: BindingKey) -> (name: Option<String>)
        requires
            self.wf(),
        ensures
            match name {
                Some(a) => lookup(self.bindings(), key) == Some(a@),
                None => lookup(self.bindings(), key).is_none(),
            },
    {
        match self.bindings.action(key) {
            Some(a) => Some(a.clone()),
            None => None,
        }
    }

    /// Binds a gamepad button of player 0 to an action.
    pub fn bind_gamepad_button_pressed(&mut self, pad_button: GamepadButtonType, action: &str) -> (k:
        &mut Kurinji)
        requires
            old(self).wf(),
        ensures
            k.wf(),
            k.bindings() == put(old(self).bindings(), button_key(0, spec_button_code(pad_button)), action@),
            k.same_frame_as(old(self)),
            *final(self) == *final(k),
    {
        self.bind_gamepad_button_pressed_for_player(0, pad_button, action)
    }

    /// Binds a gamepad button of `player` to an action.
    pub fn bind_gamepad_button_pressed_for_player(
        &mut self,
        player: usize,
        pad_button: GamepadButtonType,
        action: &str,
    ) -> (k: &mut Kurinji)
        requires
            old(self).wf(),
        ensures
            k.wf(),
            k.bindings() == put(old(self).bindings(), button_key(player, spec_button_code(pad_button)), action@),
            k.same_frame_as(old(self)),
            *final(self) == *final(k),
    {
        self.bind(BindingKey { class: DeviceClass::GamepadButton, code: button_code(pad_button), player }, action);
        self
    }

    /// Writes the strength of an action for this frame, over what an
    /// earlier write of the frame left.
    pub fn set_raw_action_strength(&mut self, action: &str, strength: Strength)
        requires
            old(self).wf(),
        ensures
            final(self).wf(),
            final(self).current() == put(old(self).current(), action@, strength),
            final(self).same_but_current(old(self)),
    {
        self.current.set(action.to_owned(), strength);
    }

    /// The strength written for an action in this frame.
    pub fn get_raw_action_strength(&self, action: &str) -> (s: Option<Strength>)
        requires
            self.wf(),
        ensures
            s == lookup(self.current(), action@),
    {
        self.current.get(&action.to_owned())
    }

    /// Whether the action has a strength in this frame.
    pub fn is_action_active(&self, action: &str) -> (b: bool)
        ensures
            b == active(self.current(), self.previous(), action@),
    {
        self.current.contains(&action.to_owned())
    }

    /// Whether the action has a strength in this frame and had none in the
    /// frame before.
    pub fn did_action_just_begin(&self, action: &str) -> (b: bool)
        ensures
            b == just_begun(self.current(), self.previous(), action@),
    {
        let name = action.to_owned();
        self.current.contains(&name) && !self.previous.contains(&name)
    }

    /// Whether the action has a strength in this frame and had one in the
    /// frame before.
    pub fn is_action_in_progress(&self, action: &str) -> (b: bool)
        ensures
            b == in_progress(self.current(), self.previous(), action@),
    {
        let name = action.to_owned();
        self.current.contains(&name) && self.previous.contains(&name)
    }

    /// Whether the action has no strength in this frame and had one in the
    /// frame before.
    pub fn did_action_just_end(&self, action: &str) -> (b: bool)
        ensures
            b == just_ended(self.current(), self.previous(), action@),
    {
        let name = action.to_owned();
        !self.current.contains(&name) && self.previous.contains(&name)
    }

    /// Starts a frame: the current snapshot becomes the previous one and
    /// is left empty.
    pub fn action_reset_system(&mut self)
        ensures
            final(self).is_reset_of(old(self)),
            old(self).wf() ==> final(self).wf(),
    {
        self.previous = self.current.take();
    }

    /// Removes the binding of a gamepad button of player 0.
    pub fn unbind_gamepad_button_pressed(&mut self, pad_button: GamepadButtonType) -> (k:
        &mut Kurinji)
        requires
            old(self).wf(),
        ensures
            k.wf(),
            k.bindings() == without(old(self).bindings(), button_key(0, spec_button_code(pad_button))),
            k.same_frame_as(old(self)),
            *final(self) == *final(k),
    {
        self.unbind_gamepad_button_pressed_for_player(0, pad_button)
    }

    /// Removes the binding of a gamepad button of `player`.
    pub fn unbind_gamepad_button_pressed_for_player(
        &mut self,
        player: usize,
        pad_button: GamepadButtonType,
    ) -> (k: &mut Kurinji)
        requires
            old(self).wf(),
        ensures
            k.wf(),
            k.bindings() == without(old(self).bindings(), button_key(player, spec_button_code(pad_button))),
            k.same_frame_as(old(self)),
            *final(self) == *final(k),
    {
        self.unbind(BindingKey { class: DeviceClass::GamepadButton, code: button_code(pad_button), player });
        self
    }

    /// Binds a gamepad axis of player 0 to an action.
    pub fn bind_gamepad_axis(&mut self, axis: u32, action: &str) -> (k: &mut Kurinji)
        requires
            old(self).wf(),
        ensures
            k.wf(),
            k.bindings() == put(old(self).bindings(), axis_key(0, axis), action@),
            k.same_frame_as(old(self)),
            *final(self) == *final(k),
    {
        self.bind_gamepad_axis_for_player(0, axis, action)
    }

    /// Binds a gamepad axis of `player` to an action.
    pub fn bind_gamepad_axis_for_player(&mut self, player: usize, axis: u32, action: &str) -> (k:
        &mut Kurinji)
        requires
            old(self).wf(),
        ensures
            k.wf(),
            k.bindings() == put(old(self).bindings(), axis_key(player, axis), action@),
            k.same_frame_as(old(self)),
            *final(self) == *final(k),
    {
        self.bind(BindingKey { class: DeviceClass::GamepadAxis, code: axis, player }, action);
        self
    }

    /// Removes the binding of a gamepad axis of player 0.
    pub fn unbind_gamepad_axis(&mut self, pad_axis: u32) -> (k: &mut Kurinji)
        requires
            old(self).wf(),
        ensures
            k.wf(),
            k.bindings() == without(old(self).bindings(), axis_key(0, pad_axis)),
            k.same_frame_as(old(self)),
            *final(self) == *final(k),
    {
        self.unbind_gamepad_axis_for_player(0, pad_axis)
    }

    /// Removes the binding of a gamepad axis of `player`.
    pub fn unbind_gamepad_axis_for_player(&mut self, player: usize, axis: u32) -> (k: &mut Kurinji)
        requires
            old(self).wf(),
        ensures
            k.wf(),
            k.bindings() == without(old(self).bindings(), axis_key(player, axis)),
            k.same_frame_as(old(self)),
            *final(self) == *final(k),
    {
        self.unbind(BindingKey { class: DeviceClass::GamepadAxis, code: axis, player });
        self
    }

    /// The lowest free player slot.
    pub fn get_available_player_handle(&self) -> (handle: Option<usize>)
        ensures
            match handle {
                Some(p) => is_lowest_free(self.slots(), p as int),
                None => is_full(self.slots()),
            },
    {
        self.players.get_available_player_handle()
    }

    /// The player handle of a gamepad.
    pub fn get_player_handle_for_gamepad(&self, pad: usize) -> (handle: Option<usize>)
        requires
            self.wf(),
        ensures
            handle == player_of(self.slots(), pad),
    {
        self.players.get_player_handle_for_gamepad(pad)
    }

    /// The gamepad that holds a player slot.
    pub fn get_gamepad_for_player_handle(&self, player: usize) -> (pad: Option<usize>)
        ensures
            pad == if player < self.slots().len() {
                self.slots()[player as int]
            } else {
                None
            },
    {
        self.players.gamepad_of(player)
    }

    /// The slots and holds as gamepad notifications find them.
    pub open spec fn pad_state(&self) -> PadState {
        self.pad_state_with(Seq::empty())
    }

    /// The slots and holds, beside the notices given so far.
    pub open spec fn pad_state_with(&self, notices: Seq<PadNotice>) -> PadState {
        PadState { slots: self.slots(), holds: self.holds(), notices }
    }

    fn on_pad_event(&mut self, ev: PadEvent, notices: &mut Vec<PadNotice>)
        requires
            old(self).wf(),
        ensures
            final(self).wf(),
            final(self).bindings() == old(self).bindings(),
            final(self).current() == old(self).current(),
            final(self).previous() == old(self).previous(),
            final(self).pad_state_with(final(notices)@) == after_event(
                old(self).pad_state_with(old(notices)@),
                old(self).bindings(),
                ev,
            ),
    {
        match ev {
            PadEvent::Axis { gamepad, axis, value } => {
                match self.players.get_player_handle_for_gamepad(gamepad) {
                    Some(player) => {
                        let key = BindingKey { class: DeviceClass::GamepadAxis, code: axis, player };
                        match self.bound_action(key) {
                            Some(name) => {
                                let strength = Strength::of_reading(value);
                                if strength.is_zero() {
                                    self.holds.remove(&name);
                                } else {
                                    self.holds.set(name, AxisHold { strength, gamepad });
                                }
                            },
                            None => {},
                        }
                    },
                    None => {},
                }
            },
            PadEvent::Connected { gamepad } => {
                match self.players.connect(gamepad) {
                    Some(player) => notices.push(PadNotice::Connected { gamepad, player }),
                    None => notices.push(PadNotice::HouseFull { gamepad }),
                }
            },
            PadEvent::Disconnected { gamepad } => {
                match self.players.disconnect(gamepad) {
                    Some(player) => {
                        self.holds = released(&self.holds, gamepad);
                        notices.push(PadNotice::Disconnected { gamepad, player });
                    },
                    None => {},
                }
            },
            PadEvent::Other => {},
        }
    }

    fn apply_axis_holds(&mut self)
        requires
            old(self).wf(),
        ensures
            final(self).wf(),
            final(self).current() == apply_holds(old(self).current(), old(self).holds()),
            final(self).same_but_current(old(self)),
    {
        let n = self.holds.len();
        let mut i: usize = 0;
        while i < n
            invariant
                i <= n,
                n == self.holds().len(),
                self.wf(),
                self.same_but_current(old(self)),
                self.current() == apply_holds(old(self).current(), self.holds().take(i as int)),
            decreases n - i,
        {
            proof {
                assert(self.holds().take(i + 1).drop_last() =~= self.holds().take(i as int));
            }
            let name = self.holds.action_at(i).clone();
            let hold = self.holds.value_at(i);
            self.current.set(name, hold.strength);
            i += 1;
        }
        proof {
            assert(self.holds().take(n as int) =~= self.holds());
        }
    }

    /// Takes the gamepad notifications of a frame in order, then writes
    /// every held axis value to its action. Returns what there is to tell
    /// of connections.
    pub fn gamepad_event_system(&mut self, events: &Vec<PadEvent>) -> (notices: Vec<PadNotice>)
        requires
            old(self).wf(),
        ensures
            final(self).wf(),
            final(self).bindings() == old(self).bindings(),
            final(self).previous() == old(self).previous(),
            final(self).slots() == after_events(
                old(self).pad_state(),
                old(self).bindings(),
                events@,
            ).slots,
            final(self).holds() == after_events(
                old(self).pad_state(),
                old(self).bindings(),
                events@,
            ).holds,
            notices@ == after_events(old(self).pad_state(), old(self).bindings(), events@).notices,
            final(self).current() == apply_holds(old(self).current(), final(self).holds()),
    {
        let mut notices: Vec<PadNotice> = Vec::new();
        let mut i: usize = 0;
        while i < events.len()
            invariant
                i <= events@.len(),
                self.wf(),
                self.bindings() == old(self).bindings(),
                self.current() == old(self).current(),
                self.previous() == old(self).previous(),
                self.pad_state_with(notices@) == after_events(
                    old(self).pad_state(),
                    old(self).bindings(),
                    events@.take(i as int),
                ),
            decreases events@.len() - i,
        {
            proof {
                assert(events@.take(i + 1).drop_last() =~= events@.take(i as int));
            }
            self.on_pad_event(events[i], &mut notices);
            i += 1;
        }
        proof {
            assert(events@.take(i as int) =~= events@);
        }
        self.apply_axis_holds();
        notices
    }

    /// Writes full strength for the action of the binding at `index` where
    /// `down` says that its button is held, and nothing where it is not.
    pub fn press_bound_action(&mut self, index: usize, down: bool)
        requires
            old(self).wf(),
            index < old(self).bindings().len(),
        ensures
            final(self).wf(),
            final(self).current() == if down {
                put(
                    old(self).current(),
                    old(self).bindings()[index as int].1,
                    Strength::spec_full(),
                )
            } else {
                old(self).current()
            },
            final(self).same_but_current(old(self)),
    {
        if down {
            let name = self.bindings.action_at(index).clone();
            self.current.set(name, Strength::full());
        }
    }

    /// Writes full strength for each bound gamepad button that is held:
    /// the button of a binding counts where the gamepad that holds the
    /// binding's player slot has it pressed.
    pub fn gamepad_button_press_input_system(
        &mut self,
        joystick_button_input: &Input<GamepadButton>,
    )
        requires
            old(self).wf(),
        ensures
            final(self).wf(),
            final(self).current() == press_pads(
                old(self).current(),
                old(self).bindings(),
                old(self).slots(),
                held_buttons(*joystick_button_input),
            ),
            final(self).same_but_current(old(self)),
    {
        let n = self.bindings.len();
        let mut i: usize = 0;
        while i < n
            invariant
                i <= n,
                n == self.bindings().len(),
                self.wf(),
                self.same_but_current(old(self)),
                self.current() == press_pads(
                    old(self).current(),
                    self.bindings().take(i as int),
                    self.slots(),
                    held_buttons(*joystick_button_input),
                ),
            decreases n - i,
        {
            proof {
                assert(self.bindings().take(i + 1).drop_last() =~= self.bindings().take(i as int));
            }
            let key = self.bindings.key_at(i);
            let mut down = false;
            if key.class == DeviceClass::GamepadButton {
                match (self.players.gamepad_of(key.player), button_of_code(key.code)) {
                    (Some(gamepad), Some(button)) => {
                        down = pad_button_pressed(joystick_button_input, gamepad, button);
                    },
                    _ => {},
                }
            }
            self.press_bound_action(i, down);
            i += 1;
        }
        proof {
            assert(self.bindings().take(n as int) =~= self.bindings());
        }
    }

    fn press_class(&mut self, class: DeviceClass, pressed: &Vec<u32>)
        requires
            old(self).wf(),
        ensures
            final(self).wf(),
            final(self).current() == press_keys(
                old(self).current(),
                old(self).bindings(),
                class,
                pressed@,
            ),
            final(self).same_but_current(old(self)),
    {
        let n = self.bindings.len();
        let mut i: usize = 0;
        while i < n
            invariant
                i <= n,
                n == self.bindings().len(),
                self.wf(),
                self.same_but_current(old(self)),
                self.current() == press_keys(
                    old(self).current(),
                    self.bindings().take(i as int),
                    class,
                    pressed@,
                ),
            decreases n - i,
        {
            proof {
                assert(self.bindings().take(i + 1).drop_last() =~= self.bindings().take(i as int));
            }
            let key = self.bindings.key_at(i);
            if key.class == class && has_code(pressed, key.code) {
                let name = self.bindings.action_at(i).clone();
                self.current.set(name, Strength::full());
            }
            i += 1;
        }
        proof {
            assert(self.bindings().take(n as int) =~= self.bindings());
        }
    }

    /// Writes full strength for each bound keyboard key that is held.
    /// `pressed` holds the codes of the keys that are down.
    pub fn kb_key_press_input_system(&mut self, pressed: &Vec<u32>)
        requires
            old(self).wf(),
        ensures
            final(self).wf(),
            final(self).current() == press_keys(
                old(self).current(),
                old(self).bindings(),
                DeviceClass::Keyboard,
                pressed@,
            ),
            final(self).same_but_current(old(self)),
    {
        self.press_class(DeviceClass::Keyboard, pressed);
    }

    /// Writes full strength for each bound mouse button that is held.
    /// `pressed` holds the codes of the buttons that are down.
    pub fn mouse_button_press_input_system(&mut self, pressed: &Vec<u32>)
        requires
            old(self).wf(),
        ensures
            final(self).wf(),
            final(self).current() == press_keys(
                old(self).current(),
                old(self).bindings(),
                DeviceClass::MouseButton,
                pressed@,
            ),
            final(self).same_but_current(old(self)),
    {
        self.press_class(DeviceClass::MouseButton, pressed);
    }

    /// Writes the magnitude of each mouse axis reading that is not zero to
    /// the action that the axis is bound to. A reading pairs an axis code
    /// with the bits of its signed value.
    pub fn mouse_move_event_system(&mut self, readings: &Vec<(u32, u32)>)
        requires
            old(self).wf(),
        ensures
            final(self).wf(),
            final(self).current() == move_axes(
                old(self).current(),
                old(self).bindings(),
                readings@,
            ),
            final(self).same_but_current(old(self)),
    {
        let mut i: usize = 0;
        while i < readings.len()
            invariant
                i <= readings@.len(),
                self.wf(),
                self.same_but_current(old(self)),
                self.current() == move_axes(
                    old(self).current(),
                    self.bindings(),
                    readings@.take(i as int),
                ),
            decreases readings@.len() - i,
        {
            proof {
                assert(readings@.take(i + 1).drop_last() =~= readings@.take(i as int));
            }
            let code = readings[i].0;
            let strength = Strength::of_reading(readings[i].1);
            if !strength.is_zero() {
                let key = BindingKey { class: DeviceClass::MouseAxis, code, player: 0 };
                match self.bound_action(key) {
                    Some(name) => {
                        self.current.set(name, strength);
                    },
                    None => {},
                }
            }
            i += 1;
        }
        proof {
            assert(readings@.take(i as int) =~= readings@);
        }
    }

    /// The events of the frame: one `active` event for each action of the
    /// current snapshot, a `begin` or a `progress` event for it according
    /// to whether the previous snapshot lacks or has it, and an `end`
    /// event for each action that only the previous snapshot has. Each
    /// list keeps the order of the snapshot it is drawn from.
    pub fn action_event_producer(&self) -> (events: ActionEvents)
        ensures
            views(events.active@) == self.current(),
            views(events.begin@) == select(self.current(), self.previous(), false),
            views(events.progress@) == select(self.current(), self.previous(), true),
            views(events.end@) == names(select(self.previous(), self.current(), false)),
    {
        let mut active: Vec<OnActionActive> = Vec::new();
        let mut begin: Vec<OnActionBegin> = Vec::new();
        let mut progress: Vec<OnActionProgress> = Vec::new();
        let mut end: Vec<OnActionEnd> = Vec::new();
        let n = self.current.len();
        let mut i: usize = 0;
        assert(views(active@) =~= self.current().take(0));
        assert(views(begin@) =~= select(self.current().take(0), self.previous(), false));
        assert(views(progress@) =~= select(self.current().take(0), self.previous(), true));
        while i < n
            invariant
                i <= n,
                n == self.current().len(),
                views(active@) == self.current().take(i as int),
                views(begin@) == select(self.current().take(i as int), self.previous(), false),
                views(progress@) == select(self.current().take(i as int), self.previous(), true),
            decreases n - i,
        {
            proof {
                assert(self.current().take(i + 1).drop_last() =~= self.current().take(i as int));
            }
            let name = self.current.action_at(i);
            let strength = self.current.value_at(i);
            let ghost before_active = active@;
            let ghost before_begin = begin@;
            let ghost before_progress = progress@;
            active.push(OnActionActive { action: name.clone(), strength });
            if self.previous.contains(name) {
                progress.push(OnActionProgress { action: name.clone(), strength });
            } else {
                begin.push(OnActionBegin { action: name.clone(), strength });
            }
            proof {
                let entry = self.current()[i as int];
                assert(views(active@) =~= views(before_active).push(entry));
                assert(views(active@) =~= self.current().take(i + 1));
                if has_key(self.previous(), entry.0) {
                    assert(views(progress@) =~= views(before_progress).push(entry));
                } else {
                    assert(views(begin@) =~= views(before_begin).push(entry));
                }
            }
            i += 1;
        }
        proof {
            assert(self.current().take(n as int) =~= self.current());
        }
        let m = self.previous.len();
        let mut j: usize = 0;
        assert(views(end@) =~= names(select(self.previous().take(0), self.current(), false)));
        while j < m
            invariant
                j <= m,
                m == self.previous().len(),
                views(end@) == names(select(self.previous().take(j as int), self.current(), false)),
            decreases m - j,
        {
            proof {
                assert(self.previous().take(j + 1).drop_last() =~= self.previous().take(j as int));
            }
            let name = self.previous.action_at(j);
            let ghost before_end = end@;
            if !self.current.contains(name) {
                end.push(OnActionEnd { action: name.clone() });
                proof {
                    let rest = select(self.previous().take(j as int), self.current(), false);
                    let entry = self.previous()[j as int];
                    assert(views(end@) =~= views(before_end).push(entry.0));
                    assert(names(rest.push(entry)) =~= names(rest).push(entry.0));
                }
            }
            j += 1;
        }
        proof {
            assert(self.previous().take(m as int) =~= self.previous());
        }
        ActionEvents { active, begin, progress, end }
    }
}

} // verus!
