use bevy::input::gamepad::{Gamepad, GamepadButton, GamepadButtonType};
use bevy::input::Input;
use kurinji::gamepad::{PadEvent, PadNotice};
use kurinji::kurinji::{Kurinji, MAX_PLAYER_HANDLES};
use kurinji::players::PlayerSlots;
use kurinji::strength::Strength;

fn pressed(buttons: &[(usize, GamepadButtonType)]) -> Input<GamepadButton> {
    let mut input = Input::default();
    for (gamepad, button) in buttons {
        input.press(GamepadButton::new(Gamepad::new(*gamepad), *button));
    }
    input
}

fn value(s: Option<Strength>) -> Option<f32> {
    s.map(|s| f32::from_bits(s.bits))
}

#[test]
fn axis_value_is_held_until_something_changes_it() {
    let mut k = Kurinji::new();
    k.bind_gamepad_axis(0, "steer");
    let none: Vec<PadEvent> = Vec::new();

    k.action_reset_system();
    let notices = k.gamepad_event_system(&vec![
        PadEvent::Connected { gamepad: 5 },
        PadEvent::Axis { gamepad: 5, axis: 0, value: (-0.6f32).to_bits() },
    ]);
    assert_eq!(notices, vec![PadNotice::Connected { gamepad: 5, player: 0 }]);
    assert_eq!(value(k.get_raw_action_strength("steer")), Some(0.6));
    assert!(k.did_action_just_begin("steer"));

    for _ in 0..3 {
        k.action_reset_system();
        let notices = k.gamepad_event_system(&none);
        assert!(notices.is_empty());
        assert_eq!(value(k.get_raw_action_strength("steer")), Some(0.6));
        assert!(k.is_action_in_progress("steer"));
    }

    k.action_reset_system();
    k.gamepad_event_system(&vec![PadEvent::Axis { gamepad: 5, axis: 0, value: 0.25f32.to_bits() }]);
    assert_eq!(value(k.get_raw_action_strength("steer")), Some(0.25));

    k.action_reset_system();
    let notices = k.gamepad_event_system(&vec![PadEvent::Disconnected { gamepad: 5 }]);
    assert_eq!(notices, vec![PadNotice::Disconnected { gamepad: 5, player: 0 }]);
    assert_eq!(k.get_raw_action_strength("steer"), None);
    assert!(k.did_action_just_end("steer"));
}

#[test]
fn gamepad_without_a_slot_is_inert() {
    let mut k = Kurinji::with_player_slots(1);
    k.bind_gamepad_axis_for_player(1, 0, "steer two");
    k.bind_gamepad_button_pressed_for_player(1, GamepadButtonType::North, "jump two");
    k.bind_gamepad_axis_for_player(0, 0, "steer");
    k.bind_gamepad_button_pressed_for_player(0, GamepadButtonType::North, "jump");

    k.action_reset_system();
    let notices = k.gamepad_event_system(&vec![
        PadEvent::Connected { gamepad: 10 },
        PadEvent::Connected { gamepad: 11 },
        PadEvent::Axis { gamepad: 11, axis: 0, value: 0.5f32.to_bits() },
    ]);
    assert_eq!(
        notices,
        vec![
            PadNotice::Connected { gamepad: 10, player: 0 },
            PadNotice::HouseFull { gamepad: 11 }
        ]
    );
    k.gamepad_button_press_input_system(&pressed(&[(11, GamepadButtonType::North)]));
    assert_eq!(k.get_player_handle_for_gamepad(11), None);
    assert_eq!(k.get_player_handle_for_gamepad(10), Some(0));
    assert!(!k.is_action_active("steer two"));
    assert!(!k.is_action_active("jump two"));
    assert!(!k.is_action_active("steer"));
    assert!(!k.is_action_active("jump"));
    let events = k.action_event_producer();
    assert!(events.active.is_empty());

    let notices = k.gamepad_event_system(&vec![PadEvent::Disconnected { gamepad: 11 }]);
    assert!(notices.is_empty());
    assert_eq!(k.get_player_handle_for_gamepad(10), Some(0));
}

#[test]
fn gamepad_button_counts_for_the_player_of_its_gamepad() {
    let mut k = Kurinji::new();
    k.bind_gamepad_button_pressed(GamepadButtonType::North, "jump");
    k.bind_gamepad_button_pressed_for_player(1, GamepadButtonType::North, "jump two");
    k.gamepad_event_system(&vec![
        PadEvent::Connected { gamepad: 40 },
        PadEvent::Connected { gamepad: 30 },
    ]);
    k.action_reset_system();
    k.gamepad_button_press_input_system(&pressed(&[(30, GamepadButtonType::North)]));
    assert!(k.is_action_active("jump two"));
    assert!(!k.is_action_active("jump"));
    assert_eq!(value(k.get_raw_action_strength("jump two")), Some(1.0));
    k.action_reset_system();
    k.gamepad_button_press_input_system(&pressed(&[
        (40, GamepadButtonType::North),
        (30, GamepadButtonType::West),
        (1, GamepadButtonType::North),
    ]));
    assert!(k.is_action_active("jump"));
    assert!(!k.is_action_active("jump two"));
    k.action_reset_system();
    k.gamepad_button_press_input_system(&pressed(&[]));
    assert!(!k.is_action_active("jump"));
    assert!(k.did_action_just_end("jump"));
}

#[test]
fn axis_event_of_an_unbound_axis_is_ignored() {
    let mut k = Kurinji::new();
    k.bind_gamepad_axis_for_player(1, 0, "steer two");
    k.gamepad_event_system(&vec![
        PadEvent::Connected { gamepad: 3 },
        PadEvent::Other,
        PadEvent::Axis { gamepad: 3, axis: 0, value: 1.0f32.to_bits() },
        PadEvent::Axis { gamepad: 3, axis: 1, value: 1.0f32.to_bits() },
    ]);
    assert!(!k.is_action_active("steer two"));
    assert_eq!(k.action_event_producer().active.len(), 0);
}

#[test]
fn lowest_free_slot_first_and_reused_after_release() {
    let mut k = Kurinji::with_player_slots(3);
    assert_eq!(k.get_available_player_handle(), Some(0));
    let notices = k.gamepad_event_system(&vec![
        PadEvent::Connected { gamepad: 7 },
        PadEvent::Connected { gamepad: 8 },
        PadEvent::Connected { gamepad: 9 },
    ]);
    assert_eq!(
        notices,
        vec![
            PadNotice::Connected { gamepad: 7, player: 0 },
            PadNotice::Connected { gamepad: 8, player: 1 },
            PadNotice::Connected { gamepad: 9, player: 2 },
        ]
    );
    assert_eq!(k.get_available_player_handle(), None);
    k.gamepad_event_system(&vec![PadEvent::Disconnected { gamepad: 8 }]);
    assert_eq!(k.get_player_handle_for_gamepad(8), None);
    assert_eq!(k.get_gamepad_for_player_handle(1), None);
    assert_eq!(k.get_available_player_handle(), Some(1));
    let notices = k.gamepad_event_system(&vec![
        PadEvent::Disconnected { gamepad: 7 },
        PadEvent::Connected { gamepad: 8 },
    ]);
    assert_eq!(
        notices,
        vec![
            PadNotice::Disconnected { gamepad: 7, player: 0 },
            PadNotice::Connected { gamepad: 8, player: 0 },
        ]
    );
    assert_eq!(k.get_gamepad_for_player_handle(0), Some(8));
    assert_eq!(k.get_gamepad_for_player_handle(2), Some(9));
    assert_eq!(k.get_gamepad_for_player_handle(3), None);
}

#[test]
fn no_two_gamepads_share_a_handle() {
    let mut k = Kurinji::new();
    let mut events = Vec::new();
    for gamepad in 0..12usize {
        events.push(PadEvent::Connected { gamepad: 100 + gamepad });
    }
    events.push(PadEvent::Disconnected { gamepad: 103 });
    events.push(PadEvent::Connected { gamepad: 111 });
    k.gamepad_event_system(&events);
    let mut seen: Vec<usize> = Vec::new();
    for gamepad in 100..112usize {
        if let Some(handle) = k.get_player_handle_for_gamepad(gamepad) {
            assert!(handle < MAX_PLAYER_HANDLES);
            assert!(!seen.contains(&handle));
            assert_eq!(k.get_gamepad_for_player_handle(handle), Some(gamepad));
            seen.push(handle);
        }
    }
    assert_eq!(seen.len(), MAX_PLAYER_HANDLES);
    assert_eq!(k.get_player_handle_for_gamepad(111), Some(3));
}

#[test]
fn connecting_a_seated_gamepad_changes_nothing() {
    let mut pool = PlayerSlots::new(2);
    assert_eq!(pool.size(), 2);
    assert_eq!(pool.connect(4), Some(0));
    assert_eq!(pool.connect(4), Some(0));
    assert_eq!(pool.get_available_player_handle(), Some(1));
    assert_eq!(pool.connect(5), Some(1));
    assert_eq!(pool.connect(6), None);
    assert_eq!(pool.connect(4), Some(0));
    assert_eq!(pool.disconnect(6), None);
    assert_eq!(pool.disconnect(4), Some(0));
    assert_eq!(pool.gamepad_of(0), None);
    assert_eq!(pool.gamepad_of(1), Some(5));
    assert_eq!(pool.get_player_handle_for_gamepad(5), Some(1));
}

#[test]
fn disconnect_releases_only_the_values_of_that_gamepad() {
    let mut k = Kurinji::new();
    k.bind_gamepad_axis_for_player(0, 0, "steer");
    k.bind_gamepad_axis_for_player(1, 0, "steer two");
    k.action_reset_system();
    k.gamepad_event_system(&vec![
        PadEvent::Connected { gamepad: 1 },
        PadEvent::Connected { gamepad: 2 },
        PadEvent::Axis { gamepad: 1, axis: 0, value: 0.5f32.to_bits() },
        PadEvent::Axis { gamepad: 2, axis: 0, value: (-0.75f32).to_bits() },
    ]);
    assert_eq!(value(k.get_raw_action_strength("steer")), Some(0.5));
    assert_eq!(value(k.get_raw_action_strength("steer two")), Some(0.75));
    k.action_reset_system();
    k.gamepad_event_system(&vec![PadEvent::Disconnected { gamepad: 1 }]);
    assert_eq!(k.get_raw_action_strength("steer"), None);
    assert_eq!(value(k.get_raw_action_strength("steer two")), Some(0.75));
}

#[test]
fn default_engine_is_empty_with_all_slots_free() {
    let k = Kurinji::default();
    assert_eq!(k.get_available_player_handle(), Some(0));
    for player in 0..MAX_PLAYER_HANDLES {
        assert_eq!(k.get_gamepad_for_player_handle(player), None);
    }
    assert!(k.action_event_producer().active.is_empty());
}

#[test]
fn zero_axis_value_ends_the_hold() {
    let mut k = Kurinji::new();
    k.bind_gamepad_axis(0, "steer");
    k.action_reset_system();
    k.gamepad_event_system(&vec![
        PadEvent::Connected { gamepad: 5 },
        PadEvent::Axis { gamepad: 5, axis: 0, value: 0.5f32.to_bits() },
    ]);
    assert_eq!(value(k.get_raw_action_strength("steer")), Some(0.5));
    k.action_reset_system();
    k.gamepad_event_system(&vec![PadEvent::Axis { gamepad: 5, axis: 0, value: (-0.0f32).to_bits() }]);
    assert_eq!(k.get_raw_action_strength("steer"), None);
    assert!(k.did_action_just_end("steer"));
    k.action_reset_system();
    k.gamepad_event_system(&Vec::new());
    assert!(!k.is_action_active("steer"));
    assert!(!k.did_action_just_end("steer"));
}

#[test]
fn press_bound_action_writes_only_when_down() {
    let mut k = Kurinji::new();
    k.bind_gamepad_button_pressed(GamepadButtonType::Start, "pause");
    k.bind_gamepad_button_pressed(GamepadButtonType::Select, "menu");
    k.press_bound_action(0, false);
    k.press_bound_action(1, true);
    assert!(!k.is_action_active("pause"));
    assert_eq!(value(k.get_raw_action_strength("menu")), Some(1.0));
}

#[test]
fn binding_with_a_code_that_is_no_button_is_never_hit() {
    let mut k = Kurinji::new();
    k.bind(
        kurinji::bindings::BindingKey {
            class: kurinji::bindings::DeviceClass::GamepadButton,
            code: 1000,
            player: 0,
        },
        "nothing",
    );
    k.gamepad_event_system(&vec![PadEvent::Connected { gamepad: 0 }]);
    k.gamepad_button_press_input_system(&pressed(&[
        (0, GamepadButtonType::South),
        (0, GamepadButtonType::Other(255)),
    ]));
    assert!(!k.is_action_active("nothing"));
}
