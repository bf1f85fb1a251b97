use bevy::input::gamepad::GamepadButtonType;
use kurinji::action_map::ActionMap;
use kurinji::bindings::{BindingKey, Bindings, DeviceClass};
use kurinji::kurinji::Kurinji;
use kurinji::pad_button::{button_code, button_of_code, MAX_BUTTON_CODE};

fn button(player: usize, code: u32) -> BindingKey {
    BindingKey { class: DeviceClass::GamepadButton, code, player }
}

fn axis(player: usize, code: u32) -> BindingKey {
    BindingKey { class: DeviceClass::GamepadAxis, code, player }
}

#[test]
fn rebinding_a_key_replaces_its_action() {
    let mut k = Kurinji::new();
    k.bind(button(0, 1), "jump");
    k.bind(button(0, 2), "duck");
    k.bind(button(0, 1), "fly");
    assert_eq!(k.bound_action(button(0, 1)), Some("fly".to_string()));
    assert_eq!(k.bound_action(button(0, 2)), Some("duck".to_string()));
}

#[test]
fn unbinding_removes_and_is_silent_on_absent_keys() {
    let mut k = Kurinji::new();
    k.bind(button(0, 1), "jump");
    k.unbind(button(0, 9));
    assert_eq!(k.bound_action(button(0, 1)), Some("jump".to_string()));
    k.unbind(button(0, 1));
    assert_eq!(k.bound_action(button(0, 1)), None);
    k.unbind(button(0, 1));
    assert_eq!(k.bound_action(button(0, 1)), None);
}

#[test]
fn lookup_matches_class_code_and_player_exactly() {
    let mut k = Kurinji::new();
    k.bind(button(1, 4), "jump");
    assert_eq!(k.bound_action(button(1, 4)), Some("jump".to_string()));
    assert_eq!(k.bound_action(button(0, 4)), None);
    assert_eq!(k.bound_action(button(1, 5)), None);
    assert_eq!(k.bound_action(axis(1, 4)), None);
}

#[test]
fn gamepad_binders_default_to_player_zero_and_chain() {
    let mut k = Kurinji::new();
    k.bind_gamepad_button_pressed(GamepadButtonType::West, "jump")
        .bind_gamepad_axis(7, "steer")
        .bind_gamepad_button_pressed_for_player(2, GamepadButtonType::West, "jump two")
        .bind_gamepad_axis_for_player(2, 7, "steer two");
    assert_eq!(k.bound_action(button(0, 3)), Some("jump".to_string()));
    assert_eq!(k.bound_action(axis(0, 7)), Some("steer".to_string()));
    assert_eq!(k.bound_action(button(2, 3)), Some("jump two".to_string()));
    assert_eq!(k.bound_action(axis(2, 7)), Some("steer two".to_string()));
    k.unbind_gamepad_button_pressed(GamepadButtonType::West).unbind_gamepad_axis(7);
    assert_eq!(k.bound_action(button(0, 3)), None);
    assert_eq!(k.bound_action(axis(0, 7)), None);
    assert_eq!(k.bound_action(button(2, 3)), Some("jump two".to_string()));
    k.unbind_gamepad_button_pressed_for_player(2, GamepadButtonType::West)
        .unbind_gamepad_axis_for_player(2, 7);
    assert_eq!(k.bound_action(button(2, 3)), None);
    assert_eq!(k.bound_action(axis(2, 7)), None);
}

#[test]
fn button_codes_go_both_ways() {
    assert_eq!(button_code(GamepadButtonType::South), 0);
    assert_eq!(button_code(GamepadButtonType::RightTrigger2), 9);
    assert_eq!(button_code(GamepadButtonType::DPadRight), 18);
    assert_eq!(button_code(GamepadButtonType::Other(0)), 19);
    assert_eq!(button_code(GamepadButtonType::Other(255)), MAX_BUTTON_CODE);
    assert_eq!(button_of_code(0), Some(GamepadButtonType::South));
    assert_eq!(button_of_code(12), Some(GamepadButtonType::Mode));
    assert_eq!(button_of_code(19), Some(GamepadButtonType::Other(0)));
    assert_eq!(button_of_code(274), Some(GamepadButtonType::Other(255)));
    assert_eq!(button_of_code(275), None);
    for code in 0..=MAX_BUTTON_CODE {
        let button = button_of_code(code).unwrap();
        assert_eq!(button_code(button), code);
    }
}

#[test]
fn binding_does_not_touch_the_snapshots() {
    let mut k = Kurinji::new();
    k.set_raw_action_strength("jump", kurinji::strength::Strength::full());
    k.bind(button(0, 1), "jump");
    k.unbind(button(0, 1));
    assert!(k.is_action_active("jump"));
    assert!(k.did_action_just_begin("jump"));
}

#[test]
fn bindings_keep_their_order() {
    let mut b = Bindings::new();
    b.bind(button(0, 1), "a".to_string());
    b.bind(button(0, 2), "b".to_string());
    b.bind(button(0, 3), "c".to_string());
    b.bind(button(0, 1), "d".to_string());
    assert_eq!(b.len(), 3);
    assert_eq!(b.key_at(0), button(0, 1));
    assert_eq!(b.action_at(0), "d");
    b.unbind(button(0, 2));
    assert_eq!(b.len(), 2);
    assert_eq!(b.key_at(1), button(0, 3));
    assert_eq!(b.action_at(1), "c");
    assert_eq!(b.find(button(0, 3)), Some(1));
    assert_eq!(b.find(button(0, 2)), None);
    assert_eq!(b.action(button(0, 3)), Some(&"c".to_string()));
}

#[test]
fn action_map_sets_gets_removes_and_takes() {
    let mut m: ActionMap<u8> = ActionMap::new();
    m.set("a".to_string(), 1);
    m.set("b".to_string(), 2);
    m.set("a".to_string(), 3);
    assert_eq!(m.len(), 2);
    assert_eq!(m.get(&"a".to_string()), Some(3));
    assert_eq!(m.get(&"z".to_string()), None);
    assert!(m.contains(&"b".to_string()));
    assert_eq!(m.action_at(1), "b");
    assert_eq!(m.value_at(1), 2);
    m.remove(&"a".to_string());
    m.remove(&"a".to_string());
    assert_eq!(m.len(), 1);
    assert_eq!(m.find(&"b".to_string()), Some(0));
    m.push_new("c".to_string(), 9);
    let taken = m.take();
    assert_eq!(m.len(), 0);
    assert_eq!(taken.len(), 2);
    assert_eq!(taken.get(&"c".to_string()), Some(9));
}
