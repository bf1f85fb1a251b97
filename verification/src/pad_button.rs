//! Gamepad buttons: the codes under which they are bound, and the query
//! for the buttons that are held down.

use vstd::prelude::*;
use bevy::input::gamepad::{Gamepad, GamepadButton, GamepadButtonType};
use bevy::input::Input;

verus! {

/// Bevy's `GamepadButtonType`, with its variants as Bevy defines them.
#[verifier::external_type_specification]
pub struct ExGamepadButtonType(bevy::input::gamepad::GamepadButtonType);

/// Bevy's `GamepadButton`: a button type on one gamepad.
#[verifier::external_type_specification]
#[verifier::external_body]
pub struct ExGamepadButton(bevy::input::gamepad::GamepadButton);

/// Bevy's `Input`: the set of inputs of one kind that are held down.
#[verifier::external_type_specification]
#[verifier::external_body]
#[verifier::reject_recursive_types(T)]
pub struct ExInput<T: Copy + Eq + core::hash::Hash + Send + Sync + 'static>(bevy::input::Input<T>);

/// The buttons that `input` holds as pressed, each as the id of its
/// gamepad and its button type.
pub uninterp spec fn held_buttons(input: Input<GamepadButton>) -> Set<(usize, GamepadButtonType)>;

/// `Input::pressed` for one button of one gamepad: whether that button is
/// among those that `input` holds as pressed.
#[verifier::external_body]
pub(crate) fn pad_button_pressed(
    input: &Input<GamepadButton>,
    gamepad: usize,
    button: GamepadButtonType,
) -> (down: bool)
    ensures
        down == held_buttons(*input).contains((gamepad, button)),
{
    input.pressed(GamepadButton::new(Gamepad::new(gamepad), button))
}

/// The highest code of a button.
pub const MAX_BUTTON_CODE: u32 = 274;

/// The code under which a button is bound: the named buttons in the order
/// of their declaration, then the numbered ones.
pub open spec fn spec_button_code(button: GamepadButtonType) -> u32 {
    match button {
        GamepadButtonType::South => 0,
        GamepadButtonType::East => 1,
        GamepadButtonType::North => 2,
        GamepadButtonType::West => 3,
        GamepadButtonType::C => 4,
        GamepadButtonType::Z => 5,
        GamepadButtonType::LeftTrigger => 6,
        GamepadButtonType::LeftTrigger2 => 7,
        GamepadButtonType::RightTrigger => 8,
        GamepadButtonType::RightTrigger2 => 9,
        GamepadButtonType::Select => 10,
        GamepadButtonType::Start => 11,
        GamepadButtonType::Mode => 12,
        GamepadButtonType::LeftThumb => 13,
        GamepadButtonType::RightThumb => 14,
        GamepadButtonType::DPadUp => 15,
        GamepadButtonType::DPadDown => 16,
        GamepadButtonType::DPadLeft => 17,
        GamepadButtonType::DPadRight => 18,
        GamepadButtonType::Other(n) => (19 + n) as u32,
    }
}

/// The button with a given code, if the code is that of a button.
pub open spec fn spec_button_of_code(code: u32) -> Option<GamepadButtonType> {
    if code == 0 {
        Some(GamepadButtonType::South)
    } else if code == 1 {
        Some(GamepadButtonType::East)
    } else if code == 2 {
        Some(GamepadButtonType::North)
    } else if code == 3 {
        Some(GamepadButtonType::West)
    } else if code == 4 {
        Some(GamepadButtonType::C)
    } else if code == 5 {
        Some(GamepadButtonType::Z)
    } else if code == 6 {
        Some(GamepadButtonType::LeftTrigger)
    } else if code == 7 {
        Some(GamepadButtonType::LeftTrigger2)
    } else if code == 8 {
        Some(GamepadButtonType::RightTrigger)
    } else if code == 9 {
        Some(GamepadButtonType::RightTrigger2)
    } else if code == 10 {
        Some(GamepadButtonType::Select)
    } else if code == 11 {
        Some(GamepadButtonType::Start)
    } else if code == 12 {
        Some(GamepadButtonType::Mode)
    } else if code == 13 {
        Some(GamepadButtonType::LeftThumb)
    } else if code == 14 {
        Some(GamepadButtonType::RightThumb)
    } else if code == 15 {
        Some(GamepadButtonType::DPadUp)
    } else if code == 16 {
        Some(GamepadButtonType::DPadDown)
    } else if code == 17 {
        Some(GamepadButtonType::DPadLeft)
    } else if code == 18 {
        Some(GamepadButtonType::DPadRight)
    } else if code <= MAX_BUTTON_CODE {
        Some(GamepadButtonType::Other((code - 19) as u8))
    } else {
        None
    }
}

/// The code under which `button` is bound.
pub fn button_code(button: GamepadButtonType) -> (code: u32)
    ensures
        code == spec_button_code(button),
        code <= MAX_BUTTON_CODE,
{
    match button {
        GamepadButtonType::South => 0,
        GamepadButtonType::East => 1,
        GamepadButtonType::North => 2,
        GamepadButtonType::West => 3,
        GamepadButtonType::C => 4,
        GamepadButtonType::Z => 5,
        GamepadButtonType::LeftTrigger => 6,
        GamepadButtonType::LeftTrigger2 => 7,
        GamepadButtonType::RightTrigger => 8,
        GamepadButtonType::RightTrigger2 => 9,
        GamepadButtonType::Select => 10,
        GamepadButtonType::Start => 11,
        GamepadButtonType::Mode => 12,
        GamepadButtonType::LeftThumb => 13,
        GamepadButtonType::RightThumb => 14,
        GamepadButtonType::DPadUp => 15,
        GamepadButtonType::DPadDown => 16,
        GamepadButtonType::DPadLeft => 17,
        GamepadButtonType::DPadRight => 18,
        GamepadButtonType::Other(n) => {
            let wide: u32 = n as u32;
            19 + wide
        },
    }
}

/// The button that is bound under `code`.
pub fn button_of_code(code: u32) -> (button: Option<GamepadButtonType>)
    ensures
        button == spec_button_of_code(code),
{
    if code == 0 {
        Some(GamepadButtonType::South)
    } else if code == 1 {
        Some(GamepadButtonType::East)
    } else if code == 2 {
        Some(GamepadButtonType::North)
    } else if code == 3 {
        Some(GamepadButtonType::West)
    } else if code == 4 {
        Some(GamepadButtonType::C)
    } else if code == 5 {
        Some(GamepadButtonType::Z)
    } else if code == 6 {
        Some(GamepadButtonType::LeftTrigger)
    } else if code == 7 {
        Some(GamepadButtonType::LeftTrigger2)
    } else if code == 8 {
        Some(GamepadButtonType::RightTrigger)
    } else if code == 9 {
        Some(GamepadButtonType::RightTrigger2)
    } else if code == 10 {
        Some(GamepadButtonType::Select)
    } else if code == 11 {
        Some(GamepadButtonType::Start)
    } else if code == 12 {
        Some(GamepadButtonType::Mode)
    } else if code == 13 {
        Some(GamepadButtonType::LeftThumb)
    } else if code == 14 {
        Some(GamepadButtonType::RightThumb)
    } else if code == 15 {
        Some(GamepadButtonType::DPadUp)
    } else if code == 16 {
        Some(GamepadButtonType::DPadDown)
    } else if code == 17 {
        Some(GamepadButtonType::DPadLeft)
    } else if code == 18 {
        Some(GamepadButtonType::DPadRight)
    } else if code <= MAX_BUTTON_CODE {
        let low: u32 = code - 19;
        Some(GamepadButtonType::Other(low as u8))
    } else {
        None
    }
}

/// Every button is found again under its code, and different buttons have
/// different codes.
pub proof fn lemma_button_codes(button: GamepadButtonType, other: GamepadButtonType)
    ensures
        spec_button_of_code(spec_button_code(button)) == Some(button),
        spec_button_code(button) == spec_button_code(other) ==> button == other,
{
}

/// A code that stands for a button is the code of that button.
pub proof fn lemma_code_of_button(code: u32)
    ensures
        match spec_button_of_code(code) {
            Some(button) => spec_button_code(button) == code,
            None => code > MAX_BUTTON_CODE,
        },
{
}

} // verus!
