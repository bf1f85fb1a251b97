//! Input abstraction: named actions bound to keys, buttons and axes, sampled
//! once per frame and classified by lifecycle phase.
//!
//! A frame has three steps, in this order: `action_reset_system`, then the
//! samplers and `gamepad_event_system` in any order, then
//! `action_event_producer`.

pub mod action_event;
pub mod action_map;
pub mod assoc;
pub mod bindings;
pub mod gamepad;
pub mod kurinji;
pub mod pad_button;
pub mod phase;
pub mod players;
pub mod sampling;
pub mod strength;

pub use crate::action_event::{
    ActionEvents, OnActionActive, OnActionBegin, OnActionEnd, OnActionProgress,
};
pub use crate::bindings::{BindingKey, Bindings, DeviceClass};
pub use crate::gamepad::{PadEvent, PadNotice};
pub use crate::kurinji::Kurinji;
pub use crate::strength::Strength;
