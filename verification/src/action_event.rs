//! The lifecycle events that a frame gives rise to.

use vstd::prelude::*;
use crate::strength::Strength;

verus! {

/// An action contributes in this frame.
pub struct OnActionActive {
    pub action: String,
    pub strength: Strength,
}

/// An action contributes in this frame and did not in the one before.
pub struct OnActionBegin {
    pub action: String,
    pub strength: Strength,
}

/// An action contributes in this frame as in the one before.
pub struct OnActionProgress {
    pub action: String,
    pub strength: Strength,
}

/// An action that contributed in the frame before no longer does.
pub struct OnActionEnd {
    pub action: String,
}

impl View for OnActionActive {
    type V = (Seq<char>, Strength);

    open spec fn view(&self) -> (Seq<char>, Strength) {
        (self.action@, self.strength)
    }
}

impl View for OnActionBegin {
    type V = (Seq<char>, Strength);

    open spec fn view(&self) -> (Seq<char>, Strength) {
        (self.action@, self.strength)
    }
}

impl View for OnActionProgress {
    type V = (Seq<char>, Strength);

    open spec fn view(&self) -> (Seq<char>, Strength) {
        (self.action@, self.strength)
    }
}

impl View for OnActionEnd {
    type V = Seq<char>;

    open spec fn view(&self) -> Seq<char> {
        self.action@
    }
}

/// The events of one frame, one list per kind.
pub struct ActionEvents {
    pub active: Vec<OnActionActive>,
    pub begin: Vec<OnActionBegin>,
    pub progress: Vec<OnActionProgress>,
    pub end: Vec<OnActionEnd>,
}

/// The views of the items of `s`, in order.
pub open spec fn views<T: View>(s: Seq<T>) -> Seq<T::V> {
    Seq::new(s.len(), |i: int| s[i]@)
}

} // verus!
