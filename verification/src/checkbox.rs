//! A check box that asks: the box never changes its own state, it reports
//! the state it would move to, and the host accepts by setting it.

use crate::text::same_text;
use vstd::prelude::*;

verus! {

/// A checkbox state.
#[derive(Clone, Copy, Debug, PartialEq, Eq, Structural)]
pub enum CheckState {
    /// The box is empty.
    Unchecked,
    /// The box is filled with a check mark.
    Checked,
    /// The box shows a horizontal bar.
    Indeterminate,
}

/// Events of a [`CheckBox`].
#[derive(Clone, Copy, Debug, PartialEq, Eq, Structural)]
pub enum CheckBoxEvent {
    /// The user asks for `state`.
    Toggled { control: usize, state: CheckState },
}

/// A check box with its label.
#[derive(Debug)]
pub struct CheckBox {
    pub control: usize,
    pub state: CheckState,
    pub label: Option<String>,
}

/// What a [`CheckBox`] holds.
#[verifier::ext_equal]
pub struct CheckModel {
    pub control: usize,
    pub state: CheckState,
    pub label: Option<Seq<char>>,
}

impl View for CheckBox {
    type V = CheckModel;

    open spec fn view(&self) -> CheckModel {
        CheckModel {
            control: self.control,
            state: self.state,
            label: match self.label {
                Some(l) => Some(l@),
                None => None,
            },
        }
    }
}

/// The state of a box that is on or off.
pub open spec fn state_of(on: bool) -> CheckState {
    if on {
        CheckState::Checked
    } else {
        CheckState::Unchecked
    }
}

/// The state a toggle asks for: empty after full, full otherwise.
pub open spec fn toggled(state: CheckState) -> CheckState {
    match state {
        CheckState::Checked => CheckState::Unchecked,
        _ => CheckState::Checked,
    }
}

/// Whether a key toggles the box.
pub open spec fn toggles(key: Seq<char>) -> bool {
    key == "space"@ || key == "enter"@
}

impl CheckBox {
    /// A box for `control` in `state`, without a label.
    pub fn new(control: usize, state: CheckState) -> (r: CheckBox)
        ensures
            r@ == (CheckModel { control, state, label: None }),
    {
        CheckBox { control, state, label: None }
    }

    /// The same box with a label next to it.
    pub fn with_label(self, label: String) -> (r: CheckBox)
        ensures
            r@ == (CheckModel { label: Some(label@), ..self@ }),
    {
        CheckBox { control: self.control, state: self.state, label: Some(label) }
    }

    /// The current state.
    pub fn state(&self) -> (r: CheckState)
        ensures
            r == self.state,
    {
        self.state
    }

    /// The host's acceptance.
    pub fn set_state(&mut self, state: CheckState)
        ensures
            final(self)@ == (CheckModel { state, ..old(self)@ }),
    {
        self.state = state;
    }

    /// What a click asks for.
    pub fn request_toggle(&self) -> (r: CheckBoxEvent)
        ensures
            r == (CheckBoxEvent::Toggled { control: self.control, state: toggled(self.state) }),
    {
        let state: CheckState = match self.state {
            CheckState::Checked => CheckState::Unchecked,
            _ => CheckState::Checked,
        };
        CheckBoxEvent::Toggled { control: self.control, state }
    }

    /// What a key asks for; other keys are left to others.
    pub fn key_down(&self, key: &str) -> (r: Option<CheckBoxEvent>)
        ensures
            r == if toggles(key@) {
                Some(
                    CheckBoxEvent::Toggled { control: self.control, state: toggled(self.state) },
                )
            } else {
                None
            },
    {
        if same_text(key, "space") || same_text(key, "enter") {
            Some(self.request_toggle())
        } else {
            None
        }
    }
}

/// The theme's colours that a box uses, as 24-bit RGB.
#[derive(Clone, Copy, Debug, PartialEq, Eq, Structural)]
pub struct BoxColors {
    pub selected: u32,
    pub border: u32,
}

/// The fill: the theme's selection colour, or white while unchecked.
pub fn checkbox_fill(colors: &BoxColors, checked: bool) -> (r: u32)
    ensures
        r == if checked {
            colors.selected
        } else {
            0xFFFFFFu32
        },
{
    if checked {
        colors.selected
    } else {
        0xFFFFFF
    }
}

/// The border: the theme's, or black while unchecked.
pub fn checkbox_border(colors: &BoxColors, checked: bool) -> (r: u32)
    ensures
        r == if checked {
            colors.border
        } else {
            0u32
        },
{
    if checked {
        colors.border
    } else {
        0x000000
    }
}

/// Accepting two requests in a row brings a box that was checked or
/// unchecked back.
pub proof fn lemma_two_toggles(state: CheckState)
    requires
        state != CheckState::Indeterminate,
    ensures
        toggled(toggled(state)) == state,
        toggled(state) != state,
{
}

} // verus!
