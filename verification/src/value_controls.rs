//! The gestures of the two value controls: the slider and the spin box.
//!
//! The value itself lives in the host's range model. A gesture is decided
//! here, carried out on the model by the host, and reported when the model
//! says that the value changed: once per gesture, on release for a drag.

use crate::number_text::parse_integer;
use crate::rational::Rational;
use crate::text::{joined, same_text, signed_decimal, trim};
use vstd::prelude::*;

verus! {

/// The value of a control. Floats are carried by their bit pattern.
#[derive(Clone, Copy, Debug)]
pub enum SliderValue {
    Integer(i64),
    Float(u64),
    Angle(u64),
    Rational(Rational),
}

/// Events of a [`Slider`].
#[derive(Clone, Copy, Debug)]
pub enum SliderEvent {
    /// The value changed.
    ValueChanged { control: usize, value: SliderValue },
    /// A drag started.
    DragStarted { control: usize },
    /// A drag ended.
    DragFinished { control: usize },
}

/// Events of a [`SpinBox`].
#[derive(Clone, Copy, Debug)]
pub enum SpinBoxEvent {
    /// The value changed.
    ValueChanged { control: usize, value: SliderValue },
    /// A host's own editor committed.
    EditCommitted { control: usize, value: SliderValue },
}

/// What the host does to its range model.
#[derive(Clone, Copy, Debug, PartialEq, Eq, Structural)]
pub enum ModelStep {
    /// One step up or down; a fine one is a tenth.
    Step { up: bool, fine: bool },
    /// To the start of the range.
    ToStart,
    /// To the end of the range.
    ToEnd,
    /// To the value it was made with.
    Reset,
}

/// A key's effect on a control.
#[derive(Clone, Copy, Debug, PartialEq, Eq, Structural)]
pub enum ControlKey {
    /// Left to others.
    Ignored,
    /// Taken by the open editor.
    Editing,
    /// Change the value.
    Change(ModelStep),
    /// Open the editor with the typed character in place of the value.
    BeginEdit,
}

/// The text that a typed value commits as.
#[derive(Clone, Copy, Debug, PartialEq, Eq, Structural)]
pub enum Typed {
    /// Not a value: nothing changes.
    Nothing,
    /// An integer, for the model to clamp.
    Integer(i64),
    /// A number that the host reads.
    Number,
}

/// What a typed text commits as: with an integer value, an integer without
/// the white space around it, or nothing.
pub fn apply_text(value: &SliderValue, text: &str) -> (r: Typed)
    ensures
        r == (match *value {
            SliderValue::Integer(_) => match crate::number_text::integer_of(
                crate::text::trimmed(text@),
            ) {
                Some(v) => Typed::Integer(v),
                None => Typed::Nothing,
            },
            _ => Typed::Number,
        }),
{
    match value {
        SliderValue::Integer(_) => match parse_integer(trim(text).as_str()) {
            Some(v) => Typed::Integer(v),
            None => Typed::Nothing,
        },
        _ => Typed::Number,
    }
}

/// The text of a value; the host writes floats and angles.
pub fn display_value(value: &SliderValue) -> (r: Option<String>)
    ensures
        match *value {
            SliderValue::Integer(v) => r is Some && r.unwrap()@ == crate::text::signed_text(
                v as int,
            ),
            SliderValue::Rational(t) => r is Some && r.unwrap()@ == crate::text::signed_text(
                t.num as int,
            ) + "/"@ + crate::text::signed_text(t.den as int),
            _ => r is None,
        },
{
    match value {
        SliderValue::Integer(v) => Some(signed_decimal(*v)),
        SliderValue::Rational(t) => Some(
            joined(
                joined(signed_decimal(t.num).as_str(), "/").as_str(),
                signed_decimal(t.den).as_str(),
            ),
        ),
        _ => None,
    }
}

/// The gesture state of a slider. `jumped` is set while a press that changed
/// the value is held: the release reports it.
#[derive(Clone, Copy, Debug, PartialEq, Eq, Structural)]
pub struct Slider {
    pub control: usize,
    pub editing: bool,
    pub edit_cancel: bool,
    pub dragging: bool,
    pub jumped: bool,
}

/// A drag in flight: who started it, and whether its origin is known. Drag
/// moves reach every slider under the cursor.
#[derive(Clone, Copy, Debug, PartialEq, Eq, Structural)]
pub struct SliderDrag {
    pub control: usize,
    pub first: bool,
}

/// What a drag move does.
#[derive(Clone, Copy, Debug, PartialEq, Eq, Structural)]
pub enum DragStep {
    /// It is another slider's drag.
    Foreign,
    /// Follow the cursor; `record_origin` on the first move, `started` when
    /// [`SliderEvent::DragStarted`] is due.
    Follow { record_origin: bool, started: bool },
}

/// The step for a key of the slider.
pub open spec fn slider_step(key: Seq<char>, fine: bool) -> Option<ModelStep> {
    if key == "left"@ {
        Some(ModelStep::Step { up: false, fine })
    } else if key == "right"@ {
        Some(ModelStep::Step { up: true, fine })
    } else if key == "home"@ {
        Some(ModelStep::ToStart)
    } else if key == "end"@ {
        Some(ModelStep::ToEnd)
    } else {
        None
    }
}

/// What a drag move over a slider comes to: the slider, the drag, and what
/// the host does.
pub open spec fn dragged(s: Slider, drag: SliderDrag) -> (Slider, SliderDrag, DragStep) {
    if drag.control != s.control {
        (s, drag, DragStep::Foreign)
    } else {
        (
            Slider { dragging: true, ..s },
            SliderDrag { first: false, ..drag },
            DragStep::Follow { record_origin: drag.first, started: !s.dragging },
        )
    }
}

/// What a press that jumps to the cursor comes to.
pub open spec fn pressed(s: Slider, changed: bool) -> Slider {
    Slider { jumped: changed, ..s }
}

/// The report of a slider's value.
pub open spec fn report(s: Slider, value: SliderValue) -> SliderEvent {
    SliderEvent::ValueChanged { control: s.control, value }
}

/// What the end of a drag comes to: the slider, and the events of the drag.
pub open spec fn drag_finished(s: Slider, value: SliderValue) -> (
    Slider,
    Option<(SliderEvent, SliderEvent)>,
) {
    if s.dragging {
        (
            Slider { dragging: false, jumped: false, ..s },
            Some((report(s, value), SliderEvent::DragFinished { control: s.control })),
        )
    } else {
        (s, None)
    }
}

/// What a release over or outside a slider comes to: the slider, and the
/// events of the gesture that ends, whether it was a drag or a press.
pub open spec fn released(s: Slider, value: SliderValue) -> (Slider, Seq<SliderEvent>) {
    if s.dragging {
        (
            Slider { dragging: false, jumped: false, ..s },
            seq![report(s, value), SliderEvent::DragFinished { control: s.control }],
        )
    } else if s.jumped {
        (Slider { jumped: false, ..s }, seq![report(s, value)])
    } else {
        (s, Seq::empty())
    }
}

impl Slider {
    /// A slider at rest.
    pub fn new(control: usize) -> (r: Slider)
        ensures
            r == (Slider {
                control,
                editing: false,
                edit_cancel: false,
                dragging: false,
                jumped: false,
            }),
    {
        Slider { control, editing: false, edit_cancel: false, dragging: false, jumped: false }
    }

    /// A drag move over this slider.
    pub fn drag_move(&mut self, drag: &mut SliderDrag) -> (r: DragStep)
        ensures
            (*final(self), *final(drag), r) == dragged(*old(self), *old(drag)),
    {
        if drag.control != self.control {
            return DragStep::Foreign;
        }
        let record_origin: bool = drag.first;
        drag.first = false;
        let started: bool = !self.dragging;
        self.dragging = true;
        DragStep::Follow { record_origin, started }
    }

    /// Ends a drag: its events, none without one.
    pub fn finish_drag(&mut self, value: SliderValue) -> (r: Option<(SliderEvent, SliderEvent)>)
        ensures
            (*final(self), r) == drag_finished(*old(self), value),
    {
        if self.dragging {
            self.dragging = false;
            self.jumped = false;
            Some(
                (
                    SliderEvent::ValueChanged { control: self.control, value },
                    SliderEvent::DragFinished { control: self.control },
                ),
            )
        } else {
            None
        }
    }

    /// The mouse button was released, here or elsewhere: the events of the
    /// gesture that ends.
    pub fn mouse_up(&mut self, value: SliderValue) -> (r: Vec<SliderEvent>)
        ensures
            *final(self) == released(*old(self), value).0,
            r@ == released(*old(self), value).1,
    {
        let mut events: Vec<SliderEvent> = Vec::new();
        match self.finish_drag(value) {
            Some((changed, finished)) => {
                events.push(changed);
                events.push(finished);
            },
            None => {
                if self.jumped {
                    self.jumped = false;
                    events.push(SliderEvent::ValueChanged { control: self.control, value });
                }
            },
        }
        assert(events@ =~= released(*old(self), value).1);
        events
    }

    /// Whether a press jumps the value to the cursor: a single one, on a
    /// track that has been laid out with a width, with no editor open.
    pub fn mouse_down(&self, click_count: usize, laid_out: bool) -> (r: bool)
        ensures
            r == (click_count < 2 && !self.editing && laid_out),
    {
        click_count < 2 && !self.editing && laid_out
    }

    /// A press jumped to the cursor, and changed the value or not. It reports
    /// nothing: the press may be the start of a drag.
    pub fn jump(&mut self, changed: bool)
        ensures
            *final(self) == pressed(*old(self), changed),
    {
        self.jumped = changed;
    }

    /// A middle press resets the value.
    pub fn middle_down(&self) -> (r: ModelStep)
        ensures
            r == ModelStep::Reset,
    {
        ModelStep::Reset
    }

    /// Whether a click opens the editor; it is open then.
    pub fn click(&mut self, click_count: usize) -> (r: bool)
        ensures
            r == (click_count >= 2),
            *final(self) == if r {
                (Slider { editing: true, ..*old(self) })
            } else {
                *old(self)
            },
    {
        if click_count >= 2 {
            self.editing = true;
            true
        } else {
            false
        }
    }

    /// A wheel turn.
    pub fn wheel(&self, up: bool, fine: bool) -> (r: ModelStep)
        ensures
            r == (ModelStep::Step { up, fine }),
    {
        ModelStep::Step { up, fine }
    }

    /// A key. With the editor open, Escape makes the edit one to drop and
    /// every key is the editor's.
    pub fn key_down(&mut self, key: &str, fine: bool) -> (r: ControlKey)
        ensures
            if old(self).editing {
                &&& r == ControlKey::Editing
                &&& *final(self) == (Slider {
                    edit_cancel: old(self).edit_cancel || key@ == "escape"@,
                    ..*old(self)
                })
            } else {
                &&& *final(self) == *old(self)
                &&& r == (match slider_step(key@, fine) {
                    Some(step) => ControlKey::Change(step),
                    None => ControlKey::Ignored,
                })
            },
    {
        if self.editing {
            if same_text(key, "escape") {
                self.edit_cancel = true;
            }
            return ControlKey::Editing;
        }
        if same_text(key, "left") {
            ControlKey::Change(ModelStep::Step { up: false, fine })
        } else if same_text(key, "right") {
            ControlKey::Change(ModelStep::Step { up: true, fine })
        } else if same_text(key, "home") {
            ControlKey::Change(ModelStep::ToStart)
        } else if same_text(key, "end") {
            ControlKey::Change(ModelStep::ToEnd)
        } else {
            ControlKey::Ignored
        }
    }

    /// The editor lost focus: whether its text is committed.
    pub fn editor_blur(&mut self) -> (r: bool)
        ensures
            r == !old(self).edit_cancel,
            *final(self) == (Slider { editing: false, edit_cancel: false, ..*old(self) }),
    {
        let commit: bool = !self.edit_cancel;
        self.editing = false;
        self.edit_cancel = false;
        commit
    }

    /// Whether a key in the value box commits its text.
    pub fn value_box_key(&self, key: &str) -> (r: bool)
        ensures
            r == (key@ == "enter"@),
    {
        same_text(key, "enter")
    }

    /// Whether the value box has to be brought up to date: it is not focused,
    /// and shows another text than the value's.
    pub fn value_box_is_stale(&self, focused: bool, shown: &str, current: &str) -> (r: bool)
        ensures
            r == (!focused && shown@ != current@),
    {
        !focused && !same_text(shown, current)
    }

    /// The event for a value that may have changed.
    pub fn emit_changed(&self, changed: bool, value: SliderValue) -> (r: Option<SliderEvent>)
        ensures
            r == if changed {
                Some(SliderEvent::ValueChanged { control: self.control, value })
            } else {
                None
            },
    {
        if changed {
            Some(SliderEvent::ValueChanged { control: self.control, value })
        } else {
            None
        }
    }
}

/// The gesture state of a spin box.
#[derive(Clone, Copy, Debug, PartialEq, Eq, Structural)]
pub struct SpinBox {
    pub control: usize,
    pub editing: bool,
    pub edit_cancel: bool,
}

/// The step for a key of the spin box.
pub open spec fn spin_step(key: Seq<char>, fine: bool) -> Option<ModelStep> {
    if key == "up"@ {
        Some(ModelStep::Step { up: true, fine })
    } else if key == "down"@ {
        Some(ModelStep::Step { up: false, fine })
    } else if key == "home"@ {
        Some(ModelStep::ToStart)
    } else if key == "end"@ {
        Some(ModelStep::ToEnd)
    } else {
        None
    }
}

/// Whether a key is the first character of a number.
pub open spec fn starts_number(key: Seq<char>) -> bool {
    key.len() == 1 && (crate::number_text::digit_value(key[0]) is Some || key[0] == '-' || key[0]
        == '.')
}

fn is_number_start(key: &str) -> (r: bool)
    ensures
        r == starts_number(key@),
{
    if key.unicode_len() != 1 {
        return false;
    }
    let c: char = key.get_char(0);
    let code: u32 = c as u32;
    (code >= 48 && code <= 57) || c == '-' || c == '.'
}

impl SpinBox {
    /// A spin box at rest.
    pub fn new(control: usize) -> (r: SpinBox)
        ensures
            r == (SpinBox { control, editing: false, edit_cancel: false }),
    {
        SpinBox { control, editing: false, edit_cancel: false }
    }

    /// Whether a click opens the editor; it is open then.
    pub fn click(&mut self, click_count: usize) -> (r: bool)
        ensures
            r == (click_count >= 2),
            *final(self) == if r {
                (SpinBox { editing: true, ..*old(self) })
            } else {
                *old(self)
            },
    {
        if click_count >= 2 {
            self.editing = true;
            true
        } else {
            false
        }
    }

    /// A wheel turn: only a focused box without an editor steps.
    pub fn wheel(&self, focused: bool, up: bool, fine: bool) -> (r: Option<ModelStep>)
        ensures
            r == if focused && !self.editing {
                Some(ModelStep::Step { up, fine })
            } else {
                None
            },
    {
        if self.editing || !focused {
            None
        } else {
            Some(ModelStep::Step { up, fine })
        }
    }

    /// A key. `shift` makes a step fine; `plain` says that no modifier is
    /// held. Without a step for the key, the first character of a number
    /// opens the editor.
    pub fn key_down(&mut self, key: &str, shift: bool, plain: bool) -> (r: ControlKey)
        ensures
            if old(self).editing {
                &&& r == ControlKey::Editing
                &&& *final(self) == (SpinBox {
                    edit_cancel: old(self).edit_cancel || key@ == "escape"@,
                    ..*old(self)
                })
            } else {
                match spin_step(key@, shift) {
                    Some(step) => r == ControlKey::Change(step) && *final(self) == *old(self),
                    None => if starts_number(key@) && plain {
                        r == ControlKey::BeginEdit && *final(self) == (SpinBox {
                            editing: true,
                            ..*old(self)
                        })
                    } else {
                        r == ControlKey::Ignored && *final(self) == *old(self)
                    },
                }
            },
    {
        if self.editing {
            if same_text(key, "escape") {
                self.edit_cancel = true;
            }
            return ControlKey::Editing;
        }
        if same_text(key, "up") {
            ControlKey::Change(ModelStep::Step { up: true, fine: shift })
        } else if same_text(key, "down") {
            ControlKey::Change(ModelStep::Step { up: false, fine: shift })
        } else if same_text(key, "home") {
            ControlKey::Change(ModelStep::ToStart)
        } else if same_text(key, "end") {
            ControlKey::Change(ModelStep::ToEnd)
        } else if is_number_start(key) && plain {
            self.editing = true;
            ControlKey::BeginEdit
        } else {
            ControlKey::Ignored
        }
    }

    /// The editor lost focus: whether its text is committed.
    pub fn editor_blur(&mut self) -> (r: bool)
        ensures
            r == !old(self).edit_cancel,
            *final(self) == (SpinBox { editing: false, edit_cancel: false, ..*old(self) }),
    {
        let commit: bool = !self.edit_cancel;
        self.editing = false;
        self.edit_cancel = false;
        commit
    }

    /// The event for a value that may have changed.
    pub fn emit_changed(&self, changed: bool, value: SliderValue) -> (r: Option<SpinBoxEvent>)
        ensures
            r == if changed {
                Some(SpinBoxEvent::ValueChanged { control: self.control, value })
            } else {
                None
            },
    {
        if changed {
            Some(SpinBoxEvent::ValueChanged { control: self.control, value })
        } else {
            None
        }
    }
}

/// What a slider and a drag come to after `n` drag moves, and the events on
/// the way.
pub open spec fn dragged_on(s: Slider, drag: SliderDrag, n: nat) -> (
    Slider,
    SliderDrag,
    Seq<SliderEvent>,
)
    decreases n,
{
    if n == 0 {
        (s, drag, Seq::empty())
    } else {
        let (before, held, events) = dragged_on(s, drag, (n - 1) as nat);
        let (after, moved, step) = dragged(before, held);
        (
            after,
            moved,
            match step {
                DragStep::Follow { record_origin, started } => if started {
                    events.push(SliderEvent::DragStarted { control: after.control })
                } else {
                    events
                },
                DragStep::Foreign => events,
            },
        )
    }
}

/// The events of a whole gesture: a press that jumps, `n` drag moves, and the
/// release, with the value then.
pub open spec fn gesture_events(
    s: Slider,
    drag: SliderDrag,
    changed: bool,
    n: nat,
    value: SliderValue,
) -> Seq<SliderEvent> {
    let (held, moved, events) = dragged_on(pressed(s, changed), drag, n);
    events + released(held, value).1
}

proof fn lemma_dragged_on(s: Slider, drag: SliderDrag, n: nat)
    requires
        drag.control == s.control,
        !s.dragging,
        n > 0,
    ensures
        dragged_on(s, drag, n) == (
            Slider { dragging: true, ..s },
            SliderDrag { first: false, ..drag },
            seq![SliderEvent::DragStarted { control: s.control }],
        ),
    decreases n,
{
    if n == 1 {
        assert(dragged_on(s, drag, 0) == (s, drag, Seq::<SliderEvent>::empty()));
        assert(dragged_on(s, drag, 1).2 =~= seq![
            SliderEvent::DragStarted { control: s.control },
        ]);
    } else {
        lemma_dragged_on(s, drag, (n - 1) as nat);
    }
}

/// A gesture reports its value at most once, on the release. One with drag
/// moves reports exactly once, whatever the press did: it starts, reports the
/// value it ends with, and is over. A press without moves reports when it
/// changed the value. The slider is then at rest again.
pub proof fn lemma_one_report_per_gesture(
    s: Slider,
    drag: SliderDrag,
    changed: bool,
    n: nat,
    value: SliderValue,
)
    requires
        drag.control == s.control,
        !s.dragging,
        !s.jumped,
    ensures
        gesture_events(s, drag, changed, n, value) == if n > 0 {
            seq![
                SliderEvent::DragStarted { control: s.control },
                report(s, value),
                SliderEvent::DragFinished { control: s.control },
            ]
        } else if changed {
            seq![report(s, value)]
        } else {
            Seq::empty()
        },
        released(dragged_on(pressed(s, changed), drag, n).0, value).0 == s,
{
    let held = dragged_on(pressed(s, changed), drag, n).0;
    if n > 0 {
        lemma_dragged_on(pressed(s, changed), drag, n);
        assert(gesture_events(s, drag, changed, n, value) =~= seq![
            SliderEvent::DragStarted { control: s.control },
            report(s, value),
            SliderEvent::DragFinished { control: s.control },
        ]);
    } else {
        assert(gesture_events(s, drag, changed, n, value) =~= released(held, value).1);
    }
}

/// A drag records where it begins with its first move, and never again.
pub proof fn lemma_one_origin_per_drag(s: Slider, drag: SliderDrag, n: nat)
    requires
        drag.control == s.control,
        drag.first,
        !s.dragging,
    ensures
        ({
            let (before, held, events) = dragged_on(s, drag, n);
            dragged(before, held).2 == (DragStep::Follow {
                record_origin: n == 0,
                started: n == 0,
            })
        }),
{
    if n > 0 {
        lemma_dragged_on(s, drag, n);
    }
}

/// A drag that another slider started changes nothing here.
pub proof fn lemma_foreign_drag(s: Slider, drag: SliderDrag)
    requires
        drag.control != s.control,
    ensures
        dragged(s, drag) == (s, drag, DragStep::Foreign),
{
}

} // verus!
