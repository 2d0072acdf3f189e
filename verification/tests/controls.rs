//! The check box, the combo box, the slider and the spin box.

use oak_app::checkbox::{
    checkbox_border, checkbox_fill, BoxColors, CheckBox, CheckBoxEvent, CheckState,
};
use oak_app::combobox::{ComboBox, ComboBoxEvent, ComboBoxOption, Direction};
use oak_app::forms::IntField;
use oak_app::number_text::parse_integer;
use oak_app::rational::Rational;
use oak_app::value_controls::{
    apply_text, display_value, ControlKey, DragStep, ModelStep, Slider, SliderDrag, SliderEvent,
    SliderValue, SpinBox, SpinBoxEvent, Typed,
};

#[test]
fn checkbox_fill_uses_theme_colors() {
    let dark = BoxColors { selected: 0x2a63d9, border: 0x616161 };
    assert_eq!(checkbox_fill(&dark, false), 0xFFFFFF, "an unchecked box is white");
    assert_eq!(checkbox_border(&dark, false), 0x000000, "an unchecked box has a black border");
    assert_eq!(
        checkbox_fill(&dark, true),
        dark.selected,
        "a checked box uses the theme selection colour"
    );
    assert_eq!(checkbox_border(&dark, true), dark.border);

    let light = BoxColors { selected: 0x79aef5, border: 0xd9d9d9 };
    assert_eq!(checkbox_fill(&light, false), 0xFFFFFF);
    assert_eq!(checkbox_border(&light, false), 0x000000);
    assert_eq!(checkbox_fill(&light, true), light.selected);
    assert_eq!(checkbox_border(&light, true), light.border);
}

fn option(index: usize, label: &str) -> ComboBoxOption {
    ComboBoxOption::new(index, label.to_string())
}

fn asks(state: CheckState) -> CheckBoxEvent {
    CheckBoxEvent::Toggled { control: 2, state }
}

#[test]
fn combobox_and_checkbox_state_paths() {
    let mut c = ComboBox::new(3, vec![option(0, "One"), option(1, "Two")])
        .with_placeholder("Pick".to_string());
    assert_eq!(c.selected(), None);
    assert_eq!(c.label(), "Pick");
    c.set_selected(Some(1));
    assert_eq!(c.selected(), Some(1));
    assert_eq!(c.label(), "Two");
    assert_eq!(
        c.move_selection(Direction::Down),
        Some(ComboBoxEvent::Selected { value: 0 })
    );
    assert_eq!(c.selected(), Some(0), "wraps forward");
    c.move_selection(Direction::Up);
    assert_eq!(c.selected(), Some(1), "wraps backward");
    c.select(0);
    assert_eq!(c.selected(), Some(0));
    assert!(!c.open);

    c.set_options(vec![option(0, "Only")]);
    assert_eq!(c.selected(), None, "a new option list resets selection");
    assert!(!c.open);
    c.move_selection(Direction::Down);
    assert_eq!(c.selected(), Some(0));

    c.set_options(Vec::new());
    assert_eq!(c.move_selection(Direction::Down), None);
    assert_eq!(c.selected(), None, "an empty list ignores moves");

    let mut check = CheckBox::new(2, CheckState::Unchecked).with_label("Enable".to_string());
    assert_eq!(check.request_toggle(), asks(CheckState::Checked));
    assert_eq!(check.state(), CheckState::Unchecked, "request-only");
    check.set_state(CheckState::Indeterminate);
    assert_eq!(check.request_toggle(), asks(CheckState::Checked));
    assert_eq!(check.state(), CheckState::Indeterminate);
    check.set_state(CheckState::Checked);
    assert_eq!(check.request_toggle(), asks(CheckState::Unchecked));
    assert_eq!(check.state(), CheckState::Checked);
}

#[test]
fn checkbox_keyboard_requests_the_toggle() {
    let check = CheckBox::new(2, CheckState::Unchecked);
    assert_eq!(check.key_down("space"), Some(asks(CheckState::Checked)));
    assert_eq!(check.key_down("enter"), Some(asks(CheckState::Checked)));
    assert_eq!(check.key_down("a"), None);
    assert_eq!(check.state(), CheckState::Unchecked, "the state never moved");
}

#[test]
fn combobox_pointer_and_keyboard_selection_paths() {
    let mut c = ComboBox::new(3, vec![option(0, "One"), option(1, "Two"), option(2, "Three")])
        .with_placeholder("Pick".to_string());
    c.mouse_down();
    assert!(c.open, "click opened the popup");

    c.key_down("down");
    c.key_down("up");
    c.key_down("up");
    assert_eq!(c.highlight, 2, "Up wrapped the highlight to the last option");
    let enter = c.key_down("enter");
    assert_eq!(enter.event, Some(ComboBoxEvent::Selected { value: 2 }));
    assert_eq!(c.selected(), Some(2));
    assert!(!c.open);

    c.key_down("down");
    assert_eq!(c.selected(), Some(0), "wrap");
    assert!(!c.key_down("a").taken);
    assert_eq!(c.selected(), Some(0));

    c.key_down("space");
    assert!(c.open);
    c.key_down("escape");
    assert!(!c.open);

    c.key_down("space");
    assert_eq!(c.click_option(1), Some(ComboBoxEvent::Selected { value: 1 }));
    assert!(!c.open, "the option click closes");
    assert_eq!(c.click_option(9), None);

    let before = c.selected();
    c.mouse_down();
    assert!(c.open);
    c.mouse_down_out();
    assert!(!c.open, "outside click dismisses");
    assert_eq!(c.selected(), before);

    c.set_options(Vec::new());
    c.key_down("space");
    c.key_down("down");
    c.key_down("enter");
    assert_eq!(c.selected(), None);
}

#[test]
fn slider_edit_drag_and_display_paths() {
    let mut field = IntField { control: 1, min: 0, max: 100, step: 5, value: 10 };
    field.set_value(1000);
    assert_eq!(field.value, 100);
    field.set_value(-3);
    assert_eq!(field.value, 0);

    // Finishing is nothing without a gesture, then one report.
    let mut s = Slider::new(1);
    assert!(s.finish_drag(SliderValue::Integer(7)).is_none());
    s.dragging = true;
    let (changed, finished) = s.finish_drag(SliderValue::Integer(7)).unwrap();
    assert!(!s.dragging);
    assert!(matches!(
        changed,
        SliderEvent::ValueChanged { control: 1, value: SliderValue::Integer(7) }
    ));
    assert!(matches!(finished, SliderEvent::DragFinished { control: 1 }));

    assert_eq!(display_value(&SliderValue::Integer(3)).unwrap(), "3");
    assert_eq!(display_value(&SliderValue::Integer(-12)).unwrap(), "-12");
    assert_eq!(
        display_value(&SliderValue::Rational(Rational { num: 3, den: 25 })).unwrap(),
        "3/25"
    );
    assert!(display_value(&SliderValue::Float(0)).is_none());
}

#[test]
fn spinbox_edit_and_emit_paths() {
    let mut field = IntField { control: 4, min: 120, max: 2160, step: 8, value: 180 };
    let value = |f: &IntField| SliderValue::Integer(f.value);
    assert_eq!(field.value, 180);
    field.set_value(1000);
    assert_eq!(field.value, 1000);
    field.set_value(100);
    assert_eq!(field.value, 120, "clamps to the minimum");
    match apply_text(&value(&field), " 320 ") {
        Typed::Integer(v) => field.set_value(v),
        other => panic!("{other:?}"),
    }
    assert_eq!(field.value, 320);
    assert_eq!(apply_text(&value(&field), "garbage"), Typed::Nothing);
    match apply_text(&value(&field), "5000") {
        Typed::Integer(v) => field.set_value(v),
        other => panic!("{other:?}"),
    }
    assert_eq!(field.value, 2160, "clamps to the maximum");
    let spin = SpinBox::new(4);
    assert!(spin.emit_changed(false, value(&field)).is_none());
    assert!(matches!(
        spin.emit_changed(true, value(&field)),
        Some(SpinBoxEvent::ValueChanged { control: 4, value: SliderValue::Integer(2160) })
    ));
    assert_eq!(display_value(&value(&field)).unwrap(), "2160");
    assert_eq!(apply_text(&SliderValue::Float(0), "0.75"), Typed::Number);
}

#[test]
fn slider_pointer_and_keyboard_paths() {
    let mut s = Slider::new(9);
    assert!(s.mouse_down(1, true), "a single press jumps");
    assert!(!s.mouse_down(2, true));
    assert!(!s.mouse_down(1, false));
    assert_eq!(s.middle_down(), ModelStep::Reset);
    assert_eq!(s.wheel(true, false), ModelStep::Step { up: true, fine: false });
    assert_eq!(
        s.key_down("right", false),
        ControlKey::Change(ModelStep::Step { up: true, fine: false })
    );
    assert_eq!(
        s.key_down("left", true),
        ControlKey::Change(ModelStep::Step { up: false, fine: true })
    );
    assert_eq!(s.key_down("home", false), ControlKey::Change(ModelStep::ToStart));
    assert_eq!(s.key_down("end", false), ControlKey::Change(ModelStep::ToEnd));
    assert_eq!(s.key_down("a", false), ControlKey::Ignored);
    assert!(!s.click(1));
    assert!(s.click(2));
    assert!(!s.mouse_down(1, true), "no jump under an open editor");
}

#[test]
fn slider_editor_commit_and_cancel_paths() {
    let mut s = Slider::new(9);
    let mut field = IntField { control: 9, min: 0, max: 100, step: 10, value: 50 };
    assert!(s.click(2));
    assert!(s.editing, "editor open");
    assert!(s.editor_blur(), "blur commits");
    if let Typed::Integer(v) = apply_text(&SliderValue::Integer(field.value), "75") {
        field.set_value(v);
    }
    assert_eq!(field.value, 80, "blur commits the typed value (snapped to the model's step)");
    assert!(!s.editing, "the editor closes on blur");

    s.click(2);
    assert_eq!(s.key_down("escape", false), ControlKey::Editing);
    assert!(s.edit_cancel);
    assert!(!s.editor_blur(), "an Escape-cancelled edit is dropped");
    assert!(!s.editing && !s.edit_cancel);
}

#[test]
fn slider_value_box_enter_commits() {
    let s = Slider::new(9);
    let mut field = IntField { control: 9, min: 0, max: 100, step: 10, value: 50 };
    assert!(s.value_box_key("enter"));
    assert!(!s.value_box_key("a"));
    if let Typed::Integer(v) = apply_text(&SliderValue::Integer(field.value), "42") {
        field.set_value(v);
    }
    assert_eq!(field.value, 40, "Enter in the value box commits (snapped to the model's step)");
}

#[test]
fn slider_drag_tracks_the_cursor_and_gates_other_sliders() {
    let mut top = Slider::new(1);
    let mut bottom = Slider::new(2);
    let mut drag = SliderDrag { control: 1, first: true };
    assert_eq!(
        top.drag_move(&mut drag),
        DragStep::Follow { record_origin: true, started: true }
    );
    assert_eq!(
        top.drag_move(&mut drag),
        DragStep::Follow { record_origin: false, started: false }
    );
    assert!(top.dragging, "drag started");
    assert_eq!(bottom.drag_move(&mut drag), DragStep::Foreign);
    assert!(!bottom.dragging);
    assert!(top.finish_drag(SliderValue::Integer(80)).is_some());
    assert!(!top.dragging, "mouse up finished");
    assert!(bottom.finish_drag(SliderValue::Integer(50)).is_none());
}

#[test]
fn spinbox_scroll_keyboard_and_editor_paths() {
    let mut spin = SpinBox::new(4);
    // Hover-wheel is inert: the field must be focused first.
    assert_eq!(spin.wheel(false, true, false), None);
    assert_eq!(
        spin.wheel(true, true, false),
        Some(ModelStep::Step { up: true, fine: false })
    );
    assert_eq!(
        spin.key_down("up", false, true),
        ControlKey::Change(ModelStep::Step { up: true, fine: false })
    );
    assert_eq!(
        spin.key_down("up", true, false),
        ControlKey::Change(ModelStep::Step { up: true, fine: true })
    );
    assert_eq!(spin.key_down("home", false, true), ControlKey::Change(ModelStep::ToStart));
    assert_eq!(spin.key_down("end", false, true), ControlKey::Change(ModelStep::ToEnd));
    assert_eq!(spin.key_down("a", false, true), ControlKey::Ignored);
    assert!(!spin.editing, "a letter is inert");
    assert_eq!(spin.key_down("7", false, false), ControlKey::Ignored);
    assert_eq!(spin.key_down("7", false, true), ControlKey::BeginEdit);
    assert!(spin.editing, "a digit starts an edit");
    assert_eq!(spin.wheel(true, true, false), None, "the wheel is inert while the editor is open");
    assert_eq!(spin.key_down("escape", false, true), ControlKey::Editing);
    assert!(spin.edit_cancel);
    assert!(!spin.editor_blur(), "Escape + blur does not commit");
    assert!(!spin.editing);
    assert!(spin.click(2));
    assert!(spin.editor_blur());
    assert_eq!(SpinBox::new(4).key_down("-", false, true), ControlKey::BeginEdit);
    assert_eq!(SpinBox::new(4).key_down(".", false, true), ControlKey::BeginEdit);
}

#[test]
fn integers_are_read_as_written() {
    assert_eq!(parse_integer("0"), Some(0));
    assert_eq!(parse_integer("-17"), Some(-17));
    assert_eq!(parse_integer("+17"), Some(17));
    assert_eq!(parse_integer("9223372036854775807"), Some(i64::MAX));
    assert_eq!(parse_integer("-9223372036854775808"), Some(i64::MIN));
    assert_eq!(parse_integer("9223372036854775808"), None);
    assert_eq!(parse_integer("-9223372036854775809"), None);
    assert_eq!(parse_integer(""), None);
    assert_eq!(parse_integer("-"), None);
    assert_eq!(parse_integer("1.5"), None);
    assert_eq!(parse_integer(" 1"), None);
}

#[test]
fn an_unfocused_value_box_follows_the_value() {
    let slider = Slider::new(1);
    assert!(slider.value_box_is_stale(false, "10", "15"));
    assert!(!slider.value_box_is_stale(false, "15", "15"));
    assert!(!slider.value_box_is_stale(true, "1", "15"));
}

#[test]
fn a_gesture_reports_once_on_the_release() {
    // A press that becomes a drag.
    let mut s = Slider::new(3);
    assert!(s.mouse_down(1, true));
    s.jump(true);
    let mut drag = SliderDrag { control: 3, first: true };
    assert_eq!(
        s.drag_move(&mut drag),
        DragStep::Follow { record_origin: true, started: true }
    );
    s.drag_move(&mut drag);
    let events = s.mouse_up(SliderValue::Integer(42));
    assert_eq!(events.len(), 2);
    assert!(matches!(
        events[0],
        SliderEvent::ValueChanged { control: 3, value: SliderValue::Integer(42) }
    ));
    assert!(matches!(events[1], SliderEvent::DragFinished { control: 3 }));
    assert_eq!(s, Slider::new(3));
    assert!(s.mouse_up(SliderValue::Integer(42)).is_empty());

    // A press alone, that changed the value and that did not.
    s.jump(true);
    assert_eq!(s.mouse_up(SliderValue::Integer(7)).len(), 1);
    s.jump(false);
    assert!(s.mouse_up(SliderValue::Integer(7)).is_empty());
}

#[test]
fn a_selecting_key_reports_the_option_shown() {
    let mut c = ComboBox::new(3, vec![option(0, "One"), option(1, "Two"), option(2, "Three")]);
    let labels = ["One", "Two", "Three"];
    for key in ["down", "down", "down", "up", "enter", "down", "enter"] {
        if let Some(ComboBoxEvent::Selected { value }) = c.key_down(key).event {
            assert_eq!(c.selected(), Some(value));
            assert_eq!(c.label(), labels[value]);
            assert!(!c.open);
        }
    }
    assert_eq!(c.label(), "One");
}
