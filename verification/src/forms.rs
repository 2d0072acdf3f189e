//! The fields that the dialogs are made of.

use crate::checkbox::{CheckBox, CheckState};
use crate::combobox::{ComboBox, ComboBoxOption};
use crate::text::{same_ignoring_case, same_text};
use vstd::prelude::*;

verus! {

/// What a list of texts holds.
pub open spec fn texts(list: Seq<String>) -> Seq<Seq<char>> {
    Seq::new(list.len(), |i: int| list[i]@)
}

/// The first index whose item has a property.
pub open spec fn first_where<T>(s: Seq<T>, p: spec_fn(T) -> bool) -> Option<int>
    decreases s.len(),
{
    if s.len() == 0 {
        None
    } else {
        match first_where(s.drop_last(), p) {
            Some(i) => Some(i),
            None => if p(s.last()) {
                Some(s.len() - 1)
            } else {
                None
            },
        }
    }
}

/// The first index whose item has the property: no item before it has.
pub proof fn lemma_first_where<T>(s: Seq<T>, p: spec_fn(T) -> bool)
    ensures
        match first_where(s, p) {
            Some(i) => 0 <= i < s.len() && p(s[i]) && forall|j: int| 0 <= j < i ==> !p(s[j]),
            None => forall|j: int| 0 <= j < s.len() ==> !p(s[j]),
        },
    decreases s.len(),
{
    if s.len() > 0 {
        lemma_first_where(s.drop_last(), p);
        assert forall|j: int| 0 <= j < s.len() - 1 implies s[j] == s.drop_last()[j] by {}
    }
}

proof fn lemma_found<T>(s: Seq<T>, p: spec_fn(T) -> bool, i: int)
    requires
        0 <= i < s.len(),
        p(s[i]),
        forall|j: int| 0 <= j < i ==> !p(s[j]),
    ensures
        first_where(s, p) == Some(i),
{
    lemma_first_where(s, p);
}

/// The property of being `text`.
pub open spec fn equal_to(text: Seq<char>) -> spec_fn(Seq<char>) -> bool {
    |t: Seq<char>| t == text
}

/// The property of being `text` but for the case of the letters A to Z.
pub open spec fn like(text: Seq<char>) -> spec_fn(Seq<char>) -> bool {
    |t: Seq<char>| crate::text::same_but_for_case(t, text)
}

/// The property of being the number `n`.
pub open spec fn number_is(n: i64) -> spec_fn(i64) -> bool {
    |m: i64| m == n
}

/// The index of a text, or the first one.
pub open spec fn index_or_first(i: Option<int>) -> usize {
    match i {
        Some(n) => n as usize,
        None => 0,
    }
}

/// The first index at which `text` stands.
pub fn text_position(list: &Vec<String>, text: &str) -> (r: Option<usize>)
    ensures
        match r {
            Some(i) => i < list.len() && first_where(texts(list@), equal_to(text@))
                == Some(i as int),
            None => first_where(texts(list@), equal_to(text@)) is None,
        },
{
    let ghost p = equal_to(text@);
    let ghost all = texts(list@);
    let mut i: usize = 0;
    while i < list.len()
        invariant
            i <= list.len(),
            all == texts(list@),
            p == equal_to(text@),
            forall|j: int| 0 <= j < i ==> !p(all[j]),
        decreases list.len() - i,
    {
        if same_text(list[i].as_str(), text) {
            proof {
                assert(p(all[i as int]));
                lemma_found(all, p, i as int);
            }
            return Some(i);
        }
        assert(!p(all[i as int]));
        i = i + 1;
    }
    proof {
        lemma_first_where(all, p);
    }
    None
}

/// The first index at which `text` stands, but for the case of its letters.
pub fn text_position_ignoring_case(list: &Vec<String>, text: &str) -> (r: Option<usize>)
    ensures
        match r {
            Some(i) => i < list.len() && first_where(texts(list@), like(text@)) == Some(i as int),
            None => first_where(texts(list@), like(text@)) is None,
        },
{
    let ghost p = like(text@);
    let ghost all = texts(list@);
    let mut i: usize = 0;
    while i < list.len()
        invariant
            i <= list.len(),
            all == texts(list@),
            p == like(text@),
            forall|j: int| 0 <= j < i ==> !p(all[j]),
        decreases list.len() - i,
    {
        if same_ignoring_case(list[i].as_str(), text) {
            proof {
                assert(p(all[i as int]));
                lemma_found(all, p, i as int);
            }
            return Some(i);
        }
        assert(!p(all[i as int]));
        i = i + 1;
    }
    proof {
        lemma_first_where(all, p);
    }
    None
}

/// The first index at which a number stands.
pub fn number_position(list: &Vec<i64>, n: i64) -> (r: Option<usize>)
    ensures
        match r {
            Some(i) => i < list.len() && first_where(list@, number_is(n)) == Some(i as int),
            None => first_where(list@, number_is(n)) is None,
        },
{
    let ghost p = number_is(n);
    let mut i: usize = 0;
    while i < list.len()
        invariant
            i <= list.len(),
            p == number_is(n),
            forall|j: int| 0 <= j < i ==> !p(list@[j]),
        decreases list.len() - i,
    {
        if list[i] == n {
            proof {
                assert(p(list@[i as int]));
                lemma_found(list@, p, i as int);
            }
            return Some(i);
        }
        assert(!p(list@[i as int]));
        i = i + 1;
    }
    proof {
        lemma_first_where(list@, p);
    }
    None
}

/// A copy of a list of texts.
pub fn copied_texts(list: &Vec<String>) -> (r: Vec<String>)
    ensures
        texts(r@) == texts(list@),
{
    let mut r: Vec<String> = Vec::new();
    let mut i: usize = 0;
    while i < list.len()
        invariant
            i <= list.len(),
            texts(r@) =~= texts(list@).take(i as int),
        decreases list.len() - i,
    {
        let ghost before = texts(r@);
        let t: String = list[i].clone();
        r.push(t);
        assert(texts(r@) =~= before.push(t@));
        i = i + 1;
    }
    assert(texts(list@).take(i as int) =~= texts(list@));
    r
}

/// Options numbered in order.
pub open spec fn numbered(labels: Seq<Seq<char>>) -> Seq<crate::combobox::OptionModel> {
    Seq::new(
        labels.len(),
        |i: int| crate::combobox::OptionModel { index: i as usize, label: labels[i] },
    )
}

/// Options numbered in order.
pub fn numbered_options(labels: Vec<String>) -> (r: Vec<ComboBoxOption>)
    ensures
        crate::combobox::options_model(r@) == numbered(texts(labels@)),
{
    let mut r: Vec<ComboBoxOption> = Vec::new();
    let mut i: usize = 0;
    while i < labels.len()
        invariant
            i <= labels.len(),
            r.len() == i,
            forall|j: int|
                0 <= j < i ==> (#[trigger] r@[j])@ == (crate::combobox::OptionModel {
                    index: j as usize,
                    label: labels@[j]@,
                }),
        decreases labels.len() - i,
    {
        r.push(ComboBoxOption::new(i, labels[i].clone()));
        i = i + 1;
    }
    assert(crate::combobox::options_model(r@) =~= numbered(texts(labels@)));
    r
}

/// A closed combo box over numbered options.
pub open spec fn combo_model(
    control: usize,
    labels: Seq<Seq<char>>,
    placeholder: Seq<char>,
    selected: Option<usize>,
) -> crate::combobox::ComboModel {
    crate::combobox::ComboModel {
        control,
        options: numbered(labels),
        selected,
        placeholder,
        open: false,
        highlight: 0,
    }
}

/// A closed combo box over numbered options.
pub fn combo(
    control: usize,
    labels: Vec<String>,
    placeholder: &str,
    selected: Option<usize>,
) -> (r: ComboBox)
    ensures
        r@ == combo_model(control, texts(labels@), placeholder@, selected),
{
    let mut c: ComboBox = ComboBox::new(control, numbered_options(labels)).with_placeholder(
        placeholder.to_owned(),
    );
    c.set_selected(selected);
    c
}

/// A check box that is on or off, with its label.
pub open spec fn check_model(control: usize, on: bool, label: Seq<char>) -> crate::checkbox::CheckModel {
    crate::checkbox::CheckModel {
        control,
        state: crate::checkbox::state_of(on),
        label: Some(label),
    }
}

/// A check box that is on or off, with its label.
pub fn check(control: usize, on: bool, label: &str) -> (r: CheckBox)
    ensures
        r@ == check_model(control, on, label@),
{
    let state: CheckState = if on {
        CheckState::Checked
    } else {
        CheckState::Unchecked
    };
    CheckBox::new(control, state).with_label(label.to_owned())
}

/// A field for an integer in a range, stepped by `step`.
#[derive(Clone, Copy, Debug, PartialEq, Eq, Structural)]
pub struct IntField {
    pub control: usize,
    pub min: i64,
    pub max: i64,
    pub step: i64,
    pub value: i64,
}

/// `v` brought into a range.
pub open spec fn clamped(v: int, min: int, max: int) -> int {
    if v < min {
        min
    } else if v > max {
        max
    } else {
        v
    }
}

/// `v` brought into a range.
pub fn clamp(v: i64, min: i64, max: i64) -> (r: i64)
    ensures
        r == clamped(v as int, min as int, max as int),
{
    if v < min {
        min
    } else if v > max {
        max
    } else {
        v
    }
}

/// The value nearest to `v` that a field takes: in its range, a whole number
/// of steps from its start; half a step goes up.
pub open spec fn settled(field: IntField, v: int) -> int {
    let c = clamped(v, field.min as int, field.max as int);
    if field.step <= 0 || c <= field.min {
        c
    } else {
        let steps = (2 * (c - field.min) + field.step) / (2 * field.step as int);
        let on = field.min + steps * field.step;
        if on > field.max {
            field.max as int
        } else {
            on
        }
    }
}

/// A field with another value.
pub open spec fn with_value(field: IntField, v: int) -> IntField {
    IntField { value: settled(field, v) as i64, ..field }
}

/// What a field takes lies in its range.
pub proof fn lemma_settled(field: IntField, v: int)
    requires
        field.min <= field.max,
    ensures
        field.min <= settled(field, v) <= field.max,
        field.step > 0 && field.min <= v <= field.max ==> -field.step <= 2 * (settled(field, v)
            - v) <= field.step,
{
    let c = clamped(v, field.min as int, field.max as int);
    if field.step > 0 && c > field.min {
        let step = field.step as int;
        let x = 2 * (c - field.min) + step;
        let steps = x / (2 * step);
        assert(0 <= steps && 2 * step * steps <= x < 2 * step * steps + 2 * step) by (nonlinear_arith)
            requires
                steps == x / (2 * step),
                step > 0,
                x >= 0,
        ;
        assert(2 * step * steps == 2 * (steps * step)) by (nonlinear_arith);
        assert(steps * step >= 0) by (nonlinear_arith)
            requires
                steps >= 0,
                step > 0,
        ;
    }
}

impl IntField {
    /// Sets the value, brought into the range and onto the steps.
    pub fn set_value(&mut self, value: i64)
        ensures
            *final(self) == with_value(*old(self), value as int),
    {
        let c: i64 = clamp(value, self.min, self.max);
        if self.step <= 0 || c <= self.min {
            self.value = c;
        } else {
            let step: i128 = self.step as i128;
            let from: i128 = self.min as i128;
            let x: i128 = 2 * (c as i128 - from) + step;
            let steps: i128 = x / (2 * step);
            proof {
                assert(0 <= steps && 2 * step * steps <= x) by (nonlinear_arith)
                    requires
                        steps as int == x as int / (2 * step as int),
                        step > 0,
                        x >= 0,
                ;
                assert(2 * step * steps == 2 * (steps * step)) by (nonlinear_arith);
                assert(steps * step >= 0) by (nonlinear_arith)
                    requires
                        steps >= 0,
                        step > 0,
                ;
            }
            let on: i128 = from + steps * step;
            if on > self.max as i128 {
                self.value = self.max;
            } else {
                self.value = on as i64;
            }
        }
    }
}

/// A field for a path; one that is not enabled takes no input.
#[derive(Debug)]
pub struct PathField {
    pub path: String,
    pub enabled: bool,
}

/// What a [`PathField`] holds.
#[verifier::ext_equal]
pub struct PathModel {
    pub path: Seq<char>,
    pub enabled: bool,
}

impl View for PathField {
    type V = PathModel;

    open spec fn view(&self) -> PathModel {
        PathModel { path: self.path@, enabled: self.enabled }
    }
}

impl PathField {
    /// A field that shows `path` and takes input.
    pub fn new(path: &str) -> (r: PathField)
        ensures
            r@ == (PathModel { path: path@, enabled: true }),
    {
        PathField { path: path.to_owned(), enabled: true }
    }

    /// The path entered.
    pub fn path(&self) -> (r: String)
        ensures
            r@ == self@.path,
    {
        self.path.clone()
    }

    /// Replaces the path.
    pub fn set_path(&mut self, path: &str)
        ensures
            final(self)@ == (PathModel { path: path@, ..old(self)@ }),
    {
        self.path = path.to_owned();
    }

    /// Whether the field takes input.
    pub fn set_enabled(&mut self, enabled: bool)
        ensures
            final(self)@ == (PathModel { enabled, ..old(self)@ }),
    {
        self.enabled = enabled;
    }

    /// The same field, taking input or not.
    pub fn with_enabled(self, enabled: bool) -> (r: PathField)
        ensures
            r@ == (PathModel { enabled, ..self@ }),
    {
        PathField { path: self.path, enabled }
    }
}

/// A field for a name.
#[derive(Debug)]
pub struct TextValue {
    pub text: String,
}

impl View for TextValue {
    type V = Seq<char>;

    open spec fn view(&self) -> Seq<char> {
        self.text@
    }
}

impl TextValue {
    /// A field that shows `text`.
    pub fn new(text: &str) -> (r: TextValue)
        ensures
            r@ == text@,
    {
        TextValue { text: text.to_owned() }
    }

    /// The text entered.
    pub fn value(&self) -> (r: String)
        ensures
            r@ == self@,
    {
        self.text.clone()
    }

    /// Replaces the text.
    pub fn set_value(&mut self, text: &str)
        ensures
            final(self)@ == text@,
    {
        self.text = text.to_owned();
    }
}

/// A label: one to look up, or a text as it is.
#[derive(Debug)]
pub enum Label {
    Key(&'static str),
    Text(String),
}

/// What a [`Label`] holds.
pub enum LabelModel {
    Key(Seq<char>),
    Text(Seq<char>),
}

impl View for Label {
    type V = LabelModel;

    open spec fn view(&self) -> LabelModel {
        match self {
            Label::Key(k) => LabelModel::Key(k@),
            Label::Text(t) => LabelModel::Text(t@),
        }
    }
}

/// A value to store.
#[derive(Debug)]
pub enum ConfigValue {
    Text(String),
    Number(i64),
    Flag(bool),
}

/// What a [`ConfigValue`] holds.
pub enum ValueModel {
    Text(Seq<char>),
    Number(i64),
    Flag(bool),
}

impl View for ConfigValue {
    type V = ValueModel;

    open spec fn view(&self) -> ValueModel {
        match self {
            ConfigValue::Text(t) => ValueModel::Text(t@),
            ConfigValue::Number(n) => ValueModel::Number(*n),
            ConfigValue::Flag(b) => ValueModel::Flag(*b),
        }
    }
}

} // verus!
