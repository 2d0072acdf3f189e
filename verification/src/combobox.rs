//! A combo box: the selected label, and a list that opens below it.
//!
//! Up and Down wrap around. With the list open they move the highlight,
//! otherwise they change the selection. Enter and Space take the highlighted
//! option, or open the list; Escape closes it.

use crate::text::same_text;
use vstd::prelude::*;

verus! {

/// One option: its value and label.
#[derive(Debug)]
pub struct ComboBoxOption {
    pub index: usize,
    pub label: String,
}

/// What a [`ComboBoxOption`] holds.
#[verifier::ext_equal]
pub struct OptionModel {
    pub index: usize,
    pub label: Seq<char>,
}

impl View for ComboBoxOption {
    type V = OptionModel;

    open spec fn view(&self) -> OptionModel {
        OptionModel { index: self.index, label: self.label@ }
    }
}

impl ComboBoxOption {
    /// An option with its value and label.
    pub fn new(index: usize, label: String) -> (r: ComboBoxOption)
        ensures
            r@ == (OptionModel { index, label: label@ }),
    {
        ComboBoxOption { index, label }
    }
}

/// What a list of options holds.
pub open spec fn options_model(options: Seq<ComboBoxOption>) -> Seq<OptionModel> {
    Seq::new(options.len(), |i: int| options[i]@)
}

/// Events of a [`ComboBox`].
#[derive(Clone, Copy, Debug, PartialEq, Eq, Structural)]
pub enum ComboBoxEvent {
    /// An option was selected.
    Selected { value: usize },
}

/// A combo box.
#[derive(Debug)]
pub struct ComboBox {
    pub control: usize,
    pub options: Vec<ComboBoxOption>,
    pub selected: Option<usize>,
    pub placeholder: String,
    pub open: bool,
    pub highlight: usize,
}

/// What a [`ComboBox`] holds.
#[verifier::ext_equal]
pub struct ComboModel {
    pub control: usize,
    pub options: Seq<OptionModel>,
    pub selected: Option<usize>,
    pub placeholder: Seq<char>,
    pub open: bool,
    pub highlight: usize,
}

impl View for ComboBox {
    type V = ComboModel;

    open spec fn view(&self) -> ComboModel {
        ComboModel {
            control: self.control,
            options: options_model(self.options@),
            selected: self.selected,
            placeholder: self.placeholder@,
            open: self.open,
            highlight: self.highlight,
        }
    }
}

/// A move of one step up or down.
#[derive(Clone, Copy, Debug, PartialEq, Eq, Structural)]
pub enum Direction {
    Down,
    Up,
}

/// The step of a direction.
pub open spec fn step_of(d: Direction) -> int {
    match d {
        Direction::Down => 1,
        Direction::Up => -1,
    }
}

/// `from` moved by one step among `len`, around the ends. Positions count in
/// 32 bits.
pub open spec fn wrapped(from: usize, d: Direction, len: nat) -> usize
    recommends
        len > 0,
{
    (((from as i32) as int + step_of(d)) % (len as int)) as usize
}

/// A key's effect: whether it was taken, and the event it makes.
#[derive(Clone, Copy, Debug, PartialEq, Eq, Structural)]
pub struct ComboKey {
    pub taken: bool,
    pub event: Option<ComboBoxEvent>,
}

impl ComboModel {
    /// The selection, or the first position.
    pub open spec fn position(self) -> usize {
        match self.selected {
            Some(i) => i,
            None => 0,
        }
    }

    /// The box after an option was selected.
    pub open spec fn with_selection(self, index: usize) -> ComboModel {
        ComboModel { selected: Some(index), open: false, ..self }
    }

    /// The box with its list open at the selection.
    pub open spec fn opened(self) -> ComboModel {
        ComboModel { open: true, highlight: self.position(), ..self }
    }

    /// The box after the selection moved, and the event.
    pub open spec fn moved(self, d: Direction) -> (ComboModel, Option<ComboBoxEvent>) {
        if self.options.len() == 0 {
            (self, None)
        } else {
            let next = wrapped(self.position(), d, self.options.len());
            (self.with_selection(next), Some(ComboBoxEvent::Selected { value: next }))
        }
    }

    /// The box after Up or Down.
    pub open spec fn arrow(self, d: Direction) -> (ComboModel, Option<ComboBoxEvent>) {
        if !self.open {
            self.moved(d)
        } else if self.options.len() == 0 {
            (self, None)
        } else {
            (
                ComboModel {
                    highlight: wrapped(self.highlight, d, self.options.len()),
                    ..self
                },
                None,
            )
        }
    }

    /// The box after Enter or Space.
    pub open spec fn committed(self) -> (ComboModel, Option<ComboBoxEvent>) {
        if !self.open {
            (self.opened(), None)
        } else if self.highlight < self.options.len() {
            let value = self.options[self.highlight as int].index;
            (self.with_selection(value), Some(ComboBoxEvent::Selected { value }))
        } else {
            (self, None)
        }
    }

    /// The box after a key, and the key's effect.
    pub open spec fn keyed(self, key: Seq<char>) -> (ComboModel, ComboKey) {
        if key == "down"@ {
            (self.arrow(Direction::Down).0, taken(self.arrow(Direction::Down).1))
        } else if key == "up"@ {
            (self.arrow(Direction::Up).0, taken(self.arrow(Direction::Up).1))
        } else if key == "enter"@ || key == "space"@ {
            (self.committed().0, taken(self.committed().1))
        } else if key == "escape"@ {
            (ComboModel { open: false, ..self }, taken(None))
        } else {
            (self, ComboKey { taken: false, event: None })
        }
    }

    /// The label shown: the selected option's, else the placeholder.
    pub open spec fn label(self) -> Seq<char> {
        match self.selected {
            Some(i) => if i < self.options.len() {
                self.options[i as int].label
            } else {
                self.placeholder
            },
            None => self.placeholder,
        }
    }
}

/// The effect of a key that was taken.
pub open spec fn taken(event: Option<ComboBoxEvent>) -> ComboKey {
    ComboKey { taken: true, event }
}

fn wrap(from: usize, d: Direction, len: usize) -> (r: usize)
    requires
        0 < len <= i32::MAX,
    ensures
        r == wrapped(from, d, len as nat),
        r < len,
{
    let step: i64 = match d {
        Direction::Down => 1,
        Direction::Up => -1,
    };
    let at: i32 = #[verifier::truncate]
    (from as i32);
    let sum: i64 = at as i64 + step;
    let n: i64 = len as i64;
    match sum.checked_rem_euclid(n) {
        Some(m) => m as usize,
        None => 0,
    }
}

impl ComboBox {
    /// A box over `options`, closed, with nothing selected.
    pub fn new(control: usize, options: Vec<ComboBoxOption>) -> (r: ComboBox)
        ensures
            r@ == (ComboModel {
                control,
                options: options_model(options@),
                selected: None,
                placeholder: Seq::empty(),
                open: false,
                highlight: 0,
            }),
    {
        ComboBox {
            control,
            options,
            selected: None,
            placeholder: String::new(),
            open: false,
            highlight: 0,
        }
    }

    /// The same box, with the text shown while nothing is selected.
    pub fn with_placeholder(self, placeholder: String) -> (r: ComboBox)
        ensures
            r@ == (ComboModel { placeholder: placeholder@, ..self@ }),
    {
        ComboBox {
            control: self.control,
            options: self.options,
            selected: self.selected,
            placeholder,
            open: self.open,
            highlight: self.highlight,
        }
    }

    /// The selected position.
    pub fn selected(&self) -> (r: Option<usize>)
        ensures
            r == self@.selected,
    {
        self.selected
    }

    /// Replaces the options; nothing is selected then, and the list closes.
    pub fn set_options(&mut self, options: Vec<ComboBoxOption>)
        ensures
            final(self)@ == (ComboModel {
                options: options_model(options@),
                selected: None,
                highlight: 0,
                open: false,
                ..old(self)@
            }),
    {
        self.options = options;
        self.selected = None;
        self.highlight = 0;
        self.open = false;
    }

    /// Sets the selection from outside; makes no event.
    pub fn set_selected(&mut self, selected: Option<usize>)
        ensures
            final(self)@ == (ComboModel { selected, ..old(self)@ }),
    {
        self.selected = selected;
    }

    /// Selects an option and closes the list.
    pub fn select(&mut self, index: usize) -> (r: ComboBoxEvent)
        ensures
            final(self)@ == old(self)@.with_selection(index),
            r == (ComboBoxEvent::Selected { value: index }),
    {
        self.selected = Some(index);
        self.open = false;
        ComboBoxEvent::Selected { value: index }
    }

    /// Moves the selection by one, around the ends.
    pub fn move_selection(&mut self, d: Direction) -> (r: Option<ComboBoxEvent>)
        requires
            old(self).options.len() <= i32::MAX,
        ensures
            final(self)@ == old(self)@.moved(d).0,
            r == old(self)@.moved(d).1,
    {
        if self.options.len() == 0 {
            return None;
        }
        let position: usize = match self.selected {
            Some(i) => i,
            None => 0,
        };
        let next: usize = wrap(position, d, self.options.len());
        Some(self.select(next))
    }

    /// A click on the box opens or closes the list, at the selection.
    pub fn mouse_down(&mut self)
        ensures
            final(self)@ == (ComboModel {
                open: !old(self)@.open,
                highlight: old(self)@.position(),
                ..old(self)@
            }),
    {
        self.open = !self.open;
        self.highlight = match self.selected {
            Some(i) => i,
            None => 0,
        };
    }

    /// A click elsewhere closes the list.
    pub fn mouse_down_out(&mut self)
        ensures
            final(self)@ == (ComboModel { open: false, ..old(self)@ }),
    {
        self.open = false;
    }

    /// A click on the option at `row` of the open list.
    pub fn click_option(&mut self, row: usize) -> (r: Option<ComboBoxEvent>)
        ensures
            if row < old(self)@.options.len() {
                let value = old(self)@.options[row as int].index;
                &&& final(self)@ == old(self)@.with_selection(value)
                &&& r == Some(ComboBoxEvent::Selected { value })
            } else {
                final(self)@ == old(self)@ && r is None
            },
    {
        if row < self.options.len() {
            let value: usize = self.options[row].index;
            Some(self.select(value))
        } else {
            None
        }
    }

    fn arrow(&mut self, d: Direction) -> (r: ComboKey)
        requires
            old(self).options.len() <= i32::MAX,
        ensures
            final(self)@ == old(self)@.arrow(d).0,
            r == taken(old(self)@.arrow(d).1),
    {
        let event: Option<ComboBoxEvent> = if self.open {
            if self.options.len() != 0 {
                self.highlight = wrap(self.highlight, d, self.options.len());
            }
            None
        } else {
            self.move_selection(d)
        };
        ComboKey { taken: true, event }
    }

    fn commit(&mut self) -> (r: ComboKey)
        ensures
            final(self)@ == old(self)@.committed().0,
            r == taken(old(self)@.committed().1),
    {
        let event: Option<ComboBoxEvent> = if self.open {
            self.click_option(self.highlight)
        } else {
            self.mouse_down();
            None
        };
        ComboKey { taken: true, event }
    }

    /// A key while the box is focused.
    pub fn key_down(&mut self, key: &str) -> (r: ComboKey)
        requires
            old(self).options.len() <= i32::MAX,
        ensures
            final(self)@ == old(self)@.keyed(key@).0,
            r == old(self)@.keyed(key@).1,
    {
        if same_text(key, "down") {
            self.arrow(Direction::Down)
        } else if same_text(key, "up") {
            self.arrow(Direction::Up)
        } else if same_text(key, "enter") || same_text(key, "space") {
            self.commit()
        } else if same_text(key, "escape") {
            self.open = false;
            ComboKey { taken: true, event: None }
        } else {
            ComboKey { taken: false, event: None }
        }
    }

    /// The label shown.
    pub fn label(&self) -> (r: String)
        ensures
            r@ == self@.label(),
    {
        match self.selected {
            Some(i) if i < self.options.len() => self.options[i].label.clone(),
            _ => self.placeholder.clone(),
        }
    }
}

/// Whether each option's value is its place in the list.
pub open spec fn in_order(options: Seq<OptionModel>) -> bool {
    forall|i: int| 0 <= i < options.len() ==> (#[trigger] options[i]).index == i
}

/// Over options whose values are their places, a key that selects reports
/// the value of an option, and that option is selected and shown then, with
/// the list closed.
pub proof fn lemma_reports_what_is_shown(c: ComboModel, key: Seq<char>)
    requires
        c.options.len() <= i32::MAX,
        in_order(c.options),
    ensures
        c.keyed(key).1.event matches Some(ComboBoxEvent::Selected { value }) ==> {
            let after = c.keyed(key).0;
            &&& value < c.options.len()
            &&& c.options[value as int].index == value
            &&& after.selected == Some(value)
            &&& after.label() == c.options[value as int].label
            &&& !after.open
        },
{
    if c.options.len() > 0 {
        lemma_move_stays_inside(c, Direction::Down);
        lemma_move_stays_inside(c, Direction::Up);
    }
}

/// A move stays among the options, whatever was selected before.
pub proof fn lemma_move_stays_inside(c: ComboModel, d: Direction)
    requires
        0 < c.options.len() <= i32::MAX,
    ensures
        c.moved(d).0.selected is Some,
        c.moved(d).0.selected.unwrap() < c.options.len(),
{
    let len = c.options.len() as int;
    let x = (c.position() as i32) as int + step_of(d);
    vstd::arithmetic::div_mod::lemma_mod_bound(x, len);
}

/// Down and Up undo each other on a selection among the options.
pub proof fn lemma_down_up(c: ComboModel)
    requires
        0 < c.options.len() <= i32::MAX,
        c.selected is Some,
        c.selected.unwrap() < c.options.len(),
    ensures
        c.moved(Direction::Down).0.moved(Direction::Up).0.selected == c.selected,
        c.moved(Direction::Up).0.moved(Direction::Down).0.selected == c.selected,
{
    let len = c.options.len() as int;
    let at = c.selected.unwrap() as int;
    lemma_step(at, Direction::Down, len);
    lemma_step(at, Direction::Up, len);
    lemma_step(
        c.moved(Direction::Down).0.selected.unwrap() as int,
        Direction::Up,
        len,
    );
    lemma_step(
        c.moved(Direction::Up).0.selected.unwrap() as int,
        Direction::Down,
        len,
    );
}

pub(crate) proof fn lemma_step(at: int, d: Direction, len: int)
    requires
        0 <= at < len <= i32::MAX,
    ensures
        wrapped(at as usize, d, len as nat) == if at + step_of(d) == len {
            0
        } else if at + step_of(d) < 0 {
            len - 1
        } else {
            at + step_of(d)
        },
{
    let x = at + step_of(d);
    if x == len {
        vstd::arithmetic::div_mod::lemma_mod_self_0(len);
    } else if x < 0 {
        vstd::arithmetic::div_mod::lemma_mod_add_multiples_vanish(x, len);
        vstd::arithmetic::div_mod::lemma_small_mod((x + len) as nat, len as nat);
    } else {
        vstd::arithmetic::div_mod::lemma_small_mod(x as nat, len as nat);
    }
}

} // verus!
