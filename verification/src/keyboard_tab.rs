//! The shortcut editor: a list of actions, filtered by text, in which a key
//! is captured for a row.
//!
//! While a row captures, every key is its own: Escape gives up, Backspace and
//! Delete unbind the action, a bare modifier is waited out, and any other key
//! becomes the binding.

use crate::search::keyboard_filter_matches;
use crate::text::{head_before, same_text};
use vstd::prelude::*;

verus! {

/// What a captured key does.
#[derive(Debug)]
pub enum CaptureDecision {
    /// A bare modifier: keep capturing.
    Ignore,
    /// Give up without a change.
    Cancel,
    /// Unbind.
    Clear,
    /// The new binding.
    Assign(String),
}

/// What a [`CaptureDecision`] holds.
pub enum DecisionModel {
    Ignore,
    Cancel,
    Clear,
    Assign(Seq<char>),
}

impl View for CaptureDecision {
    type V = DecisionModel;

    open spec fn view(&self) -> DecisionModel {
        match self {
            CaptureDecision::Ignore => DecisionModel::Ignore,
            CaptureDecision::Cancel => DecisionModel::Cancel,
            CaptureDecision::Clear => DecisionModel::Clear,
            CaptureDecision::Assign(k) => DecisionModel::Assign(k@),
        }
    }
}

/// Whether a key is a modifier on its own, or no key.
pub open spec fn bare_modifier(key: Seq<char>) -> bool {
    ||| key == "shift"@
    ||| key == "control"@
    ||| key == "alt"@
    ||| key == "cmd"@
    ||| key == "super"@
    ||| key == "win"@
    ||| key == "fn"@
    ||| key == "function"@
    ||| key == "secondary"@
    ||| key == "platform"@
    ||| key.len() == 0
}

/// What a captured key does. `canonical` is the keystroke with its modifiers,
/// as bindings write it.
pub open spec fn decision(key: Seq<char>, canonical: Seq<char>) -> DecisionModel {
    if key == "escape"@ {
        DecisionModel::Cancel
    } else if key == "backspace"@ || key == "delete"@ {
        DecisionModel::Clear
    } else if bare_modifier(key) {
        DecisionModel::Ignore
    } else {
        DecisionModel::Assign(canonical)
    }
}

fn is_bare_modifier(key: &str) -> (r: bool)
    ensures
        r == bare_modifier(key@),
{
    same_text(key, "shift") || same_text(key, "control") || same_text(key, "alt") || same_text(
        key,
        "cmd",
    ) || same_text(key, "super") || same_text(key, "win") || same_text(key, "fn") || same_text(
        key,
        "function",
    ) || same_text(key, "secondary") || same_text(key, "platform") || key.is_empty()
}

/// What a captured key does.
pub fn capture_decision(key: &str, canonical: &str) -> (r: CaptureDecision)
    ensures
        r@ == decision(key@, canonical@),
{
    if same_text(key, "escape") {
        CaptureDecision::Cancel
    } else if same_text(key, "backspace") || same_text(key, "delete") {
        CaptureDecision::Clear
    } else if is_bare_modifier(key) {
        CaptureDecision::Ignore
    } else {
        CaptureDecision::Assign(canonical.to_owned())
    }
}

/// Events of the shortcut editor.
#[derive(Clone, Copy, Debug, PartialEq, Eq, Structural)]
pub enum KeyboardEvent {
    /// The bindings changed.
    Changed,
}

/// What the status line says.
#[derive(Clone, Copy, Debug, PartialEq, Eq, Structural)]
pub enum KeyboardStatus {
    /// The action was unbound.
    Cleared,
    /// The key was taken from another action.
    Conflict(u64),
    /// The action is back at its own keys.
    Reset,
    /// Every action is back at its own keys.
    ResetAllDone,
    Imported,
    ImportFailed,
    Exported,
    ExportFailed,
}

/// A row: an action, the menu it is in, and its path through the menus.
#[derive(Debug)]
pub struct KeyboardRow {
    pub action: u64,
    pub section: String,
    pub path: String,
}

/// What a [`KeyboardRow`] holds.
#[verifier::ext_equal]
pub struct RowModel {
    pub action: u64,
    pub section: Seq<char>,
    pub path: Seq<char>,
}

impl View for KeyboardRow {
    type V = RowModel;

    open spec fn view(&self) -> RowModel {
        RowModel { action: self.action, section: self.section@, path: self.path@ }
    }
}

/// What a list of rows holds.
pub open spec fn rows_model(rows: Seq<KeyboardRow>) -> Seq<RowModel> {
    Seq::new(rows.len(), |i: int| rows[i]@)
}

/// The row of an action: its section is the first step of its path.
pub open spec fn row_of(action: u64, path: Seq<char>) -> RowModel {
    RowModel {
        action,
        section: crate::text::head_of(path, crate::search::PATH_SEPARATOR@),
        path,
    }
}

/// An action with its path.
#[derive(Debug)]
pub struct ActionPath {
    pub action: u64,
    pub path: String,
}

/// The shortcut editor.
#[derive(Debug)]
pub struct KeyboardTabContent {
    pub rows: Vec<KeyboardRow>,
    pub filter: String,
    pub capturing: Option<usize>,
    pub selected: Option<usize>,
    pub confirm_reset_all: bool,
    pub status: Option<KeyboardStatus>,
}

/// What a [`KeyboardTabContent`] holds.
#[verifier::ext_equal]
pub struct TabModel {
    pub rows: Seq<RowModel>,
    pub filter: Seq<char>,
    pub capturing: Option<usize>,
    pub selected: Option<usize>,
    pub confirm_reset_all: bool,
    pub status: Option<KeyboardStatus>,
}

impl View for KeyboardTabContent {
    type V = TabModel;

    open spec fn view(&self) -> TabModel {
        TabModel {
            rows: rows_model(self.rows@),
            filter: self.filter@,
            capturing: self.capturing,
            selected: self.selected,
            confirm_reset_all: self.confirm_reset_all,
            status: self.status,
        }
    }
}

impl TabModel {
    /// The rows that the editor points at are there.
    pub open spec fn wf(self) -> bool {
        &&& self.capturing matches Some(i) ==> i < self.rows.len()
        &&& self.selected matches Some(i) ==> i < self.rows.len()
    }
}

/// What a captured key makes the host do.
#[derive(Debug)]
pub enum CaptureStep {
    /// No row is capturing: the key is not taken.
    NotCapturing,
    /// The key is taken and nothing changes.
    Waiting,
    /// The capture ended without a change.
    Cancelled,
    /// Unbind the action, and report [`KeyboardEvent::Changed`].
    Unbind(u64),
    /// Take the key from whoever holds it, bind it to the action, and call
    /// [`KeyboardTabContent::assigned`].
    Bind(u64, String),
}

/// What a [`CaptureStep`] holds.
pub enum StepModel {
    NotCapturing,
    Waiting,
    Cancelled,
    Unbind(u64),
    Bind(u64, Seq<char>),
}

impl View for CaptureStep {
    type V = StepModel;

    open spec fn view(&self) -> StepModel {
        match self {
            CaptureStep::NotCapturing => StepModel::NotCapturing,
            CaptureStep::Waiting => StepModel::Waiting,
            CaptureStep::Cancelled => StepModel::Cancelled,
            CaptureStep::Unbind(a) => StepModel::Unbind(*a),
            CaptureStep::Bind(a, k) => StepModel::Bind(*a, k@),
        }
    }
}

impl TabModel {
    /// The editor after a key, and what the host does.
    pub open spec fn captured(self, key: Seq<char>, canonical: Seq<char>) -> (TabModel, StepModel) {
        match self.capturing {
            None => (self, StepModel::NotCapturing),
            Some(i) => match decision(key, canonical) {
                DecisionModel::Ignore => (self, StepModel::Waiting),
                DecisionModel::Cancel => (
                    TabModel { capturing: None, ..self },
                    StepModel::Cancelled,
                ),
                DecisionModel::Clear => (
                    TabModel {
                        capturing: None,
                        status: Some(KeyboardStatus::Cleared),
                        ..self
                    },
                    StepModel::Unbind(self.rows[i as int].action),
                ),
                DecisionModel::Assign(k) => (self, StepModel::Bind(
                    self.rows[i as int].action,
                    k,
                )),
            },
        }
    }
}

/// The texts shown for a row: the action's label, and its shortcut if it has
/// one.
#[derive(Debug)]
pub struct RowText {
    pub label: String,
    pub shortcut: Option<String>,
}

/// What a [`RowText`] holds.
#[verifier::ext_equal]
pub struct RowTextModel {
    pub label: Seq<char>,
    pub shortcut: Option<Seq<char>>,
}

impl View for RowText {
    type V = RowTextModel;

    open spec fn view(&self) -> RowTextModel {
        RowTextModel {
            label: self.label@,
            shortcut: match self.shortcut {
                Some(s) => Some(s@),
                None => None,
            },
        }
    }
}

/// What the shortcut field of a row shows.
#[derive(Clone, Copy, Debug, PartialEq, Eq, Structural)]
pub enum FieldText {
    /// That a key is waited for.
    Capturing,
    /// The shortcut.
    Shortcut,
    /// That there is no shortcut.
    Unbound,
}

/// An entry of the list: a section header, or a row.
#[derive(Debug)]
pub enum ListEntry {
    Header(String),
    Row { index: usize, selected: bool, field: FieldText },
}

/// What a [`ListEntry`] holds.
pub enum EntryModel {
    Header(Seq<char>),
    Row { index: usize, selected: bool, field: FieldText },
}

impl View for ListEntry {
    type V = EntryModel;

    open spec fn view(&self) -> EntryModel {
        match self {
            ListEntry::Header(h) => EntryModel::Header(h@),
            ListEntry::Row { index, selected, field } => EntryModel::Row {
                index: *index,
                selected: *selected,
                field: *field,
            },
        }
    }
}

/// What a list of entries holds.
pub open spec fn entries_model(entries: Seq<ListEntry>) -> Seq<EntryModel> {
    Seq::new(entries.len(), |i: int| entries[i]@)
}

impl TabModel {
    /// Whether the row at `i` survives the query.
    pub open spec fn shows(self, texts: Seq<RowText>, i: int) -> bool {
        crate::search::survives(
            texts[i]@.label,
            self.rows[i].path,
            texts[i]@.shortcut,
            self.filter,
        )
    }

    /// The section of the last row before `n` that is shown.
    pub open spec fn section_before(self, texts: Seq<RowText>, n: int) -> Option<Seq<char>>
        decreases n,
    {
        if n <= 0 {
            None
        } else if self.shows(texts, n - 1) {
            Some(self.rows[n - 1].section)
        } else {
            self.section_before(texts, n - 1)
        }
    }

    /// The entry of the row at `i`.
    pub open spec fn entry(self, texts: Seq<RowText>, i: int) -> EntryModel {
        EntryModel::Row {
            index: i as usize,
            selected: self.selected == Some(i as usize),
            field: if self.capturing == Some(i as usize) {
                FieldText::Capturing
            } else if texts[i]@.shortcut is Some {
                FieldText::Shortcut
            } else {
                FieldText::Unbound
            },
        }
    }

    /// The entries of the rows before `n`: the rows that survive, each after
    /// a header when its section is not the one before.
    pub open spec fn entries(self, texts: Seq<RowText>, n: int) -> Seq<EntryModel>
        decreases n,
    {
        if n <= 0 {
            Seq::empty()
        } else if !self.shows(texts, n - 1) {
            self.entries(texts, n - 1)
        } else if self.section_before(texts, n - 1) != Some(self.rows[n - 1].section) {
            self.entries(texts, n - 1).push(EntryModel::Header(self.rows[n - 1].section)).push(
                self.entry(texts, n - 1),
            )
        } else {
            self.entries(texts, n - 1).push(self.entry(texts, n - 1))
        }
    }
}

impl KeyboardTabContent {
    /// The editor over the actions, with no query and nothing selected.
    pub fn new(actions: Vec<ActionPath>) -> (r: KeyboardTabContent)
        ensures
            r@ == (TabModel {
                rows: Seq::new(
                    actions@.len(),
                    |i: int| row_of(actions@[i].action, actions@[i].path@),
                ),
                filter: Seq::empty(),
                capturing: None,
                selected: None,
                confirm_reset_all: false,
                status: None,
            }),
            r@.wf(),
    {
        let mut rows: Vec<KeyboardRow> = Vec::new();
        let mut i: usize = 0;
        while i < actions.len()
            invariant
                i <= actions.len(),
                rows.len() == i,
                forall|j: int|
                    0 <= j < i ==> (#[trigger] rows@[j])@ == row_of(
                        actions@[j].action,
                        actions@[j].path@,
                    ),
            decreases actions.len() - i,
        {
            let section: String = head_before(
                actions[i].path.as_str(),
                crate::search::PATH_SEPARATOR,
            );
            rows.push(
                KeyboardRow { action: actions[i].action, section, path: actions[i].path.clone() },
            );
            i = i + 1;
        }
        assert(rows_model(rows@) =~= Seq::new(
            actions@.len(),
            |i: int| row_of(actions@[i].action, actions@[i].path@),
        ));
        KeyboardTabContent {
            rows,
            filter: String::new(),
            capturing: None,
            selected: None,
            confirm_reset_all: false,
            status: None,
        }
    }

    /// The number of actions.
    pub fn row_count(&self) -> (r: usize)
        ensures
            r == self@.rows.len(),
    {
        self.rows.len()
    }

    /// The query was edited: nothing is selected then.
    pub fn query_changed(&mut self, filter: &str)
        ensures
            final(self)@ == (TabModel { filter: filter@, selected: None, ..old(self)@ }),
    {
        self.filter = filter.to_owned();
        self.selected = None;
    }

    /// Selects a row.
    pub fn select(&mut self, index: usize)
        requires
            index < old(self)@.rows.len(),
        ensures
            final(self)@ == (TabModel { selected: Some(index), ..old(self)@ }),
    {
        self.selected = Some(index);
    }

    /// Captures the next key for a row.
    pub fn begin_capture(&mut self, index: usize)
        requires
            index < old(self)@.rows.len(),
        ensures
            final(self)@ == (TabModel {
                capturing: Some(index),
                selected: Some(index),
                confirm_reset_all: false,
                ..old(self)@
            }),
    {
        self.capturing = Some(index);
        self.selected = Some(index);
        self.confirm_reset_all = false;
    }

    /// Ends the capture.
    pub fn end_capture(&mut self)
        ensures
            final(self)@ == (TabModel { capturing: None, ..old(self)@ }),
    {
        self.capturing = None;
    }

    /// A key: taken by the row that captures.
    pub fn handle_capture_key(&mut self, key: &str, canonical: &str) -> (r: CaptureStep)
        requires
            old(self)@.wf(),
        ensures
            final(self)@ == old(self)@.captured(key@, canonical@).0,
            r@ == old(self)@.captured(key@, canonical@).1,
            final(self)@.wf(),
    {
        let index: usize = match self.capturing {
            None => return CaptureStep::NotCapturing,
            Some(i) => i,
        };
        assert(self@.rows[index as int] == self.rows@[index as int]@);
        match capture_decision(key, canonical) {
            CaptureDecision::Ignore => CaptureStep::Waiting,
            CaptureDecision::Cancel => {
                self.end_capture();
                CaptureStep::Cancelled
            },
            CaptureDecision::Clear => {
                let action: u64 = self.rows[index].action;
                self.status = Some(KeyboardStatus::Cleared);
                self.end_capture();
                CaptureStep::Unbind(action)
            },
            CaptureDecision::Assign(k) => CaptureStep::Bind(self.rows[index].action, k),
        }
    }

    /// The captured key was bound; `stolen` is the action that lost it. The
    /// status line names that action, or is cleared.
    pub fn assigned(&mut self, stolen: Option<u64>) -> (r: KeyboardEvent)
        ensures
            r == KeyboardEvent::Changed,
            final(self)@ == (TabModel {
                capturing: None,
                status: match stolen {
                    Some(a) => Some(KeyboardStatus::Conflict(a)),
                    None => None,
                },
                ..old(self)@
            }),
    {
        self.status = match stolen {
            Some(a) => Some(KeyboardStatus::Conflict(a)),
            None => None,
        };
        self.end_capture();
        KeyboardEvent::Changed
    }

    /// Resets the selected row: the action to take back to its own keys, if a
    /// row is selected. The bindings change then.
    pub fn reset_selected(&mut self) -> (r: Option<u64>)
        requires
            old(self)@.wf(),
        ensures
            match old(self)@.selected {
                None => r is None && final(self)@ == old(self)@,
                Some(i) => {
                    &&& r == Some(old(self)@.rows[i as int].action)
                    &&& final(self)@ == (TabModel {
                        status: Some(KeyboardStatus::Reset),
                        ..old(self)@
                    })
                },
            },
    {
        match self.selected {
            None => None,
            Some(i) => {
                assert(self@.rows[i as int] == self.rows@[i as int]@);
                self.status = Some(KeyboardStatus::Reset);
                Some(self.rows[i].action)
            },
        }
    }

    /// Resets everything, when asked twice: whether to take every action back
    /// to its own keys, which changes the bindings. The first time asks for
    /// confirmation.
    pub fn reset_all(&mut self) -> (r: bool)
        ensures
            r == old(self)@.confirm_reset_all,
            final(self)@ == if r {
                TabModel {
                    confirm_reset_all: false,
                    status: Some(KeyboardStatus::ResetAllDone),
                    ..old(self)@
                }
            } else {
                TabModel { confirm_reset_all: true, capturing: None, ..old(self)@ }
            },
    {
        if !self.confirm_reset_all {
            self.confirm_reset_all = true;
            self.capturing = None;
            return false;
        }
        self.confirm_reset_all = false;
        self.status = Some(KeyboardStatus::ResetAllDone);
        true
    }

    /// Takes the question of [`KeyboardTabContent::reset_all`] back.
    pub fn cancel_reset_all(&mut self)
        ensures
            final(self)@ == (TabModel { confirm_reset_all: false, ..old(self)@ }),
    {
        self.confirm_reset_all = false;
    }

    /// Bindings were read from a file, or could not be and stay as they are.
    pub fn imported(&mut self, ok: bool) -> (r: Option<KeyboardEvent>)
        ensures
            r == if ok {
                Some(KeyboardEvent::Changed)
            } else {
                None
            },
            final(self)@ == (TabModel {
                status: Some(
                    if ok {
                        KeyboardStatus::Imported
                    } else {
                        KeyboardStatus::ImportFailed
                    },
                ),
                capturing: None,
                confirm_reset_all: false,
                ..old(self)@
            }),
    {
        self.status = Some(
            if ok {
                KeyboardStatus::Imported
            } else {
                KeyboardStatus::ImportFailed
            },
        );
        self.capturing = None;
        self.confirm_reset_all = false;
        if ok {
            Some(KeyboardEvent::Changed)
        } else {
            None
        }
    }

    /// Bindings were written to a file, or could not be.
    pub fn exported(&mut self, ok: bool)
        ensures
            final(self)@ == (TabModel {
                status: Some(
                    if ok {
                        KeyboardStatus::Exported
                    } else {
                        KeyboardStatus::ExportFailed
                    },
                ),
                ..old(self)@
            }),
    {
        self.status = Some(
            if ok {
                KeyboardStatus::Exported
            } else {
                KeyboardStatus::ExportFailed
            },
        );
    }

    /// The list as it is shown, given the texts of every row.
    pub fn entries(&self, texts: &Vec<RowText>) -> (r: Vec<ListEntry>)
        requires
            texts.len() == self@.rows.len(),
        ensures
            entries_model(r@) == self@.entries(texts@, self@.rows.len() as int),
    {
        let mut r: Vec<ListEntry> = Vec::new();
        let mut shown: Option<usize> = None;
        let mut i: usize = 0;
        while i < self.rows.len()
            invariant
                i <= self.rows.len(),
                texts.len() == self.rows.len(),
                entries_model(r@) == self@.entries(texts@, i as int),
                match shown {
                    None => self@.section_before(texts@, i as int) is None,
                    Some(k) => k < i && self@.section_before(texts@, i as int) == Some(
                        self.rows@[k as int].section@,
                    ),
                },
            decreases self.rows.len() - i,
        {
            let ghost before = entries_model(r@);
            assert(self@.rows[i as int] == self.rows@[i as int]@);
            let shortcut: Option<&str> = match &texts[i].shortcut {
                Some(s) => Some(s.as_str()),
                None => None,
            };
            if keyboard_filter_matches(
                texts[i].label.as_str(),
                self.rows[i].path.as_str(),
                shortcut,
                self.filter.as_str(),
            ) {
                assert(self@.shows(texts@, i as int));
                let same: bool = match shown {
                    Some(k) => same_text(
                        self.rows[k].section.as_str(),
                        self.rows[i].section.as_str(),
                    ),
                    None => false,
                };
                if !same {
                    let header: ListEntry = ListEntry::Header(self.rows[i].section.clone());
                    r.push(header);
                    assert(entries_model(r@) =~= before.push(header@));
                }
                let ghost headed = entries_model(r@);
                shown = Some(i);
                let field: FieldText = if self.capturing == Some(i) {
                    FieldText::Capturing
                } else if shortcut.is_some() {
                    FieldText::Shortcut
                } else {
                    FieldText::Unbound
                };
                let row: ListEntry = ListEntry::Row {
                    index: i,
                    selected: self.selected == Some(i),
                    field,
                };
                r.push(row);
                assert(entries_model(r@) =~= headed.push(row@));
                assert(row@ == self@.entry(texts@, i as int));
            }
            i = i + 1;
        }
        r
    }
}

/// Escape never changes a binding, and a bare modifier never ends a capture.
pub proof fn lemma_capture_is_safe(t: TabModel, key: Seq<char>, canonical: Seq<char>)
    requires
        t.capturing is Some,
    ensures
        key == "escape"@ ==> t.captured(key, canonical) == (
            TabModel { capturing: None, ..t },
            StepModel::Cancelled,
        ),
        bare_modifier(key) ==> t.captured(key, canonical) == (t, StepModel::Waiting),
{
    if bare_modifier(key) {
        lemma_first_letter(key);
    }
}

pub(crate) proof fn lemma_first_letter(key: Seq<char>)
    requires
        bare_modifier(key),
    ensures
        key != "escape"@,
        key != "backspace"@,
        key != "delete"@,
{
    reveal_strlit("escape");
    reveal_strlit("backspace");
    reveal_strlit("delete");
    reveal_strlit("shift");
    reveal_strlit("control");
    reveal_strlit("alt");
    reveal_strlit("cmd");
    reveal_strlit("super");
    reveal_strlit("win");
    reveal_strlit("fn");
    reveal_strlit("function");
    reveal_strlit("secondary");
    reveal_strlit("platform");
    assert("escape"@[0] == 'e');
    assert("backspace"@[0] == 'b');
    assert("delete"@[0] == 'd');
    if key.len() > 0 {
        assert(key[0] == 's' || key[0] == 'c' || key[0] == 'a' || key[0] == 'w' || key[0] == 'f'
            || key[0] == 'p');
    }
}

} // verus!
