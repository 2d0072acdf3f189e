//! The dialogs of one or two fields.

use crate::combobox::ComboBox;
use crate::forms::{combo, TextValue};
use crate::text::{joined, replace_text, trim};
use vstd::prelude::*;

verus! {

/// What the program says of itself.
#[derive(Clone, Copy, Debug, PartialEq, Eq, Structural)]
pub struct AboutContent;

impl AboutContent {
    /// The dialog, which holds nothing.
    pub fn new() -> (r: AboutContent)
        ensures
            r == AboutContent,
    {
        AboutContent
    }

    /// The name and version of the program.
    pub fn title(&self, version: &str) -> (r: String)
        ensures
            r@ == "Oak Video Editor "@ + version@,
    {
        joined("Oak Video Editor ", version)
    }
}

/// The dialog that offers a newer release.
#[derive(Debug)]
pub struct UpdateDialogContent {
    pub version: String,
    pub notes: String,
}

impl UpdateDialogContent {
    /// The dialog for a release; notes that are blank give way to
    /// `no_notes`.
    pub fn new(version: &str, notes: &str, no_notes: &str) -> (r: UpdateDialogContent)
        ensures
            r.version@ == version@,
            r.notes@ == if crate::text::trimmed(notes@).len() == 0 {
                no_notes@
            } else {
                crate::text::trimmed(notes@)
            },
    {
        let notes: String = trim(notes);
        UpdateDialogContent {
            version: version.to_owned(),
            notes: if notes.as_str().is_empty() {
                no_notes.to_owned()
            } else {
                notes
            },
        }
    }

    /// The text that names the release and the running build: `pattern` with
    /// the two filled in.
    pub fn available(&self, pattern: &str, current: &str) -> (r: String)
        ensures
            r@ == crate::text::replaced(
                crate::text::replaced(pattern@, "{version}"@, self.version@),
                "{current}"@,
                current@,
            ),
    {
        proof {
            reveal_strlit("{version}");
            reveal_strlit("{current}");
        }
        let named: String = replace_text(pattern, "{version}", self.version.as_str());
        replace_text(named.as_str(), "{current}", current)
    }
}

/// The rename dialog.
#[derive(Debug)]
pub struct RenameContent {
    pub field: TextValue,
}

impl RenameContent {
    /// The dialog at the current name.
    pub fn new(current: &str) -> (r: RenameContent)
        ensures
            r.field@ == current@,
    {
        RenameContent { field: TextValue::new(current) }
    }

    /// The name to apply.
    pub fn value(&self) -> (r: String)
        ensures
            r@ == self.field@,
    {
        self.field.value()
    }
}

/// OpenTimelineIO.
pub const PROJECT_FORMAT_OTIO: i32 = 0;

/// The editor's own format.
pub const PROJECT_FORMAT_OVE: i32 = 1;

/// Final Cut Pro XML.
pub const PROJECT_FORMAT_FCPXML: i32 = 2;

/// The dialog that chooses a project file format.
#[derive(Debug)]
pub struct ExportProjectDialogContent {
    pub format: ComboBox,
}

/// The labels of the project file formats, in order.
pub open spec fn project_format_labels() -> Seq<Seq<char>> {
    seq!["OpenTimelineIO (.otio)"@, "Oak (.ove)"@, "Final Cut Pro XML (.fcpxml)"@]
}

/// The format at an entry; OpenTimelineIO without one.
pub open spec fn project_format_at(selected: Option<usize>) -> i32 {
    match selected {
        Some(1) => PROJECT_FORMAT_OVE,
        Some(2) => PROJECT_FORMAT_FCPXML,
        _ => PROJECT_FORMAT_OTIO,
    }
}

impl ExportProjectDialogContent {
    /// The dialog at OpenTimelineIO.
    pub fn new(placeholder: &str) -> (r: ExportProjectDialogContent)
        ensures
            r.format@ == crate::forms::combo_model(
                4,
                project_format_labels(),
                placeholder@,
                Some(0),
            ),
    {
        let mut labels: Vec<String> = Vec::new();
        labels.push("OpenTimelineIO (.otio)".to_owned());
        labels.push("Oak (.ove)".to_owned());
        labels.push("Final Cut Pro XML (.fcpxml)".to_owned());
        assert(crate::forms::texts(labels@) =~= project_format_labels());
        ExportProjectDialogContent { format: combo(4, labels, placeholder, Some(0)) }
    }

    /// The format selected.
    pub fn format(&self) -> (r: i32)
        ensures
            r == project_format_at(self.format@.selected),
    {
        match self.format.selected() {
            Some(1) => PROJECT_FORMAT_OVE,
            Some(2) => PROJECT_FORMAT_FCPXML,
            _ => PROJECT_FORMAT_OTIO,
        }
    }

    /// The format's file extension, without the dot.
    pub fn extension(&self) -> (r: &'static str)
        ensures
            r@ == (match self.format@.selected {
                Some(1) => "ove"@,
                Some(2) => "fcpxml"@,
                _ => "otio"@,
            }),
    {
        let format: i32 = self.format();
        if format == PROJECT_FORMAT_OVE {
            "ove"
        } else if format == PROJECT_FORMAT_FCPXML {
            "fcpxml"
        } else {
            "otio"
        }
    }
}

/// Footage that can be an angle.
#[derive(Debug)]
pub struct WizardFootage {
    pub id: u64,
    pub name: String,
}

/// A row of the multicam wizard.
#[derive(Debug)]
pub struct WizardRow {
    pub entry: WizardFootage,
    pub checked: bool,
}

/// The multicam wizard: the angles, how to align them, and the name.
#[derive(Debug)]
pub struct MulticamWizardContent {
    pub name: TextValue,
    pub sync: ComboBox,
    pub rows: Vec<WizardRow>,
}

/// What a row holds: the footage, its name, and whether it is checked.
pub open spec fn row_model(row: WizardRow) -> (u64, Seq<char>, bool) {
    (row.entry.id, row.entry.name@, row.checked)
}

/// What the rows hold.
pub open spec fn rows_model(rows: Seq<WizardRow>) -> Seq<(u64, Seq<char>, bool)> {
    Seq::new(rows.len(), |i: int| row_model(rows[i]))
}

/// What footage holds: its id and its name.
pub open spec fn footage_model(footage: Seq<WizardFootage>) -> Seq<(u64, Seq<char>)> {
    Seq::new(footage.len(), |i: int| (footage[i].id, footage[i].name@))
}

/// The checked footage, in order.
pub open spec fn checked_footage(rows: Seq<(u64, Seq<char>, bool)>) -> Seq<(u64, Seq<char>)>
    decreases rows.len(),
{
    if rows.len() == 0 {
        Seq::empty()
    } else if rows.last().2 {
        checked_footage(rows.drop_last()).push((rows.last().0, rows.last().1))
    } else {
        checked_footage(rows.drop_last())
    }
}

/// The rows with one of them toggled.
pub open spec fn toggled_rows(rows: Seq<(u64, Seq<char>, bool)>, index: int) -> Seq<
    (u64, Seq<char>, bool),
> {
    if 0 <= index < rows.len() {
        rows.update(index, (rows[index].0, rows[index].1, !rows[index].2))
    } else {
        rows
    }
}

/// The names under which the labels of the alignments are looked up.
pub open spec fn sync_keys() -> Seq<Seq<char>> {
    seq!["multicam.sync.audio"@, "multicam.sync.timecode"@, "multicam.sync.none"@]
}

/// The names under which the labels of the alignments are looked up, in
/// order.
pub fn wizard_sync_keys() -> (r: Vec<String>)
    ensures
        crate::forms::texts(r@) == sync_keys(),
{
    let mut r: Vec<String> = Vec::new();
    r.push("multicam.sync.audio".to_owned());
    r.push("multicam.sync.timecode".to_owned());
    r.push("multicam.sync.none".to_owned());
    assert(crate::forms::texts(r@) =~= sync_keys());
    r
}

impl MulticamWizardContent {
    /// The wizard over `footage`, with nothing checked and audio alignment.
    /// `sync_labels` holds a label for each of [`wizard_sync_keys`].
    pub fn new(default_name: &str, sync_labels: Vec<String>, footage: Vec<WizardFootage>) -> (r:
        MulticamWizardContent)
        ensures
            r.name@ == default_name@,
            r.sync@ == crate::forms::combo_model(
                60,
                crate::forms::texts(sync_labels@),
                Seq::empty(),
                Some(0),
            ),
            rows_model(r.rows@) == Seq::new(
                footage@.len(),
                |i: int| (footage@[i].id, footage@[i].name@, false),
            ),
    {
        proof {
            reveal_strlit("");
            assert(""@ =~= Seq::<char>::empty());
        }
        let mut rows: Vec<WizardRow> = Vec::new();
        let mut i: usize = 0;
        while i < footage.len()
            invariant
                i <= footage.len(),
                rows.len() == i,
                forall|j: int|
                    0 <= j < i ==> row_model(#[trigger] rows@[j]) == (
                        footage@[j].id,
                        footage@[j].name@,
                        false,
                    ),
            decreases footage.len() - i,
        {
            rows.push(
                WizardRow {
                    entry: WizardFootage { id: footage[i].id, name: footage[i].name.clone() },
                    checked: false,
                },
            );
            i = i + 1;
        }
        assert(rows_model(rows@) =~= Seq::new(
            footage@.len(),
            |i: int| (footage@[i].id, footage@[i].name@, false),
        ));
        MulticamWizardContent {
            name: TextValue::new(default_name),
            sync: combo(60, sync_labels, "", Some(0)),
            rows,
        }
    }

    /// Toggles a row; one that is not there is passed over.
    pub fn toggle_row(&mut self, index: usize)
        ensures
            rows_model(final(self).rows@) == toggled_rows(
                rows_model(old(self).rows@),
                index as int,
            ),
            final(self).name@ == old(self).name@,
            final(self).sync@ == old(self).sync@,
    {
        if index < self.rows.len() {
            let ghost before = self.rows@;
            let row: WizardRow = WizardRow {
                entry: WizardFootage {
                    id: self.rows[index].entry.id,
                    name: self.rows[index].entry.name.clone(),
                },
                checked: !self.rows[index].checked,
            };
            self.rows.set(index, row);
            assert(rows_model(self.rows@) =~= toggled_rows(rows_model(before), index as int));
        }
    }

    /// The checked footage, in order.
    pub fn selection(&self) -> (r: Vec<WizardFootage>)
        ensures
            footage_model(r@) == checked_footage(rows_model(self.rows@)),
    {
        let ghost all = rows_model(self.rows@);
        let mut r: Vec<WizardFootage> = Vec::new();
        let mut i: usize = 0;
        assert(all.take(0) =~= Seq::empty());
        assert(footage_model(r@) =~= Seq::empty());
        while i < self.rows.len()
            invariant
                i <= self.rows.len(),
                all == rows_model(self.rows@),
                footage_model(r@) == checked_footage(all.take(i as int)),
            decreases self.rows.len() - i,
        {
            assert(all.take(i + 1).drop_last() =~= all.take(i as int));
            assert(all.take(i + 1).last() == row_model(self.rows@[i as int]));
            if self.rows[i].checked {
                let ghost before = footage_model(r@);
                let entry: &WizardFootage = &self.rows[i].entry;
                r.push(WizardFootage { id: entry.id, name: entry.name.clone() });
                assert(footage_model(r@) =~= before.push((entry.id, entry.name@)));
            }
            i = i + 1;
        }
        assert(all.take(i as int) =~= all);
        r
    }

    /// The alignment: 0 by audio, 1 by timecode, 2 none.
    pub fn sync_mode(&self) -> (r: usize)
        ensures
            r == self.sync@.position(),
    {
        match self.sync.selected() {
            Some(i) => i,
            None => 0,
        }
    }

    /// The name entered.
    pub fn name(&self) -> (r: String)
        ensures
            r@ == self.name@,
    {
        self.name.value()
    }

    /// Whether there is any footage.
    pub fn has_rows(&self) -> (r: bool)
        ensures
            r == (self.rows@.len() != 0),
    {
        self.rows.len() != 0
    }
}

/// Toggling a row twice brings the rows back.
pub proof fn lemma_toggle_twice(rows: Seq<(u64, Seq<char>, bool)>, index: int)
    ensures
        toggled_rows(toggled_rows(rows, index), index) == rows,
{
    assert(toggled_rows(toggled_rows(rows, index), index) =~= rows);
}

} // verus!
