//! The export dialog: what to export, to which container, and how.
//!
//! The codec lists hold only what the container takes, so a codec that does
//! not fit is never on offer.

use crate::combobox::ComboBox;
use crate::forms::{combo, numbered_options, IntField, PathField};
use crate::text::joined;
use vstd::prelude::*;

verus! {

/// The video codec to fall back on.
pub const FALLBACK_VIDEO_CODEC: i32 = 1;

/// The audio codec to fall back on.
pub const FALLBACK_AUDIO_CODEC: i32 = 12;

/// The codecs of a table; the fallback alone without one.
pub open spec fn codecs_or(table: Option<Vec<i32>>, fallback: i32) -> Seq<i32> {
    match table {
        Some(t) => t@,
        None => seq![fallback],
    }
}

/// The video codecs of a container, given its table; an unknown container
/// takes the fallback.
pub fn compatible_video_codecs(table: Option<Vec<i32>>) -> (r: Vec<i32>)
    ensures
        r@ == codecs_or(table, FALLBACK_VIDEO_CODEC),
{
    match table {
        Some(t) => t,
        None => {
            let mut r: Vec<i32> = Vec::new();
            r.push(FALLBACK_VIDEO_CODEC);
            r
        },
    }
}

/// The audio codecs of a container, given its table; an unknown container
/// takes the fallback.
pub fn compatible_audio_codecs(table: Option<Vec<i32>>) -> (r: Vec<i32>)
    ensures
        r@ == codecs_or(table, FALLBACK_AUDIO_CODEC),
{
    match table {
        Some(t) => t,
        None => {
            let mut r: Vec<i32> = Vec::new();
            r.push(FALLBACK_AUDIO_CODEC);
            r
        },
    }
}

/// A container format.
#[derive(Debug)]
pub struct ExportFormat {
    pub id: i32,
    pub name: String,
    pub extension: String,
}

/// What an [`ExportFormat`] holds.
#[verifier::ext_equal]
pub struct FormatModel {
    pub id: i32,
    pub name: Seq<char>,
    pub extension: Seq<char>,
}

impl View for ExportFormat {
    type V = FormatModel;

    open spec fn view(&self) -> FormatModel {
        FormatModel { id: self.id, name: self.name@, extension: self.extension@ }
    }
}

/// What a list of formats holds.
pub open spec fn formats_model(formats: Seq<ExportFormat>) -> Seq<FormatModel> {
    Seq::new(formats.len(), |i: int| formats[i]@)
}

/// The formats that files can be written in: those with an extension.
pub open spec fn offered(formats: Seq<FormatModel>) -> Seq<FormatModel>
    decreases formats.len(),
{
    if formats.len() == 0 {
        Seq::empty()
    } else if formats.last().extension.len() != 0 {
        offered(formats.drop_last()).push(formats.last())
    } else {
        offered(formats.drop_last())
    }
}

/// The label of a format.
pub open spec fn format_label(f: FormatModel) -> Seq<char> {
    f.name + " (."@ + f.extension + ")"@
}

/// The labels of formats, in order.
pub open spec fn format_labels(formats: Seq<FormatModel>) -> Seq<Seq<char>> {
    Seq::new(formats.len(), |i: int| format_label(formats[i]))
}

/// The index of MP4 among formats, or the first.
pub open spec fn default_format(formats: Seq<FormatModel>, mp4: i32) -> usize {
    crate::forms::index_or_first(
        crate::forms::first_where(formats, |f: FormatModel| f.id == mp4),
    )
}

/// The format at an index; MP4 without one.
pub open spec fn format_at(formats: Seq<FormatModel>, at: Option<usize>, mp4: i32) -> i32 {
    match at {
        Some(i) => if i < formats.len() {
            formats[i as int].id
        } else {
            mp4
        },
        None => mp4,
    }
}

/// A codec with its name.
#[derive(Debug)]
pub struct NamedCodec {
    pub code: i32,
    pub name: String,
}

/// The codes of codecs, in order.
pub open spec fn codes(codecs: Seq<NamedCodec>) -> Seq<i32> {
    Seq::new(codecs.len(), |i: int| codecs[i].code)
}

/// The names of codecs, in order.
pub open spec fn names(codecs: Seq<NamedCodec>) -> Seq<Seq<char>> {
    Seq::new(codecs.len(), |i: int| codecs[i].name@)
}

/// The codecs that a container takes.
#[derive(Debug)]
pub struct ContainerCodecs {
    pub video: Vec<NamedCodec>,
    pub audio: Vec<NamedCodec>,
}

/// A sequence that can be exported.
#[derive(Debug)]
pub struct SequenceEntry {
    pub id: u64,
    pub name: String,
}

/// The texts of the dialog.
#[derive(Debug)]
pub struct ExportLabels {
    pub format: String,
    pub video_codec: String,
    pub audio_codec: String,
    pub color: String,
    pub sdr: String,
    pub hdr: String,
    pub range: String,
    pub range_all: String,
    pub range_in_out: String,
    pub sequence: String,
}

/// The export dialog. The frame rate is the host's own field.
#[derive(Debug)]
pub struct ExportDialogContent {
    pub sequence: ComboBox,
    pub format: ComboBox,
    pub video_codec: ComboBox,
    pub audio_codec: ComboBox,
    pub color: ComboBox,
    pub range: ComboBox,
    pub resolution_w: IntField,
    pub resolution_h: IntField,
    pub bitrate: IntField,
    pub path: PathField,
    pub formats: Vec<ExportFormat>,
    pub active_format: i32,
    pub video_codes: Vec<i32>,
    pub audio_codes: Vec<i32>,
    pub sequences: Vec<u64>,
    pub mp4: i32,
}

/// What an [`ExportDialogContent`] holds.
#[verifier::ext_equal]
pub struct ExportModel {
    pub sequence: crate::combobox::ComboModel,
    pub format: crate::combobox::ComboModel,
    pub video_codec: crate::combobox::ComboModel,
    pub audio_codec: crate::combobox::ComboModel,
    pub color: crate::combobox::ComboModel,
    pub range: crate::combobox::ComboModel,
    pub resolution_w: IntField,
    pub resolution_h: IntField,
    pub bitrate: IntField,
    pub path: crate::forms::PathModel,
    pub formats: Seq<FormatModel>,
    pub active_format: i32,
    pub video_codes: Seq<i32>,
    pub audio_codes: Seq<i32>,
    pub sequences: Seq<u64>,
    pub mp4: i32,
}

impl View for ExportDialogContent {
    type V = ExportModel;

    open spec fn view(&self) -> ExportModel {
        ExportModel {
            sequence: self.sequence@,
            format: self.format@,
            video_codec: self.video_codec@,
            audio_codec: self.audio_codec@,
            color: self.color@,
            range: self.range@,
            resolution_w: self.resolution_w,
            resolution_h: self.resolution_h,
            bitrate: self.bitrate,
            path: self.path@,
            formats: formats_model(self.formats@),
            active_format: self.active_format,
            video_codes: self.video_codes@,
            audio_codes: self.audio_codes@,
            sequences: self.sequences@,
            mp4: self.mp4,
        }
    }
}

/// What the engine exports with. The frame rate is added by the host.
#[derive(Clone, Copy, Debug, PartialEq, Eq)]
pub struct ExportSettings {
    pub format: i32,
    pub video_codec: i32,
    pub audio_codec: i32,
    pub size: (i64, i64),
    pub video_bitrate: i64,
    pub audio_bitrate: i64,
    pub bit_depth: i32,
    pub color_primaries: i32,
    pub color_transfer: i32,
    pub color_space: i32,
    pub in_out: bool,
}

/// The codec at a selection, the first one without a selection; the fallback
/// when there is none.
pub open spec fn picked(codes: Seq<i32>, selected: Option<usize>, fallback: i32) -> i32 {
    let at = match selected {
        Some(i) => i,
        None => 0,
    };
    if at < codes.len() {
        codes[at as int]
    } else {
        fallback
    }
}

/// A size; nothing when a side is not given.
pub open spec fn size_of(w: i64, h: i64) -> (i64, i64) {
    if w > 0 && h > 0 {
        (w, h)
    } else {
        (0, 0)
    }
}

impl ExportModel {
    /// The format selected.
    pub open spec fn format_id(self) -> i32 {
        format_at(self.formats, self.format.selected, self.mp4)
    }

    /// The settings in the dialog.
    pub open spec fn settings(self) -> ExportSettings {
        let hdr = self.color.selected == Some(1usize);
        ExportSettings {
            format: self.active_format,
            video_codec: picked(
                self.video_codes,
                self.video_codec.selected,
                FALLBACK_VIDEO_CODEC,
            ),
            audio_codec: picked(
                self.audio_codes,
                self.audio_codec.selected,
                FALLBACK_AUDIO_CODEC,
            ),
            size: size_of(self.resolution_w.value, self.resolution_h.value),
            video_bitrate: self.bitrate.value,
            audio_bitrate: 0,
            bit_depth: if hdr {
                10
            } else {
                8
            },
            color_primaries: if hdr {
                9
            } else {
                1
            },
            color_transfer: if hdr {
                16
            } else {
                1
            },
            color_space: if hdr {
                9
            } else {
                1
            },
            in_out: self.range.selected == Some(1usize),
        }
    }

    /// The sequence selected.
    pub open spec fn selected_sequence(self) -> Option<u64> {
        match self.sequence.selected {
            Some(i) => if i < self.sequences.len() {
                Some(self.sequences[i as int])
            } else {
                None
            },
            None => None,
        }
    }

    /// The dialog with the codecs of a container, the first of each selected.
    pub open spec fn with_container(self, format: i32, codecs: &ContainerCodecs) -> ExportModel {
        ExportModel {
            active_format: format,
            video_codec: relisted(self.video_codec, names(codecs.video@)),
            audio_codec: relisted(self.audio_codec, names(codecs.audio@)),
            video_codes: codes(codecs.video@),
            audio_codes: codes(codecs.audio@),
            ..self
        }
    }

    /// The codecs on offer are the ones that are looked up.
    pub open spec fn wf(self) -> bool {
        &&& self.video_codec.options.len() == self.video_codes.len()
        &&& self.audio_codec.options.len() == self.audio_codes.len()
        &&& self.sequence.options.len() == self.sequences.len()
    }
}

/// A combo box over other options, the first one selected.
pub open spec fn relisted(
    c: crate::combobox::ComboModel,
    labels: Seq<Seq<char>>,
) -> crate::combobox::ComboModel {
    crate::combobox::ComboModel {
        options: crate::forms::numbered(labels),
        selected: Some(0),
        highlight: 0,
        open: false,
        ..c
    }
}

fn names_of(codecs: &Vec<NamedCodec>) -> (r: Vec<String>)
    ensures
        crate::forms::texts(r@) == names(codecs@),
{
    let mut r: Vec<String> = Vec::new();
    let mut i: usize = 0;
    while i < codecs.len()
        invariant
            i <= codecs.len(),
            r.len() == i,
            forall|j: int| 0 <= j < i ==> (#[trigger] r@[j])@ == codecs@[j].name@,
        decreases codecs.len() - i,
    {
        r.push(codecs[i].name.clone());
        i = i + 1;
    }
    assert(crate::forms::texts(r@) =~= names(codecs@));
    r
}

fn codes_of(codecs: &Vec<NamedCodec>) -> (r: Vec<i32>)
    ensures
        r@ == codes(codecs@),
{
    let mut r: Vec<i32> = Vec::new();
    let mut i: usize = 0;
    while i < codecs.len()
        invariant
            i <= codecs.len(),
            r@ =~= codes(codecs@).take(i as int),
        decreases codecs.len() - i,
    {
        r.push(codecs[i].code);
        i = i + 1;
    }
    assert(codes(codecs@).take(i as int) =~= codes(codecs@));
    r
}

/// The formats that files can be written in, in order.
pub fn offered_formats(formats: Vec<ExportFormat>) -> (r: Vec<ExportFormat>)
    ensures
        formats_model(r@) == offered(formats_model(formats@)),
{
    let ghost all = formats_model(formats@);
    let mut r: Vec<ExportFormat> = Vec::new();
    let mut i: usize = 0;
    assert(all.take(0) =~= Seq::empty());
    assert(formats_model(r@) =~= Seq::empty());
    while i < formats.len()
        invariant
            i <= formats.len(),
            all == formats_model(formats@),
            formats_model(r@) == offered(all.take(i as int)),
        decreases formats.len() - i,
    {
        let ghost before = formats_model(r@);
        assert(all.take(i + 1).drop_last() =~= all.take(i as int));
        assert(all.take(i + 1).last() == formats@[i as int]@);
        if !formats[i].extension.as_str().is_empty() {
            let f: ExportFormat = ExportFormat {
                id: formats[i].id,
                name: formats[i].name.clone(),
                extension: formats[i].extension.clone(),
            };
            r.push(f);
            assert(f@ == formats@[i as int]@);
            assert(formats_model(r@) =~= before.push(f@));
        }
        i = i + 1;
    }
    assert(all.take(i as int) =~= all);
    r
}

fn labels_of(formats: &Vec<ExportFormat>) -> (r: Vec<String>)
    ensures
        crate::forms::texts(r@) == format_labels(formats_model(formats@)),
{
    let mut r: Vec<String> = Vec::new();
    let mut i: usize = 0;
    while i < formats.len()
        invariant
            i <= formats.len(),
            r.len() == i,
            forall|j: int| 0 <= j < i ==> (#[trigger] r@[j])@ == format_label(formats@[j]@),
        decreases formats.len() - i,
    {
        let head: String = joined(formats[i].name.as_str(), " (.");
        r.push(joined(joined(head.as_str(), formats[i].extension.as_str()).as_str(), ")"));
        i = i + 1;
    }
    assert(crate::forms::texts(r@) =~= format_labels(formats_model(formats@)));
    r
}

fn mp4_position(formats: &Vec<ExportFormat>, mp4: i32) -> (r: usize)
    ensures
        r == default_format(formats_model(formats@), mp4),
        formats.len() > 0 ==> r < formats.len(),
{
    let ghost p = |f: FormatModel| f.id == mp4;
    let ghost all = formats_model(formats@);
    let mut i: usize = 0;
    while i < formats.len()
        invariant
            i <= formats.len(),
            all == formats_model(formats@),
            p == (|f: FormatModel| f.id == mp4),
            forall|j: int| 0 <= j < i ==> !p(all[j]),
        decreases formats.len() - i,
    {
        if formats[i].id == mp4 {
            proof {
                assert(p(all[i as int]));
                crate::forms::lemma_first_where(all, p);
            }
            return i;
        }
        assert(!p(all[i as int]));
        i = i + 1;
    }
    proof {
        crate::forms::lemma_first_where(all, p);
    }
    0
}

/// The container that the dialog starts with.
pub fn initial_format(formats: &Vec<ExportFormat>, mp4: i32) -> (r: i32)
    ensures
        r == format_at(
            formats_model(formats@),
            Some(default_format(formats_model(formats@), mp4)),
            mp4,
        ),
{
    let i: usize = mp4_position(formats, mp4);
    if i < formats.len() {
        assert(formats_model(formats@)[i as int] == formats@[i as int]@);
        formats[i].id
    } else {
        mp4
    }
}

fn pair(a: &str, b: &str) -> (r: Vec<String>)
    ensures
        crate::forms::texts(r@) == seq![a@, b@],
{
    let mut r: Vec<String> = Vec::new();
    r.push(a.to_owned());
    r.push(b.to_owned());
    assert(crate::forms::texts(r@) =~= seq![a@, b@]);
    r
}

/// The dialog at its start: MP4, or the first format; the first codecs of
/// the container; SDR; the whole sequence; nothing given for the rest.
pub open spec fn fresh(
    formats: Seq<FormatModel>,
    mp4: i32,
    codecs: &ContainerCodecs,
    labels: &ExportLabels,
) -> ExportModel {
    ExportModel {
        sequence: crate::forms::combo_model(13, Seq::empty(), labels.sequence@, None),
        format: crate::forms::combo_model(
            3,
            format_labels(formats),
            labels.format@,
            Some(default_format(formats, mp4)),
        ),
        video_codec: crate::forms::combo_model(
            5,
            names(codecs.video@),
            labels.video_codec@,
            Some(0),
        ),
        audio_codec: crate::forms::combo_model(
            6,
            names(codecs.audio@),
            labels.audio_codec@,
            Some(0),
        ),
        color: crate::forms::combo_model(
            7,
            seq![labels.sdr@, labels.hdr@],
            labels.color@,
            Some(0),
        ),
        range: crate::forms::combo_model(
            8,
            seq![labels.range_all@, labels.range_in_out@],
            labels.range@,
            Some(0),
        ),
        resolution_w: IntField { control: 9, min: 0, max: 16384, step: 4, value: 0 },
        resolution_h: IntField { control: 12, min: 0, max: 16384, step: 4, value: 0 },
        bitrate: IntField { control: 11, min: 0, max: 500_000_000, step: 1_000_000, value: 0 },
        path: crate::forms::PathModel { path: Seq::empty(), enabled: true },
        formats,
        active_format: format_at(formats, Some(default_format(formats, mp4)), mp4),
        video_codes: codes(codecs.video@),
        audio_codes: codes(codecs.audio@),
        sequences: Seq::empty(),
        mp4,
    }
}

/// The ids of sequences, in order.
pub open spec fn entry_ids(sequences: Seq<SequenceEntry>) -> Seq<u64> {
    Seq::new(sequences.len(), |i: int| sequences[i].id)
}

/// The names of sequences, in order.
pub open spec fn entry_names(sequences: Seq<SequenceEntry>) -> Seq<Seq<char>> {
    Seq::new(sequences.len(), |i: int| sequences[i].name@)
}

/// The sequence selected at first: the asked one, else the first, if any.
pub open spec fn preselected(ids: Seq<u64>, asked: Option<u64>) -> Option<usize> {
    let found = match asked {
        Some(id) => crate::forms::first_where(ids, |e: u64| e == id),
        None => None,
    };
    match found {
        Some(i) => Some(i as usize),
        None => if ids.len() == 0 {
            None
        } else {
            Some(0)
        },
    }
}

fn find_id(ids: &Vec<u64>, id: u64) -> (r: Option<usize>)
    ensures
        match r {
            Some(i) => i < ids.len() && crate::forms::first_where(ids@, |e: u64| e == id) == Some(
                i as int,
            ),
            None => crate::forms::first_where(ids@, |e: u64| e == id) is None,
        },
{
    let ghost p = |e: u64| e == id;
    let mut i: usize = 0;
    while i < ids.len()
        invariant
            i <= ids.len(),
            p == (|e: u64| e == id),
            forall|j: int| 0 <= j < i ==> !p(ids@[j]),
        decreases ids.len() - i,
    {
        if ids[i] == id {
            proof {
                assert(p(ids@[i as int]));
                crate::forms::lemma_first_where(ids@, p);
            }
            return Some(i);
        }
        assert(!p(ids@[i as int]));
        i = i + 1;
    }
    proof {
        crate::forms::lemma_first_where(ids@, p);
    }
    None
}

impl ExportDialogContent {
    /// The dialog over the formats that have an extension. `codecs` are those
    /// of [`initial_format`].
    pub fn new(
        formats: Vec<ExportFormat>,
        mp4: i32,
        codecs: &ContainerCodecs,
        labels: &ExportLabels,
    ) -> (r: ExportDialogContent)
        ensures
            r@ == fresh(offered(formats_model(formats@)), mp4, codecs, labels),
            r@.wf(),
    {
        proof {
            reveal_strlit("");
            assert(""@ =~= Seq::<char>::empty());
        }
        let formats: Vec<ExportFormat> = offered_formats(formats);
        let selected: usize = mp4_position(&formats, mp4);
        let active_format: i32 = initial_format(&formats, mp4);
        let none: Vec<String> = Vec::new();
        assert(crate::forms::texts(none@) =~= Seq::empty());
        ExportDialogContent {
            sequence: combo(13, none, labels.sequence.as_str(), None),
            format: combo(3, labels_of(&formats), labels.format.as_str(), Some(selected)),
            video_codec: combo(
                5,
                names_of(&codecs.video),
                labels.video_codec.as_str(),
                Some(0),
            ),
            audio_codec: combo(
                6,
                names_of(&codecs.audio),
                labels.audio_codec.as_str(),
                Some(0),
            ),
            color: combo(
                7,
                pair(labels.sdr.as_str(), labels.hdr.as_str()),
                labels.color.as_str(),
                Some(0),
            ),
            range: combo(
                8,
                pair(labels.range_all.as_str(), labels.range_in_out.as_str()),
                labels.range.as_str(),
                Some(0),
            ),
            resolution_w: IntField { control: 9, min: 0, max: 16384, step: 4, value: 0 },
            resolution_h: IntField { control: 12, min: 0, max: 16384, step: 4, value: 0 },
            bitrate: IntField {
                control: 11,
                min: 0,
                max: 500_000_000,
                step: 1_000_000,
                value: 0,
            },
            path: PathField::new(""),
            formats,
            active_format,
            video_codes: codes_of(&codecs.video),
            audio_codes: codes_of(&codecs.audio),
            sequences: Vec::new(),
            mp4,
        }
    }

    /// Fills the sequence picker and selects `selected`, or the first one.
    pub fn set_sequences(&mut self, sequences: &Vec<SequenceEntry>, selected: Option<u64>)
        ensures
            final(self)@ == (ExportModel {
                sequence: crate::combobox::ComboModel {
                    options: crate::forms::numbered(entry_names(sequences@)),
                    selected: preselected(entry_ids(sequences@), selected),
                    highlight: 0,
                    open: false,
                    ..old(self)@.sequence
                },
                sequences: entry_ids(sequences@),
                ..old(self)@
            }),
    {
        let mut ids: Vec<u64> = Vec::new();
        let mut entries: Vec<String> = Vec::new();
        let mut i: usize = 0;
        while i < sequences.len()
            invariant
                i <= sequences.len(),
                ids@ =~= entry_ids(sequences@).take(i as int),
                entries.len() == i,
                forall|j: int| 0 <= j < i ==> (#[trigger] entries@[j])@ == sequences@[j].name@,
            decreases sequences.len() - i,
        {
            ids.push(sequences[i].id);
            entries.push(sequences[i].name.clone());
            i = i + 1;
        }
        assert(ids@ =~= entry_ids(sequences@));
        assert(crate::forms::texts(entries@) =~= entry_names(sequences@));
        let found: Option<usize> = match selected {
            Some(id) => find_id(&ids, id),
            None => None,
        };
        let preselect: Option<usize> = match found {
            Some(i) => Some(i),
            None => if ids.len() == 0 {
                None
            } else {
                Some(0)
            },
        };
        self.sequence.set_options(numbered_options(entries));
        self.sequence.set_selected(preselect);
        self.sequences = ids;
    }

    /// The sequence selected.
    pub fn selected_sequence(&self) -> (r: Option<u64>)
        ensures
            r == self@.selected_sequence(),
    {
        match self.sequence.selected() {
            Some(i) => if i < self.sequences.len() {
                Some(self.sequences[i])
            } else {
                None
            },
            None => None,
        }
    }

    /// Another container: its codecs replace the ones on offer, and the first
    /// of each is selected.
    pub fn apply_format(&mut self, format: i32, codecs: &ContainerCodecs)
        ensures
            final(self)@ == old(self)@.with_container(format, codecs),
            old(self)@.wf() ==> final(self)@.wf(),
    {
        self.video_codec.set_options(numbered_options(names_of(&codecs.video)));
        self.video_codec.set_selected(Some(0));
        self.audio_codec.set_options(numbered_options(names_of(&codecs.audio)));
        self.audio_codec.set_selected(Some(0));
        self.video_codes = codes_of(&codecs.video);
        self.audio_codes = codes_of(&codecs.audio);
        self.active_format = format;
    }

    /// The container at an entry of the format list.
    pub fn format_at(&self, index: usize) -> (r: i32)
        ensures
            r == format_at(self@.formats, Some(index), self@.mp4),
    {
        if index < self.formats.len() {
            assert(self@.formats[index as int] == self.formats@[index as int]@);
            self.formats[index].id
        } else {
            self.mp4
        }
    }

    /// The format selected.
    pub fn format(&self) -> (r: i32)
        ensures
            r == self@.format_id(),
    {
        match self.format.selected() {
            Some(i) => self.format_at(i),
            None => self.mp4,
        }
    }

    /// The file extension of the format selected, without the dot.
    pub fn extension(&self) -> (r: String)
        ensures
            r@ == (match self@.format.selected {
                Some(i) => if i < self@.formats.len() {
                    self@.formats[i as int].extension
                } else {
                    "mp4"@
                },
                None => "mp4"@,
            }),
    {
        match self.format.selected() {
            Some(i) => if i < self.formats.len() {
                assert(self@.formats[i as int] == self.formats@[i as int]@);
                self.formats[i].extension.clone()
            } else {
                "mp4".to_owned()
            },
            None => "mp4".to_owned(),
        }
    }

    /// The output path entered.
    pub fn path(&self) -> (r: String)
        ensures
            r@ == self@.path.path,
    {
        self.path.path()
    }

    /// Fills the output path in.
    pub fn set_path(&mut self, path: &str)
        ensures
            final(self)@ == (ExportModel {
                path: crate::forms::PathModel { path: path@, ..old(self)@.path },
                ..old(self)@
            }),
    {
        self.path.set_path(path);
    }

    /// The settings to export with.
    pub fn settings(&self) -> (r: ExportSettings)
        ensures
            r == self@.settings(),
    {
        let hdr: bool = self.color.selected() == Some(1);
        let w: i64 = self.resolution_w.value;
        let h: i64 = self.resolution_h.value;
        let video_at: usize = match self.video_codec.selected() {
            Some(i) => i,
            None => 0,
        };
        let audio_at: usize = match self.audio_codec.selected() {
            Some(i) => i,
            None => 0,
        };
        ExportSettings {
            format: self.active_format,
            video_codec: if video_at < self.video_codes.len() {
                self.video_codes[video_at]
            } else {
                FALLBACK_VIDEO_CODEC
            },
            audio_codec: if audio_at < self.audio_codes.len() {
                self.audio_codes[audio_at]
            } else {
                FALLBACK_AUDIO_CODEC
            },
            size: if w > 0 && h > 0 {
                (w, h)
            } else {
                (0, 0)
            },
            video_bitrate: self.bitrate.value,
            audio_bitrate: 0,
            bit_depth: if hdr {
                10
            } else {
                8
            },
            color_primaries: if hdr {
                9
            } else {
                1
            },
            color_transfer: if hdr {
                16
            } else {
                1
            },
            color_space: if hdr {
                9
            } else {
                1
            },
            in_out: self.range.selected() == Some(1),
        }
    }
}

/// A codec that a user can select fits the container: after a switch of
/// container, every video codec and every audio codec on offer is one of the
/// container's own.
pub proof fn lemma_picked_codec_fits(m: ExportModel, format: i32, codecs: ContainerCodecs, at: usize)
    ensures
        ({
            let now = m.with_container(format, &codecs);
            &&& at < now.video_codec.options.len() ==> codes(codecs.video@).contains(
                picked(now.video_codes, Some(at), FALLBACK_VIDEO_CODEC),
            )
            &&& at < now.audio_codec.options.len() ==> codes(codecs.audio@).contains(
                picked(now.audio_codes, Some(at), FALLBACK_AUDIO_CODEC),
            )
        }),
{
    let now = m.with_container(format, &codecs);
    if at < now.video_codec.options.len() {
        assert(codes(codecs.video@)[at as int] == picked(
            now.video_codes,
            Some(at),
            FALLBACK_VIDEO_CODEC,
        ));
    }
    if at < now.audio_codec.options.len() {
        assert(codes(codecs.audio@)[at as int] == picked(
            now.audio_codes,
            Some(at),
            FALLBACK_AUDIO_CODEC,
        ));
    }
}

/// With sequences to pick from, one is always selected; a sequence that is
/// asked for and there is the one.
pub proof fn lemma_preselection(ids: Seq<u64>, asked: Option<u64>)
    requires
        ids.len() <= usize::MAX,
    ensures
        ids.len() > 0 <==> preselected(ids, asked) is Some,
        preselected(ids, asked) matches Some(i) ==> i < ids.len(),
        asked is Some && ids.contains(asked.unwrap()) ==> ids[preselected(
            ids,
            asked,
        ).unwrap() as int] == asked.unwrap(),
{
    if asked is Some {
        let id = asked.unwrap();
        let p = |e: u64| e == id;
        crate::forms::lemma_first_where(ids, p);
        if ids.contains(id) {
            let k = choose|k: int| 0 <= k < ids.len() && ids[k] == id;
            assert(p(ids[k]));
        }
    }
}

} // verus!
