//! The format of a sequence, and the fields it is edited with.
//!
//! A preset fills the width, the height and the frame rate; editing any of
//! them goes back to the custom entry.

use crate::checkbox::{CheckBox, CheckState};
use crate::combobox::{ComboBox, ComboBoxOption};
use crate::forms::{check, clamp, combo, numbered_options, IntField};
use vstd::prelude::*;

verus! {

/// A frame rate, as a fraction.
#[derive(Clone, Copy, Debug, PartialEq, Eq, Structural)]
pub struct FrameRate {
    pub num: u32,
    pub den: u32,
}

/// The picture size and frame rate of a sequence.
#[derive(Clone, Copy, Debug, PartialEq, Eq, Structural)]
pub struct VideoFormat {
    pub width: u32,
    pub height: u32,
    pub rate: FrameRate,
}

/// The number of presets; entry 0 is the custom one.
pub const SEQUENCE_PRESET_COUNT: usize = 6;

/// The number of frame rates.
pub const SEQUENCE_RATE_COUNT: usize = 8;

/// The frame rates on offer, in order.
pub open spec fn rate_at(index: int) -> Option<FrameRate> {
    if index == 0 {
        Some(FrameRate { num: 24000, den: 1001 })
    } else if index == 1 {
        Some(FrameRate { num: 24, den: 1 })
    } else if index == 2 {
        Some(FrameRate { num: 25, den: 1 })
    } else if index == 3 {
        Some(FrameRate { num: 30000, den: 1001 })
    } else if index == 4 {
        Some(FrameRate { num: 30, den: 1 })
    } else if index == 5 {
        Some(FrameRate { num: 50, den: 1 })
    } else if index == 6 {
        Some(FrameRate { num: 60000, den: 1001 })
    } else if index == 7 {
        Some(FrameRate { num: 60, den: 1 })
    } else {
        None
    }
}

/// The index of a frame rate, if it is on offer.
pub open spec fn rate_index(rate: FrameRate) -> Option<int> {
    if exists|i: int| rate_at(i) == Some(rate) {
        Some(choose|i: int| rate_at(i) == Some(rate))
    } else {
        None
    }
}

/// The frame rate at an index.
pub fn sequence_rate(index: usize) -> (r: Option<FrameRate>)
    ensures
        r == rate_at(index as int),
{
    match index {
        0 => Some(FrameRate { num: 24000, den: 1001 }),
        1 => Some(FrameRate { num: 24, den: 1 }),
        2 => Some(FrameRate { num: 25, den: 1 }),
        3 => Some(FrameRate { num: 30000, den: 1001 }),
        4 => Some(FrameRate { num: 30, den: 1 }),
        5 => Some(FrameRate { num: 50, den: 1 }),
        6 => Some(FrameRate { num: 60000, den: 1001 }),
        7 => Some(FrameRate { num: 60, den: 1 }),
        _ => None,
    }
}

/// No frame rate is on offer twice.
pub proof fn lemma_rates_distinct(i: int, j: int)
    requires
        rate_at(i) is Some,
        rate_at(i) == rate_at(j),
    ensures
        i == j,
{
}

/// The index of a frame rate.
pub fn sequence_rate_position(rate: FrameRate) -> (r: Option<usize>)
    ensures
        match r {
            Some(i) => i < SEQUENCE_RATE_COUNT && rate_index(rate) == Some(i as int)
                && rate_at(i as int) == Some(rate),
            None => rate_index(rate) is None,
        },
{
    let mut i: usize = 0;
    while i < SEQUENCE_RATE_COUNT
        invariant
            i <= SEQUENCE_RATE_COUNT,
            forall|j: int| 0 <= j < i ==> rate_at(j) != Some(rate),
        decreases SEQUENCE_RATE_COUNT - i,
    {
        if sequence_rate(i) == Some(rate) {
            proof {
                assert(rate_at(i as int) == Some(rate));
                let c = choose|k: int| rate_at(k) == Some(rate);
                lemma_rates_distinct(c, i as int);
            }
            return Some(i);
        }
        i = i + 1;
    }
    None
}

/// The labels of the frame rates, in order.
pub open spec fn rate_labels() -> Seq<Seq<char>> {
    seq!["23.98"@, "24"@, "25"@, "29.97"@, "30"@, "50"@, "59.94"@, "60"@]
}

fn rate_label_list() -> (r: Vec<String>)
    ensures
        crate::forms::texts(r@) == rate_labels(),
{
    let mut r: Vec<String> = Vec::new();
    r.push("23.98".to_owned());
    r.push("24".to_owned());
    r.push("25".to_owned());
    r.push("29.97".to_owned());
    r.push("30".to_owned());
    r.push("50".to_owned());
    r.push("59.94".to_owned());
    r.push("60".to_owned());
    assert(crate::forms::texts(r@) =~= rate_labels());
    r
}

/// The frame rate choices.
pub fn sequence_rate_options() -> (r: Vec<ComboBoxOption>)
    ensures
        crate::combobox::options_model(r@) == crate::forms::numbered(rate_labels()),
{
    numbered_options(rate_label_list())
}

/// The names under which the preset labels are looked up, in order.
pub open spec fn preset_keys() -> Seq<Seq<char>> {
    seq![
        "seqprops.preset.custom"@,
        "seqprops.preset.pal"@,
        "seqprops.preset.ntsc"@,
        "seqprops.preset.hd_1080_25"@,
        "seqprops.preset.hd_1080_30"@,
        "seqprops.preset.uhd_4k"@,
        "seqprops.preset.dci_4k"@,
    ]
}

/// The names under which the preset labels are looked up, in order.
pub fn sequence_preset_keys() -> (r: Vec<String>)
    ensures
        crate::forms::texts(r@) == preset_keys(),
{
    let mut r: Vec<String> = Vec::new();
    r.push("seqprops.preset.custom".to_owned());
    r.push("seqprops.preset.pal".to_owned());
    r.push("seqprops.preset.ntsc".to_owned());
    r.push("seqprops.preset.hd_1080_25".to_owned());
    r.push("seqprops.preset.hd_1080_30".to_owned());
    r.push("seqprops.preset.uhd_4k".to_owned());
    r.push("seqprops.preset.dci_4k".to_owned());
    assert(crate::forms::texts(r@) =~= preset_keys());
    r
}

/// The preset choices, with a label for each of [`sequence_preset_keys`].
pub fn sequence_preset_options(labels: Vec<String>) -> (r: Vec<ComboBoxOption>)
    ensures
        crate::combobox::options_model(r@) == crate::forms::numbered(
            crate::forms::texts(labels@),
        ),
{
    numbered_options(labels)
}

/// The format of a preset: its width, height, and frame rate.
pub open spec fn preset_format(index: int) -> Option<(u32, u32, u32, u32)> {
    if index == 1 {
        Some((720, 576, 25, 1))
    } else if index == 2 {
        Some((720, 480, 30000, 1001))
    } else if index == 3 {
        Some((1920, 1080, 25, 1))
    } else if index == 4 {
        Some((1920, 1080, 30, 1))
    } else if index == 5 {
        Some((3840, 2160, 25, 1))
    } else if index == 6 {
        Some((4096, 2160, 24, 1))
    } else {
        None
    }
}

/// The format of a preset; the custom entry has none.
pub fn sequence_preset_format(index: usize) -> (r: Option<(u32, u32, u32, u32)>)
    ensures
        r == preset_format(index as int),
{
    match index {
        1 => Some((720, 576, 25, 1)),
        2 => Some((720, 480, 30000, 1001)),
        3 => Some((1920, 1080, 25, 1)),
        4 => Some((1920, 1080, 30, 1)),
        5 => Some((3840, 2160, 25, 1)),
        6 => Some((4096, 2160, 24, 1)),
        _ => None,
    }
}

/// A format as the presets write it.
pub open spec fn format_key(format: VideoFormat) -> (u32, u32, u32, u32) {
    (format.width, format.height, format.rate.num, format.rate.den)
}

/// The preset of a format; the custom entry when none has it.
pub open spec fn preset_of(format: VideoFormat) -> int {
    if exists|i: int| preset_format(i) == Some(format_key(format)) {
        choose|i: int| preset_format(i) == Some(format_key(format))
    } else {
        0
    }
}

/// No two presets have one format.
pub proof fn lemma_presets_distinct(i: int, j: int)
    requires
        preset_format(i) is Some,
        preset_format(i) == preset_format(j),
    ensures
        i == j,
{
}

/// What the fields start from.
#[derive(Clone, Copy, Debug, PartialEq, Eq, Structural)]
pub struct SequenceFormatSeed {
    pub preset: usize,
    pub width: u32,
    pub height: u32,
    pub rate: Option<usize>,
    pub interlaced: bool,
}

/// What the fields start from for a format.
pub open spec fn seed_of(format: VideoFormat, interlaced: bool) -> SequenceFormatSeed {
    SequenceFormatSeed {
        preset: preset_of(format) as usize,
        width: format.width,
        height: format.height,
        rate: match rate_index(format.rate) {
            Some(i) => Some(i as usize),
            None => None,
        },
        interlaced,
    }
}

impl SequenceFormatSeed {
    /// HD 1080p25.
    pub fn hd_1080p25() -> (r: SequenceFormatSeed)
        ensures
            r == (SequenceFormatSeed {
                preset: 3,
                width: 1920,
                height: 1080,
                rate: Some(2usize),
                interlaced: false,
            }),
    {
        SequenceFormatSeed {
            preset: 3,
            width: 1920,
            height: 1080,
            rate: Some(2),
            interlaced: false,
        }
    }

    /// The start for a format: its preset or the custom entry, and its frame
    /// rate when that is on offer.
    pub fn from_format(format: &VideoFormat, interlaced: bool) -> (r: SequenceFormatSeed)
        ensures
            r == seed_of(*format, interlaced),
    {
        let rate: Option<usize> = sequence_rate_position(format.rate);
        let mut preset: usize = 0;
        let mut i: usize = 1;
        while i <= SEQUENCE_PRESET_COUNT
            invariant
                1 <= i <= SEQUENCE_PRESET_COUNT + 1,
                forall|j: int|
                    1 <= j < i && preset == 0 ==> preset_format(j) != Some(format_key(*format)),
                preset == 0 || (preset < i && preset_format(preset as int) == Some(
                    format_key(*format),
                )),
            decreases SEQUENCE_PRESET_COUNT + 1 - i,
        {
            if preset == 0 && sequence_preset_format(i) == Some(
                (format.width, format.height, format.rate.num, format.rate.den),
            ) {
                preset = i;
            }
            i = i + 1;
        }
        proof {
            if preset != 0 {
                let c = choose|k: int| preset_format(k) == Some(format_key(*format));
                lemma_presets_distinct(c, preset as int);
            }
        }
        SequenceFormatSeed {
            preset,
            width: format.width,
            height: format.height,
            rate,
            interlaced,
        }
    }

    /// The start for the properties of a sequence: its format, or a custom HD
    /// picture without a frame rate when there is no such sequence.
    pub fn for_properties(current: Option<(VideoFormat, bool)>) -> (r: SequenceFormatSeed)
        ensures
            r == (match current {
                Some((format, interlaced)) => seed_of(format, interlaced),
                None => SequenceFormatSeed {
                    preset: 0,
                    width: 1920,
                    height: 1080,
                    rate: None,
                    interlaced: false,
                },
            }),
    {
        match current {
            Some((format, interlaced)) => SequenceFormatSeed::from_format(&format, interlaced),
            None => SequenceFormatSeed {
                preset: 0,
                width: 1920,
                height: 1080,
                rate: None,
                interlaced: false,
            },
        }
    }
}

/// The format fields.
#[derive(Debug)]
pub struct SequenceFormatFields {
    pub preset: ComboBox,
    pub width: IntField,
    pub height: IntField,
    pub rate: ComboBox,
    pub interlaced: CheckBox,
}

/// What [`SequenceFormatFields`] hold.
#[verifier::ext_equal]
pub struct FieldsModel {
    pub preset: crate::combobox::ComboModel,
    pub width: IntField,
    pub height: IntField,
    pub rate: crate::combobox::ComboModel,
    pub interlaced: crate::checkbox::CheckModel,
}

impl View for SequenceFormatFields {
    type V = FieldsModel;

    open spec fn view(&self) -> FieldsModel {
        FieldsModel {
            preset: self.preset@,
            width: self.width,
            height: self.height,
            rate: self.rate@,
            interlaced: self.interlaced@,
        }
    }
}

/// A field for a side of the picture.
pub open spec fn side_field(control: usize, value: u32) -> IntField {
    IntField { control, min: 16, max: 8192, step: 2, value: value as i64 }
}

/// The fields at their start.
pub open spec fn seeded_fields(
    seed: SequenceFormatSeed,
    preset_labels: Seq<Seq<char>>,
    interlaced_label: Seq<char>,
) -> FieldsModel {
    FieldsModel {
        preset: crate::forms::combo_model(40, preset_labels, Seq::empty(), Some(seed.preset)),
        width: side_field(41, seed.width),
        height: side_field(42, seed.height),
        rate: crate::forms::combo_model(43, rate_labels(), Seq::empty(), seed.rate),
        interlaced: crate::forms::check_model(44, seed.interlaced, interlaced_label),
    }
}

/// A side as a picture has it: at least one.
pub open spec fn side_of(value: int) -> u32 {
    crate::forms::clamped(value, 1, u32::MAX as int) as u32
}

impl FieldsModel {
    /// The format in the fields; 25 without a frame rate.
    pub open spec fn format(self) -> VideoFormat {
        VideoFormat {
            width: side_of(self.width.value as int),
            height: side_of(self.height.value as int),
            rate: match self.rate.selected {
                Some(i) => match rate_at(i as int) {
                    Some(r) => r,
                    None => FrameRate { num: 25, den: 1 },
                },
                None => FrameRate { num: 25, den: 1 },
            },
        }
    }

    /// The fields with the custom entry.
    pub open spec fn customized(self) -> FieldsModel {
        FieldsModel {
            preset: crate::combobox::ComboModel { selected: Some(0), ..self.preset },
            ..self
        }
    }

    /// The fields filled from a preset; the custom entry fills nothing.
    pub open spec fn filled(self, index: usize) -> FieldsModel {
        match preset_format(index as int) {
            None => self,
            Some((w, h, num, den)) => FieldsModel {
                width: crate::forms::with_value(self.width, w as int),
                height: crate::forms::with_value(self.height, h as int),
                rate: crate::combobox::ComboModel {
                    selected: Some(rate_index(FrameRate { num, den }).unwrap() as usize),
                    ..self.rate
                },
                ..self
            },
        }
    }
}

/// Every preset's frame rate is on offer.
pub proof fn lemma_preset_rates(index: int)
    requires
        preset_format(index) is Some,
    ensures
        ({
            let (w, h, num, den) = preset_format(index).unwrap();
            let rate = FrameRate { num, den };
            &&& rate_index(rate) is Some
            &&& 0 <= rate_index(rate).unwrap() < SEQUENCE_RATE_COUNT
            &&& rate_at(rate_index(rate).unwrap()) == Some(rate)
        }),
{
    let (w, h, num, den) = preset_format(index).unwrap();
    let rate = FrameRate { num, den };
    assert(rate_at(1) == Some(FrameRate { num: 24, den: 1 }));
    assert(rate_at(2) == Some(FrameRate { num: 25, den: 1 }));
    assert(rate_at(3) == Some(FrameRate { num: 30000, den: 1001 }));
    assert(rate_at(4) == Some(FrameRate { num: 30, den: 1 }));
    assert(exists|i: int| rate_at(i) == Some(rate));
}

fn side(value: i64) -> (r: u32)
    ensures
        r == side_of(value as int),
{
    clamp(value, 1, 0xffff_ffff) as u32
}

impl SequenceFormatFields {
    /// The fields at their start, with the labels of the presets and of the
    /// interlaced box.
    pub fn build(seed: SequenceFormatSeed, preset_labels: Vec<String>, interlaced_label: &str) -> (r:
        SequenceFormatFields)
        ensures
            r@ == seeded_fields(seed, crate::forms::texts(preset_labels@), interlaced_label@),
    {
        proof {
            reveal_strlit("");
            assert(""@ =~= Seq::<char>::empty());
        }
        SequenceFormatFields {
            preset: combo(40, preset_labels, "", Some(seed.preset)),
            width: IntField { control: 41, min: 16, max: 8192, step: 2, value: seed.width as i64 },
            height: IntField {
                control: 42,
                min: 16,
                max: 8192,
                step: 2,
                value: seed.height as i64,
            },
            rate: combo(43, rate_label_list(), "", seed.rate),
            interlaced: check(44, seed.interlaced, interlaced_label),
        }
    }

    /// The preset `index` was selected: fills the other fields.
    pub fn preset_selected(&mut self, index: usize)
        ensures
            final(self)@ == old(self)@.filled(index),
    {
        if let Some((w, h, num, den)) = sequence_preset_format(index) {
            proof {
                lemma_preset_rates(index as int);
            }
            self.width.set_value(w as i64);
            self.height.set_value(h as i64);
            if let Some(i) = sequence_rate_position(FrameRate { num, den }) {
                self.rate.set_selected(Some(i));
            }
        }
    }

    /// The width was edited.
    pub fn width_changed(&mut self, value: i64)
        ensures
            final(self)@ == (FieldsModel {
                width: crate::forms::with_value(old(self)@.width, value as int),
                ..old(self)@.customized()
            }),
    {
        self.width.set_value(value);
        self.preset.set_selected(Some(0));
    }

    /// The height was edited.
    pub fn height_changed(&mut self, value: i64)
        ensures
            final(self)@ == (FieldsModel {
                height: crate::forms::with_value(old(self)@.height, value as int),
                ..old(self)@.customized()
            }),
    {
        self.height.set_value(value);
        self.preset.set_selected(Some(0));
    }

    /// A frame rate was selected.
    pub fn rate_selected(&mut self)
        ensures
            final(self)@ == old(self)@.customized(),
    {
        self.preset.set_selected(Some(0));
    }

    /// The interlaced box asks for a state; it is accepted.
    pub fn interlaced_toggled(&mut self, state: CheckState)
        ensures
            final(self)@ == (FieldsModel {
                interlaced: crate::checkbox::CheckModel { state, ..old(self)@.interlaced },
                ..old(self)@
            }),
    {
        self.interlaced.set_state(state);
    }

    /// The format in the fields.
    pub fn format(&self) -> (r: VideoFormat)
        ensures
            r == self@.format(),
    {
        let rate: FrameRate = match self.rate.selected() {
            Some(i) => match sequence_rate(i) {
                Some(r) => r,
                None => FrameRate { num: 25, den: 1 },
            },
            None => FrameRate { num: 25, den: 1 },
        };
        VideoFormat { width: side(self.width.value), height: side(self.height.value), rate }
    }

    /// Whether the interlaced box is checked.
    pub fn interlaced(&self) -> (r: bool)
        ensures
            r == (self@.interlaced.state == CheckState::Checked),
    {
        self.interlaced.state() == CheckState::Checked
    }
}

/// A preset's format selects that preset again.
pub proof fn lemma_preset_reselects_itself(index: int, interlaced: bool)
    requires
        1 <= index <= SEQUENCE_PRESET_COUNT,
    ensures
        preset_format(index) is Some,
        ({
            let (width, height, num, den) = preset_format(index).unwrap();
            let format = VideoFormat { width, height, rate: FrameRate { num, den } };
            seed_of(format, interlaced).preset == index
        }),
{
    let (width, height, num, den) = preset_format(index).unwrap();
    let format = VideoFormat { width, height, rate: FrameRate { num, den } };
    assert(preset_format(index) == Some(format_key(format)));
    let c = choose|k: int| preset_format(k) == Some(format_key(format));
    lemma_presets_distinct(c, index);
}

/// Whether a field takes the sides that pictures have.
pub open spec fn is_side(field: IntField) -> bool {
    field.min == 16 && field.max == 8192 && field.step == 2
}

/// Picking a preset puts its format in the fields, whatever was there.
pub proof fn lemma_preset_fills_its_format(fields: FieldsModel, index: usize)
    requires
        preset_format(index as int) is Some,
        is_side(fields.width),
        is_side(fields.height),
    ensures
        format_key(fields.filled(index).format()) == preset_format(index as int).unwrap(),
{
    lemma_preset_rates(index as int);
}

/// The fields give back the format they start from, when its frame rate is
/// on offer and its picture is not empty.
pub proof fn lemma_seed_gives_format_back(
    format: VideoFormat,
    interlaced: bool,
    preset_labels: Seq<Seq<char>>,
    label: Seq<char>,
)
    requires
        exists|i: int| rate_at(i) == Some(format.rate),
        format.width >= 1,
        format.height >= 1,
    ensures
        seeded_fields(seed_of(format, interlaced), preset_labels, label).format() == format,
{
}

} // verus!
