//! The dialogs that name a sequence and choose its format.

use crate::forms::TextValue;
use crate::sequence_format::{FrameRate, SequenceFormatFields, SequenceFormatSeed, VideoFormat};
use crate::text::{decimal, joined};
use vstd::prelude::*;

verus! {

/// What an optional text holds.
pub open spec fn message_model(m: Option<String>) -> Option<Seq<char>> {
    match m {
        Some(t) => Some(t@),
        None => None,
    }
}

/// A sequence to be made, or the parameters to give one.
#[derive(Debug)]
pub struct SequenceRequest {
    pub name: String,
    pub format: VideoFormat,
    pub interlaced: bool,
}

/// What a [`SequenceRequest`] holds.
#[verifier::ext_equal]
pub struct RequestModel {
    pub name: Seq<char>,
    pub format: VideoFormat,
    pub interlaced: bool,
}

impl View for SequenceRequest {
    type V = RequestModel;

    open spec fn view(&self) -> RequestModel {
        RequestModel { name: self.name@, format: self.format, interlaced: self.interlaced }
    }
}

/// The labels of the format fields.
#[derive(Debug)]
pub struct FormatLabels {
    pub presets: Vec<String>,
    pub interlaced: String,
}

/// The dialog for a new sequence.
#[derive(Debug)]
pub struct NewSequenceContent {
    pub name: TextValue,
    pub format: SequenceFormatFields,
    pub error: Option<String>,
}

/// The dialog for the properties of a sequence.
#[derive(Debug)]
pub struct SequencePropertiesContent {
    pub sequence_id: u64,
    pub name: TextValue,
    pub format: SequenceFormatFields,
    pub error: Option<String>,
}

/// What the two dialogs hold: a name, a format, and what went wrong.
#[verifier::ext_equal]
pub struct SequenceDialogModel {
    pub name: Seq<char>,
    pub format: crate::sequence_format::FieldsModel,
    pub error: Option<Seq<char>>,
}

impl View for NewSequenceContent {
    type V = SequenceDialogModel;

    open spec fn view(&self) -> SequenceDialogModel {
        SequenceDialogModel {
            name: self.name@,
            format: self.format@,
            error: message_model(self.error),
        }
    }
}

impl View for SequencePropertiesContent {
    type V = SequenceDialogModel;

    open spec fn view(&self) -> SequenceDialogModel {
        SequenceDialogModel {
            name: self.name@,
            format: self.format@,
            error: message_model(self.error),
        }
    }
}

impl SequenceDialogModel {
    /// What the dialog asks for.
    pub open spec fn request(self) -> RequestModel {
        RequestModel {
            name: self.name,
            format: self.format.format(),
            interlaced: self.format.interlaced.state == crate::checkbox::CheckState::Checked,
        }
    }
}

/// A dialog at its start.
pub open spec fn seeded_dialog(
    name: Seq<char>,
    seed: SequenceFormatSeed,
    labels: &FormatLabels,
) -> SequenceDialogModel {
    SequenceDialogModel {
        name,
        format: crate::sequence_format::seeded_fields(
            seed,
            crate::forms::texts(labels.presets@),
            labels.interlaced@,
        ),
        error: None,
    }
}

fn fields(seed: SequenceFormatSeed, labels: &FormatLabels) -> (r: SequenceFormatFields)
    ensures
        r@ == crate::sequence_format::seeded_fields(
            seed,
            crate::forms::texts(labels.presets@),
            labels.interlaced@,
        ),
{
    SequenceFormatFields::build(
        seed,
        crate::forms::copied_texts(&labels.presets),
        labels.interlaced.as_str(),
    )
}

impl NewSequenceContent {
    /// The dialog with the default name and HD 1080p25.
    pub fn new(default_name: &str, labels: &FormatLabels) -> (r: NewSequenceContent)
        ensures
            r@ == seeded_dialog(
                default_name@,
                SequenceFormatSeed {
                    preset: 3,
                    width: 1920,
                    height: 1080,
                    rate: Some(2usize),
                    interlaced: false,
                },
                labels,
            ),
    {
        NewSequenceContent::new_seeded(default_name, SequenceFormatSeed::hd_1080p25(), labels)
    }

    /// The dialog with the default name and the format of `seed`.
    pub fn new_seeded(default_name: &str, seed: SequenceFormatSeed, labels: &FormatLabels) -> (r:
        NewSequenceContent)
        ensures
            r@ == seeded_dialog(default_name@, seed, labels),
    {
        NewSequenceContent {
            name: TextValue::new(default_name),
            format: fields(seed, labels),
            error: None,
        }
    }

    /// The name entered.
    pub fn name(&self) -> (r: String)
        ensures
            r@ == self@.name,
    {
        self.name.value()
    }

    /// The format selected.
    pub fn format(&self) -> (r: VideoFormat)
        ensures
            r == self@.format.format(),
    {
        self.format.format()
    }

    /// Whether the interlaced box is checked.
    pub fn interlaced(&self) -> (r: bool)
        ensures
            r == self@.request().interlaced,
    {
        self.format.interlaced()
    }

    /// The sequence to make.
    pub fn request(&self) -> (r: SequenceRequest)
        ensures
            r@ == self@.request(),
    {
        SequenceRequest {
            name: self.name(),
            format: self.format(),
            interlaced: self.interlaced(),
        }
    }

    /// Takes what came of the request: a sequence that was made clears the
    /// error, a refusal changes nothing.
    pub fn commit(&mut self, outcome: Result<(), String>) -> (r: Result<(), String>)
        ensures
            r == outcome,
            final(self)@ == if outcome is Ok {
                SequenceDialogModel { error: None, ..old(self)@ }
            } else {
                old(self)@
            },
    {
        if outcome.is_ok() {
            self.error = None;
        }
        outcome
    }

    /// Sets the error shown.
    pub fn set_error(&mut self, msg: Option<String>)
        ensures
            final(self)@ == (SequenceDialogModel { error: message_model(msg), ..old(self)@ }),
    {
        self.error = msg;
    }

    /// The error shown.
    pub fn error(&self) -> (r: Option<&String>)
        ensures
            r == (match self.error {
                Some(e) => Some(&e),
                None => None,
            }),
    {
        match &self.error {
            Some(e) => Some(e),
            None => None,
        }
    }
}

impl SequencePropertiesContent {
    /// The dialog at the sequence's parameters; without such a sequence, with
    /// no name and a custom HD picture.
    pub fn new(sequence_id: u64, current: Option<&SequenceRequest>, labels: &FormatLabels) -> (r:
        SequencePropertiesContent)
        ensures
            r.sequence_id == sequence_id,
            r@ == (match current {
                Some(c) => seeded_dialog(
                    c.name@,
                    crate::sequence_format::seed_of(c.format, c.interlaced),
                    labels,
                ),
                None => seeded_dialog(
                    Seq::empty(),
                    SequenceFormatSeed {
                        preset: 0,
                        width: 1920,
                        height: 1080,
                        rate: None,
                        interlaced: false,
                    },
                    labels,
                ),
            }),
    {
        proof {
            reveal_strlit("");
            assert(""@ =~= Seq::<char>::empty());
        }
        let (name, seed): (TextValue, SequenceFormatSeed) = match current {
            Some(c) => (
                TextValue::new(c.name.as_str()),
                SequenceFormatSeed::for_properties(Some((c.format, c.interlaced))),
            ),
            None => (TextValue::new(""), SequenceFormatSeed::for_properties(None)),
        };
        SequencePropertiesContent { sequence_id, name, format: fields(seed, labels), error: None }
    }

    /// The name entered.
    pub fn name(&self) -> (r: String)
        ensures
            r@ == self@.name,
    {
        self.name.value()
    }

    /// The format selected.
    pub fn format(&self) -> (r: VideoFormat)
        ensures
            r == self@.format.format(),
    {
        self.format.format()
    }

    /// Whether the interlaced box is checked.
    pub fn interlaced(&self) -> (r: bool)
        ensures
            r == self@.request().interlaced,
    {
        self.format.interlaced()
    }

    /// The parameters to give the sequence.
    pub fn request(&self) -> (r: SequenceRequest)
        ensures
            r@ == self@.request(),
    {
        SequenceRequest {
            name: self.name(),
            format: self.format(),
            interlaced: self.interlaced(),
        }
    }

    /// Takes what came of the request: parameters that were taken clear the
    /// error, a refusal changes nothing.
    pub fn commit(&mut self, outcome: Result<(), String>) -> (r: Result<(), String>)
        ensures
            r == outcome,
            final(self).sequence_id == old(self).sequence_id,
            final(self)@ == if outcome is Ok {
                SequenceDialogModel { error: None, ..old(self)@ }
            } else {
                old(self)@
            },
    {
        if outcome.is_ok() {
            self.error = None;
        }
        outcome
    }

    /// Sets the error shown.
    pub fn set_error(&mut self, msg: Option<String>)
        ensures
            final(self).sequence_id == old(self).sequence_id,
            final(self)@ == (SequenceDialogModel { error: message_model(msg), ..old(self)@ }),
    {
        self.error = msg;
    }

    /// The error shown.
    pub fn error(&self) -> (r: Option<&String>)
        ensures
            r == (match self.error {
                Some(e) => Some(&e),
                None => None,
            }),
    {
        match &self.error {
            Some(e) => Some(e),
            None => None,
        }
    }
}

/// The dialog for a new project: its name, and its first sequence's format.
#[derive(Debug)]
pub struct NewProjectContent {
    pub name: TextValue,
    pub format: SequenceFormatFields,
}

impl NewProjectContent {
    /// The dialog with the default name and HD 1080p25.
    pub fn new(default_name: &str, labels: &FormatLabels) -> (r: NewProjectContent)
        ensures
            r.name@ == default_name@,
            r.format@ == crate::sequence_format::seeded_fields(
                SequenceFormatSeed {
                    preset: 3,
                    width: 1920,
                    height: 1080,
                    rate: Some(2usize),
                    interlaced: false,
                },
                crate::forms::texts(labels.presets@),
                labels.interlaced@,
            ),
    {
        NewProjectContent {
            name: TextValue::new(default_name),
            format: fields(SequenceFormatSeed::hd_1080p25(), labels),
        }
    }

    /// The project name entered.
    pub fn name(&self) -> (r: String)
        ensures
            r@ == self.name@,
    {
        self.name.value()
    }

    /// The format selected.
    pub fn format(&self) -> (r: VideoFormat)
        ensures
            r == self.format@.format(),
    {
        self.format.format()
    }

    /// Whether the interlaced box is checked.
    pub fn interlaced(&self) -> (r: bool)
        ensures
            r == (self.format@.interlaced.state == crate::checkbox::CheckState::Checked),
    {
        self.format.interlaced()
    }
}

/// What to do with footage dropped on an empty timeline.
#[derive(Clone, Copy, Debug, PartialEq, Eq, Structural)]
pub enum DropSequenceChoice {
    /// Make the sequence from the footage's own parameters.
    UseFootageParams,
    /// Ask for the parameters.
    SpecifyManually,
}

/// The first video stream of dropped footage.
#[derive(Clone, Copy, Debug, PartialEq, Eq, Structural)]
pub struct ProbedVideo {
    pub width: u32,
    pub height: u32,
    pub rate: FrameRate,
    pub interlaced: bool,
}

/// The dialog for footage dropped on an empty timeline.
#[derive(Clone, Copy, Debug)]
pub struct DropSequenceChoiceContent {
    pub probed: Option<ProbedVideo>,
}

impl DropSequenceChoiceContent {
    /// The dialog for the footage's first video stream, if it has one.
    pub fn new(probed: Option<ProbedVideo>) -> (r: DropSequenceChoiceContent)
        ensures
            r.probed == probed,
    {
        DropSequenceChoiceContent { probed }
    }

    /// The stream shown.
    pub fn probed(&self) -> (r: Option<ProbedVideo>)
        ensures
            r == self.probed,
    {
        self.probed
    }

    /// The text shown: the size and frame rate, and that the picture is
    /// interlaced; or that there is no video. `fps` is the frame rate as
    /// timecodes write it.
    pub fn body(&self, fps: &str, interlaced: &str, no_video: &str) -> (r: String)
        ensures
            r@ == (match self.probed {
                Some(p) => {
                    let base = crate::text::decimal_text(p.width as nat) + " × "@
                        + crate::text::decimal_text(p.height as nat) + ", "@ + fps@;
                    if p.interlaced {
                        base + " · "@ + interlaced@
                    } else {
                        base
                    }
                },
                None => no_video@,
            }),
    {
        match self.probed {
            Some(p) => {
                let size: String = joined(
                    joined(decimal(p.width as u64).as_str(), " × ").as_str(),
                    decimal(p.height as u64).as_str(),
                );
                let base: String = joined(joined(size.as_str(), ", ").as_str(), fps);
                if p.interlaced {
                    joined(joined(base.as_str(), " · ").as_str(), interlaced)
                } else {
                    base
                }
            },
            None => no_video.to_owned(),
        }
    }

    /// What the dialog for a new sequence starts from: the stream, or HD
    /// 1080p25.
    pub fn seed(&self) -> (r: SequenceFormatSeed)
        ensures
            r == (match self.probed {
                Some(p) => crate::sequence_format::seed_of(
                    VideoFormat { width: p.width, height: p.height, rate: p.rate },
                    p.interlaced,
                ),
                None => SequenceFormatSeed {
                    preset: 3,
                    width: 1920,
                    height: 1080,
                    rate: Some(2usize),
                    interlaced: false,
                },
            }),
    {
        match self.probed {
            Some(p) => SequenceFormatSeed::from_format(
                &VideoFormat { width: p.width, height: p.height, rate: p.rate },
                p.interlaced,
            ),
            None => SequenceFormatSeed::hd_1080p25(),
        }
    }
}

/// Reopening the properties of a sequence shows the format it was given,
/// when its frame rate is on offer and its picture is not empty.
pub proof fn lemma_properties_show_the_request(c: RequestModel, labels: FormatLabels)
    requires
        exists|i: int| crate::sequence_format::rate_at(i) == Some(c.format.rate),
        c.format.width >= 1,
        c.format.height >= 1,
    ensures
        seeded_dialog(
            c.name,
            crate::sequence_format::seed_of(c.format, c.interlaced),
            &labels,
        ).request() == c,
{
    crate::sequence_format::lemma_seed_gives_format_back(
        c.format,
        c.interlaced,
        crate::forms::texts(labels.presets@),
        labels.interlaced@,
    );
}

} // verus!
