//! The project properties: the colour configuration, where the disk cache
//! is, and the colour pipeline.

use crate::combobox::ComboBox;
use crate::displaycolor::{OutputGamut, OutputTransfer};
use crate::forms::{clamp, combo, PathField};
use vstd::prelude::*;

verus! {

/// The colour space that the pipeline works in.
#[derive(Clone, Copy, Debug, PartialEq, Eq, Structural)]
pub enum WorkingColorSpace {
    AcesCg,
    SrgbLegacy,
}

/// The colour pipeline's settings.
#[derive(Clone, Copy, Debug, PartialEq, Eq, Structural)]
pub struct ColorSettings {
    pub working: WorkingColorSpace,
    pub gamut: OutputGamut,
    pub transfer: OutputTransfer,
}

/// The project's properties as they are.
#[derive(Debug)]
pub struct ProjectState {
    pub ocio_config: String,
    pub cache_setting: i32,
    pub cache_path: String,
    pub color: ColorSettings,
}

/// The labels of the choices, in order.
#[derive(Debug)]
pub struct ProjectLabels {
    pub cache: Vec<String>,
    pub working: Vec<String>,
    pub gamut: Vec<String>,
    pub transfer: Vec<String>,
}

/// The project properties dialog. The cache is at its default place (0), next
/// to the project (1), or at a path of one's own (2).
#[derive(Debug)]
pub struct ProjectPropertiesContent {
    pub ocio_config: PathField,
    pub cache_location: ComboBox,
    pub custom_cache_path: PathField,
    pub cache_setting: i32,
    pub working_space: ComboBox,
    pub output_gamut: ComboBox,
    pub output_transfer: ComboBox,
    pub error: Option<String>,
}

/// What a [`ProjectPropertiesContent`] holds.
#[verifier::ext_equal]
pub struct PropertiesModel {
    pub ocio_config: crate::forms::PathModel,
    pub cache_location: crate::combobox::ComboModel,
    pub custom_cache_path: crate::forms::PathModel,
    pub cache_setting: i32,
    pub working_space: crate::combobox::ComboModel,
    pub output_gamut: crate::combobox::ComboModel,
    pub output_transfer: crate::combobox::ComboModel,
    pub error: Option<Seq<char>>,
}

impl View for ProjectPropertiesContent {
    type V = PropertiesModel;

    open spec fn view(&self) -> PropertiesModel {
        PropertiesModel {
            ocio_config: self.ocio_config@,
            cache_location: self.cache_location@,
            custom_cache_path: self.custom_cache_path@,
            cache_setting: self.cache_setting,
            working_space: self.working_space@,
            output_gamut: self.output_gamut@,
            output_transfer: self.output_transfer@,
            error: match self.error {
                Some(e) => Some(e@),
                None => None,
            },
        }
    }
}

/// The entry of a working space.
pub open spec fn working_index(w: WorkingColorSpace) -> usize {
    match w {
        WorkingColorSpace::AcesCg => 0,
        WorkingColorSpace::SrgbLegacy => 1,
    }
}

/// The entry of a gamut.
pub open spec fn gamut_index(g: OutputGamut) -> usize {
    match g {
        OutputGamut::Srgb => 0,
        OutputGamut::DisplayP3 => 1,
        OutputGamut::Bt2020 => 2,
    }
}

/// The entry of a transfer.
pub open spec fn transfer_index(t: OutputTransfer) -> usize {
    match t {
        OutputTransfer::Srgb => 0,
        OutputTransfer::Gamma22 => 1,
        OutputTransfer::Pq => 2,
        OutputTransfer::Hlg => 3,
    }
}

/// The working space at an entry; the first without one.
pub open spec fn working_at(selected: Option<usize>) -> WorkingColorSpace {
    match selected {
        Some(1) => WorkingColorSpace::SrgbLegacy,
        _ => WorkingColorSpace::AcesCg,
    }
}

/// The gamut at an entry; the first without one.
pub open spec fn gamut_at(selected: Option<usize>) -> OutputGamut {
    match selected {
        Some(1) => OutputGamut::DisplayP3,
        Some(2) => OutputGamut::Bt2020,
        _ => OutputGamut::Srgb,
    }
}

/// The transfer at an entry; the first without one.
pub open spec fn transfer_at(selected: Option<usize>) -> OutputTransfer {
    match selected {
        Some(1) => OutputTransfer::Gamma22,
        Some(2) => OutputTransfer::Pq,
        Some(3) => OutputTransfer::Hlg,
        _ => OutputTransfer::Srgb,
    }
}

/// The dialog at the project's properties.
pub open spec fn seeded(state: &ProjectState, labels: &ProjectLabels) -> PropertiesModel {
    PropertiesModel {
        ocio_config: crate::forms::PathModel { path: state.ocio_config@, enabled: true },
        cache_location: crate::forms::combo_model(
            30,
            crate::forms::texts(labels.cache@),
            Seq::empty(),
            Some(state.cache_setting as usize),
        ),
        custom_cache_path: crate::forms::PathModel {
            path: state.cache_path@,
            enabled: state.cache_setting == 2,
        },
        cache_setting: state.cache_setting,
        working_space: crate::forms::combo_model(
            30,
            crate::forms::texts(labels.working@),
            Seq::empty(),
            Some(working_index(state.color.working)),
        ),
        output_gamut: crate::forms::combo_model(
            30,
            crate::forms::texts(labels.gamut@),
            Seq::empty(),
            Some(gamut_index(state.color.gamut)),
        ),
        output_transfer: crate::forms::combo_model(
            30,
            crate::forms::texts(labels.transfer@),
            Seq::empty(),
            Some(transfer_index(state.color.transfer)),
        ),
        error: None,
    }
}

impl PropertiesModel {
    /// The colour settings selected.
    pub open spec fn color(self) -> ColorSettings {
        ColorSettings {
            working: working_at(self.working_space.selected),
            gamut: gamut_at(self.output_gamut.selected),
            transfer: transfer_at(self.output_transfer.selected),
        }
    }

    /// The cache path to store: the one entered, when the cache is there.
    pub open spec fn cache_path(self) -> Seq<char> {
        if self.cache_setting == 2 {
            self.custom_cache_path.path
        } else {
            Seq::empty()
        }
    }
}

/// What is stored after the colour configuration was taken.
#[derive(Debug)]
pub struct ProjectWrites {
    pub cache_setting: i32,
    pub cache_path: String,
    pub color: ColorSettings,
}

impl ProjectPropertiesContent {
    /// The dialog at the project's properties.
    pub fn new(state: &ProjectState, labels: &ProjectLabels) -> (r: ProjectPropertiesContent)
        ensures
            r@ == seeded(state, labels),
    {
        proof {
            reveal_strlit("");
            assert(""@ =~= Seq::<char>::empty());
        }
        let working: usize = match state.color.working {
            WorkingColorSpace::AcesCg => 0,
            WorkingColorSpace::SrgbLegacy => 1,
        };
        let gamut: usize = match state.color.gamut {
            OutputGamut::Srgb => 0,
            OutputGamut::DisplayP3 => 1,
            OutputGamut::Bt2020 => 2,
        };
        let transfer: usize = match state.color.transfer {
            OutputTransfer::Srgb => 0,
            OutputTransfer::Gamma22 => 1,
            OutputTransfer::Pq => 2,
            OutputTransfer::Hlg => 3,
        };
        let location: usize = #[verifier::truncate]
        (state.cache_setting as usize);
        ProjectPropertiesContent {
            ocio_config: PathField::new(state.ocio_config.as_str()),
            cache_location: combo(
                30,
                crate::forms::copied_texts(&labels.cache),
                "",
                Some(location),
            ),
            custom_cache_path: PathField::new(state.cache_path.as_str()).with_enabled(
                state.cache_setting == 2,
            ),
            cache_setting: state.cache_setting,
            working_space: combo(
                30,
                crate::forms::copied_texts(&labels.working),
                "",
                Some(working),
            ),
            output_gamut: combo(30, crate::forms::copied_texts(&labels.gamut), "", Some(gamut)),
            output_transfer: combo(
                30,
                crate::forms::copied_texts(&labels.transfer),
                "",
                Some(transfer),
            ),
            error: None,
        }
    }

    /// The colour configuration entered.
    pub fn ocio_config_path(&self) -> (r: String)
        ensures
            r@ == self@.ocio_config.path,
    {
        self.ocio_config.path()
    }

    /// Replaces the colour configuration.
    pub fn set_ocio_config_path(&mut self, path: &str)
        ensures
            final(self)@ == (PropertiesModel {
                ocio_config: crate::forms::PathModel { path: path@, ..old(self)@.ocio_config },
                ..old(self)@
            }),
    {
        self.ocio_config.set_path(path);
    }

    /// The cache path entered.
    pub fn custom_cache_path(&self) -> (r: String)
        ensures
            r@ == self@.custom_cache_path.path,
    {
        self.custom_cache_path.path()
    }

    /// Replaces the cache path.
    pub fn set_custom_cache_path(&mut self, path: &str)
        ensures
            final(self)@ == (PropertiesModel {
                custom_cache_path: crate::forms::PathModel {
                    path: path@,
                    ..old(self)@.custom_cache_path
                },
                ..old(self)@
            }),
    {
        self.custom_cache_path.set_path(path);
    }

    /// A cache location was selected: the path field follows.
    pub fn cache_location_selected(&mut self, value: usize)
        ensures
            final(self)@ == (PropertiesModel {
                cache_setting: value as i32,
                custom_cache_path: crate::forms::PathModel {
                    enabled: value as i32 == 2,
                    ..old(self)@.custom_cache_path
                },
                ..old(self)@
            }),
    {
        let setting: i32 = #[verifier::truncate]
        (value as i32);
        self.cache_setting = setting;
        self.custom_cache_path.set_enabled(setting == 2);
    }

    /// Selects a cache location, brought among the three.
    pub fn select_cache_setting(&mut self, setting: i32)
        ensures
            ({
                let s = crate::forms::clamped(setting as int, 0, 2);
                final(self)@ == (PropertiesModel {
                    cache_setting: s as i32,
                    cache_location: crate::combobox::ComboModel {
                        selected: Some(s as usize),
                        ..old(self)@.cache_location
                    },
                    custom_cache_path: crate::forms::PathModel {
                        enabled: s == 2,
                        ..old(self)@.custom_cache_path
                    },
                    ..old(self)@
                })
            }),
    {
        let s: i32 = clamp(setting as i64, 0, 2) as i32;
        self.cache_setting = s;
        self.cache_location.set_selected(Some(s as usize));
        self.custom_cache_path.set_enabled(s == 2);
    }

    /// Takes what came of storing the colour configuration: when it was
    /// taken, the rest to store, and no error any more; when it was refused,
    /// the refusal, and nothing is stored.
    pub fn commit(&mut self, taken: Result<(), String>) -> (r: Result<ProjectWrites, String>)
        ensures
            match taken {
                Ok(_) => {
                    &&& r is Ok
                    &&& r.unwrap().cache_setting == old(self)@.cache_setting
                    &&& r.unwrap().cache_path@ == old(self)@.cache_path()
                    &&& r.unwrap().color == old(self)@.color()
                    &&& final(self)@ == (PropertiesModel { error: None, ..old(self)@ })
                },
                Err(e) => r == Err::<ProjectWrites, String>(e) && final(self)@ == old(self)@,
            },
    {
        match taken {
            Err(e) => Err(e),
            Ok(_) => {
                let cache_path: String = if self.cache_setting == 2 {
                    self.custom_cache_path()
                } else {
                    String::new()
                };
                let color: ColorSettings = self.color_settings();
                self.error = None;
                Ok(ProjectWrites { cache_setting: self.cache_setting, cache_path, color })
            },
        }
    }

    /// The colour settings selected.
    pub fn color_settings(&self) -> (r: ColorSettings)
        ensures
            r == self@.color(),
    {
        ColorSettings {
            working: match self.working_space.selected() {
                Some(1) => WorkingColorSpace::SrgbLegacy,
                _ => WorkingColorSpace::AcesCg,
            },
            gamut: match self.output_gamut.selected() {
                Some(1) => OutputGamut::DisplayP3,
                Some(2) => OutputGamut::Bt2020,
                _ => OutputGamut::Srgb,
            },
            transfer: match self.output_transfer.selected() {
                Some(1) => OutputTransfer::Gamma22,
                Some(2) => OutputTransfer::Pq,
                Some(3) => OutputTransfer::Hlg,
                _ => OutputTransfer::Srgb,
            },
        }
    }

    /// Sets the error shown.
    pub fn set_error(&mut self, msg: Option<String>)
        ensures
            final(self)@ == (PropertiesModel {
                error: match msg {
                    Some(e) => Some(e@),
                    None => None,
                },
                ..old(self)@
            }),
    {
        self.error = msg;
    }

    /// The error shown.
    pub fn error(&self) -> (r: Option<&String>)
        ensures
            r == (match self.error {
                Some(e) => Some(&e),
                None => None,
            }),
    {
        match &self.error {
            Some(e) => Some(e),
            None => None,
        }
    }
}

/// Opening the dialog and accepting it changes neither the colour settings
/// nor a cache path that is in use.
pub proof fn lemma_properties_round_trip(state: ProjectState, labels: ProjectLabels)
    ensures
        seeded(&state, &labels).color() == state.color,
        state.cache_setting == 2 ==> seeded(&state, &labels).cache_path() == state.cache_path@,
{
}

} // verus!
