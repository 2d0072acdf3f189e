//! The preferences dialog: every row shows a stored setting, and a choice is
//! stored at once.

use crate::checkbox::{CheckBox, CheckState};
use crate::combobox::ComboBox;
use crate::forms::{
    check, clamp, combo, copied_texts, number_position, text_position, text_position_ignoring_case,
    ConfigValue, IntField, Label, PathField,
};
use crate::keyboard_tab::{KeyboardEvent, KeyboardTabContent};
use crate::text::{joined, same_text, signed_decimal, trim};
use vstd::prelude::*;

verus! {

/// What the preferences ask of the shell.
#[derive(Clone, Copy, Debug, PartialEq, Eq, Structural)]
pub enum PreferencesEvent {
    /// The theme changed, to a dark one or not.
    ThemeChanged(bool),
    /// The language changed.
    LanguageChanged,
    /// The shortcuts changed.
    ShortcutsChanged,
    /// The display colour mode changed.
    DisplayColorChanged,
}

/// The settings of the general tab.
#[derive(Clone, Copy, Debug, PartialEq, Eq, Structural)]
pub enum Setting {
    RendererBackend,
    DisplayBitDepth,
    Language,
    DarkTheme,
    CheckForUpdates,
    DiskCachePath,
    CacheAheadFrames,
    UseProxyMedia,
    ProxyDivider,
    HardwareDecoding,
    DisplayColorMode,
    DisplayColorCustomIcc,
    SnapshotInterval,
    AudioOutput,
    AudioInput,
    StorageBackend,
    StoragePgUrl,
}

/// A setting with the value to store.
#[derive(Debug)]
pub struct SettingWrite {
    pub setting: Setting,
    pub value: ConfigValue,
}

/// What a [`SettingWrite`] holds.
#[verifier::ext_equal]
pub struct WriteModel {
    pub setting: Setting,
    pub value: crate::forms::ValueModel,
}

impl View for SettingWrite {
    type V = WriteModel;

    open spec fn view(&self) -> WriteModel {
        WriteModel { setting: self.setting, value: self.value@ }
    }
}

/// A text to store for a setting.
pub open spec fn text_write(setting: Setting, text: Seq<char>) -> WriteModel {
    WriteModel { setting, value: crate::forms::ValueModel::Text(text) }
}

/// A flag to store for a setting.
pub open spec fn flag_write(setting: Setting, on: bool) -> WriteModel {
    WriteModel { setting, value: crate::forms::ValueModel::Flag(on) }
}

/// A number to store for a setting.
pub open spec fn number_write(setting: Setting, n: i64) -> WriteModel {
    WriteModel { setting, value: crate::forms::ValueModel::Number(n) }
}

/// The label of a renderer backend.
pub open spec fn backend_text(name: Seq<char>) -> Seq<char> {
    if name == "opengl"@ {
        "OpenGL"@
    } else if name == "metal"@ {
        "Metal"@
    } else if name == "vulkan"@ {
        "Vulkan"@
    } else if name == "none"@ {
        "None (off)"@
    } else {
        name
    }
}

/// The label of a renderer backend.
pub fn backend_label(name: &str) -> (r: String)
    ensures
        r@ == backend_text(name@),
{
    if same_text(name, "opengl") {
        "OpenGL".to_owned()
    } else if same_text(name, "metal") {
        "Metal".to_owned()
    } else if same_text(name, "vulkan") {
        "Vulkan".to_owned()
    } else if same_text(name, "none") {
        "None (off)".to_owned()
    } else {
        name.to_owned()
    }
}

/// The label of a proxy divider.
pub fn proxy_divider_label(divider: i64) -> (r: Label)
    ensures
        r@ == if divider <= 1 {
            crate::forms::LabelModel::Key("preferences.proxy.full"@)
        } else {
            crate::forms::LabelModel::Text("1/"@ + crate::text::signed_text(divider as int))
        },
{
    if divider <= 1 {
        Label::Key("preferences.proxy.full")
    } else {
        Label::Text(joined("1/", signed_decimal(divider).as_str()))
    }
}

/// A language: its code, and what it calls itself.
#[derive(Debug)]
pub struct Language {
    pub code: String,
    pub name: String,
}

/// The label of a language.
pub open spec fn language_text(l: Language) -> Seq<char> {
    l.name@ + " ("@ + l.code@ + ")"@
}

/// The codes of languages, in order.
pub open spec fn language_codes(list: Seq<Language>) -> Seq<Seq<char>> {
    Seq::new(list.len(), |i: int| list[i].code@)
}

/// The labels of languages, in order.
pub open spec fn language_texts(list: Seq<Language>) -> Seq<Seq<char>> {
    Seq::new(list.len(), |i: int| language_text(list[i]))
}

/// What there is to choose from.
#[derive(Debug)]
pub struct PreferenceLists {
    pub backends: Vec<String>,
    pub languages: Vec<Language>,
    pub dividers: Vec<i64>,
    pub output_devices: Vec<String>,
    pub input_devices: Vec<String>,
}

/// The stored settings.
#[derive(Debug)]
pub struct StoredPreferences {
    pub backend: String,
    pub bit_depth: String,
    pub language: String,
    pub dark: bool,
    pub check_updates: bool,
    pub cache_dir: String,
    pub cache_ahead: i64,
    pub use_proxy: bool,
    pub divider: i64,
    pub hw_decode: bool,
    pub color_mode: String,
    pub custom_icc: String,
    pub snapshot_interval: i64,
    pub output_device: String,
    pub input_device: String,
    pub storage_backend: String,
    pub pg_url: String,
}

/// The texts of the dialog.
#[derive(Debug)]
pub struct PreferenceLabels {
    pub backend: String,
    pub ten_bit: String,
    pub eight_bit: String,
    pub language: String,
    pub dark: String,
    pub light: String,
    pub check_updates: String,
    pub use_proxy: String,
    /// A label for each divider.
    pub dividers: Vec<String>,
    pub hw_decode: String,
    pub display_icc: String,
    pub default_device: String,
    pub output: String,
    pub input: String,
}

/// The general tab. The length of the default transition is the host's own
/// field.
#[derive(Debug)]
pub struct PreferencesContent {
    pub backend: ComboBox,
    pub display_bit_depth: ComboBox,
    pub language: ComboBox,
    pub theme: ComboBox,
    pub check_updates: CheckBox,
    pub cache_dir: PathField,
    pub cache_ahead: IntField,
    pub use_proxy: CheckBox,
    pub hw_decode: CheckBox,
    pub proxy_divider: ComboBox,
    pub display_icc: CheckBox,
    pub display_icc_path: PathField,
    pub snapshot_interval: IntField,
    pub audio_output: ComboBox,
    pub audio_input: ComboBox,
    pub storage_backend: ComboBox,
    pub storage_pg_url: PathField,
    pub storage_is_pg: bool,
    pub lists: PreferenceLists,
}

/// What a [`PreferencesContent`] holds.
#[verifier::ext_equal]
pub struct PreferencesModel {
    pub backend: crate::combobox::ComboModel,
    pub display_bit_depth: crate::combobox::ComboModel,
    pub language: crate::combobox::ComboModel,
    pub theme: crate::combobox::ComboModel,
    pub check_updates: crate::checkbox::CheckModel,
    pub cache_dir: crate::forms::PathModel,
    pub cache_ahead: IntField,
    pub use_proxy: crate::checkbox::CheckModel,
    pub hw_decode: crate::checkbox::CheckModel,
    pub proxy_divider: crate::combobox::ComboModel,
    pub display_icc: crate::checkbox::CheckModel,
    pub display_icc_path: crate::forms::PathModel,
    pub snapshot_interval: IntField,
    pub audio_output: crate::combobox::ComboModel,
    pub audio_input: crate::combobox::ComboModel,
    pub storage_backend: crate::combobox::ComboModel,
    pub storage_pg_url: crate::forms::PathModel,
    pub storage_is_pg: bool,
    pub backends: Seq<Seq<char>>,
    pub languages: Seq<Seq<char>>,
    pub dividers: Seq<i64>,
    pub output_devices: Seq<Seq<char>>,
    pub input_devices: Seq<Seq<char>>,
}

impl View for PreferencesContent {
    type V = PreferencesModel;

    open spec fn view(&self) -> PreferencesModel {
        PreferencesModel {
            backend: self.backend@,
            display_bit_depth: self.display_bit_depth@,
            language: self.language@,
            theme: self.theme@,
            check_updates: self.check_updates@,
            cache_dir: self.cache_dir@,
            cache_ahead: self.cache_ahead,
            use_proxy: self.use_proxy@,
            hw_decode: self.hw_decode@,
            proxy_divider: self.proxy_divider@,
            display_icc: self.display_icc@,
            display_icc_path: self.display_icc_path@,
            snapshot_interval: self.snapshot_interval,
            audio_output: self.audio_output@,
            audio_input: self.audio_input@,
            storage_backend: self.storage_backend@,
            storage_pg_url: self.storage_pg_url@,
            storage_is_pg: self.storage_is_pg,
            backends: crate::forms::texts(self.lists.backends@),
            languages: language_codes(self.lists.languages@),
            dividers: self.lists.dividers@,
            output_devices: crate::forms::texts(self.lists.output_devices@),
            input_devices: crate::forms::texts(self.lists.input_devices@),
        }
    }
}

/// The index of the stored backend, whatever the case of its letters.
pub open spec fn backend_index(backends: Seq<Seq<char>>, stored: Seq<char>) -> usize {
    crate::forms::index_or_first(
        crate::forms::first_where(backends, crate::forms::like(stored)),
    )
}

/// The index of the stored text, or the first.
pub open spec fn text_index(list: Seq<Seq<char>>, stored: Seq<char>) -> usize {
    crate::forms::index_or_first(
        crate::forms::first_where(list, crate::forms::equal_to(stored)),
    )
}

/// The index of the stored divider, or the first.
pub open spec fn divider_index(dividers: Seq<i64>, stored: i64) -> usize {
    crate::forms::index_or_first(crate::forms::first_where(dividers, crate::forms::number_is(stored)))
}

/// The entries of a device list: the system's own choice, then the devices.
pub open spec fn device_labels(default_label: Seq<char>, devices: Seq<Seq<char>>) -> Seq<Seq<char>> {
    seq![default_label] + devices
}

/// The entry of the stored device; the system's own choice for one that is
/// not there.
pub open spec fn device_index(devices: Seq<Seq<char>>, stored: Seq<char>) -> usize {
    match crate::forms::first_where(devices, crate::forms::equal_to(stored)) {
        Some(i) => (i + 1) as usize,
        None => 0,
    }
}

/// The device at an entry; no name for the system's own choice.
pub open spec fn device_at(devices: Seq<Seq<char>>, entry: usize) -> Seq<char> {
    if 1 <= entry <= devices.len() {
        devices[entry - 1]
    } else {
        Seq::empty()
    }
}

/// The labels of backends, in order.
pub open spec fn backend_texts(backends: Seq<Seq<char>>) -> Seq<Seq<char>> {
    Seq::new(backends.len(), |i: int| backend_text(backends[i]))
}

/// The tab at the stored settings.
pub open spec fn seeded(
    stored: &StoredPreferences,
    lists: &PreferenceLists,
    labels: &PreferenceLabels,
) -> PreferencesModel {
    let backends = crate::forms::texts(lists.backends@);
    let outputs = crate::forms::texts(lists.output_devices@);
    let inputs = crate::forms::texts(lists.input_devices@);
    let pg = stored.storage_backend@ == "pg"@;
    PreferencesModel {
        backend: crate::forms::combo_model(
            1,
            backend_texts(backends),
            labels.backend@,
            Some(backend_index(backends, stored.backend@)),
        ),
        display_bit_depth: crate::forms::combo_model(
            12,
            seq![labels.ten_bit@, labels.eight_bit@],
            Seq::empty(),
            Some(
                if stored.bit_depth@ == "8"@ {
                    1usize
                } else {
                    0usize
                },
            ),
        ),
        language: crate::forms::combo_model(
            2,
            language_texts(lists.languages@),
            labels.language@,
            Some(text_index(language_codes(lists.languages@), stored.language@)),
        ),
        theme: crate::forms::combo_model(
            3,
            seq![labels.dark@, labels.light@],
            Seq::empty(),
            Some(
                if stored.dark {
                    0usize
                } else {
                    1usize
                },
            ),
        ),
        check_updates: crate::forms::check_model(45, stored.check_updates, labels.check_updates@),
        cache_dir: crate::forms::PathModel { path: stored.cache_dir@, enabled: true },
        cache_ahead: IntField {
            control: 10,
            min: 8,
            max: 1200,
            step: 8,
            value: crate::forms::clamped(stored.cache_ahead as int, 8, 1200) as i64,
        },
        use_proxy: crate::forms::check_model(7, stored.use_proxy, labels.use_proxy@),
        hw_decode: crate::forms::check_model(9, stored.hw_decode, labels.hw_decode@),
        proxy_divider: crate::forms::combo_model(
            4,
            crate::forms::texts(labels.dividers@),
            Seq::empty(),
            Some(divider_index(lists.dividers@, stored.divider)),
        ),
        display_icc: crate::forms::check_model(
            13,
            stored.color_mode@ != "off"@,
            labels.display_icc@,
        ),
        display_icc_path: crate::forms::PathModel { path: stored.custom_icc@, enabled: true },
        snapshot_interval: IntField {
            control: 8,
            min: 0,
            max: 86400,
            step: 10,
            value: stored.snapshot_interval,
        },
        audio_output: crate::forms::combo_model(
            5,
            device_labels(labels.default_device@, outputs),
            labels.output@,
            Some(device_index(outputs, stored.output_device@)),
        ),
        audio_input: crate::forms::combo_model(
            6,
            device_labels(labels.default_device@, inputs),
            labels.input@,
            Some(device_index(inputs, stored.input_device@)),
        ),
        storage_backend: crate::forms::combo_model(
            11,
            seq!["SQLite"@, "PostgreSQL"@],
            Seq::empty(),
            Some(
                if pg {
                    1usize
                } else {
                    0usize
                },
            ),
        ),
        storage_pg_url: crate::forms::PathModel { path: stored.pg_url@, enabled: true },
        storage_is_pg: pg,
        backends,
        languages: language_codes(lists.languages@),
        dividers: lists.dividers@,
        output_devices: outputs,
        input_devices: inputs,
    }
}

fn backend_labels(backends: &Vec<String>) -> (r: Vec<String>)
    ensures
        crate::forms::texts(r@) == backend_texts(crate::forms::texts(backends@)),
{
    let mut r: Vec<String> = Vec::new();
    let mut i: usize = 0;
    while i < backends.len()
        invariant
            i <= backends.len(),
            r.len() == i,
            forall|j: int| 0 <= j < i ==> (#[trigger] r@[j])@ == backend_text(backends@[j]@),
        decreases backends.len() - i,
    {
        r.push(backend_label(backends[i].as_str()));
        i = i + 1;
    }
    assert(crate::forms::texts(r@) =~= backend_texts(crate::forms::texts(backends@)));
    r
}

fn language_labels(list: &Vec<Language>) -> (r: Vec<String>)
    ensures
        crate::forms::texts(r@) == language_texts(list@),
{
    let mut r: Vec<String> = Vec::new();
    let mut i: usize = 0;
    while i < list.len()
        invariant
            i <= list.len(),
            r.len() == i,
            forall|j: int| 0 <= j < i ==> (#[trigger] r@[j])@ == language_text(list@[j]),
        decreases list.len() - i,
    {
        let head: String = joined(list[i].name.as_str(), " (");
        r.push(joined(joined(head.as_str(), list[i].code.as_str()).as_str(), ")"));
        i = i + 1;
    }
    assert(crate::forms::texts(r@) =~= language_texts(list@));
    r
}

fn codes_of(list: &Vec<Language>) -> (r: Vec<String>)
    ensures
        crate::forms::texts(r@) == language_codes(list@),
{
    let mut r: Vec<String> = Vec::new();
    let mut i: usize = 0;
    while i < list.len()
        invariant
            i <= list.len(),
            r.len() == i,
            forall|j: int| 0 <= j < i ==> (#[trigger] r@[j])@ == list@[j].code@,
        decreases list.len() - i,
    {
        r.push(list[i].code.clone());
        i = i + 1;
    }
    assert(crate::forms::texts(r@) =~= language_codes(list@));
    r
}

fn pair(a: &str, b: &str) -> (r: Vec<String>)
    ensures
        crate::forms::texts(r@) == seq![a@, b@],
{
    let mut r: Vec<String> = Vec::new();
    r.push(a.to_owned());
    r.push(b.to_owned());
    assert(crate::forms::texts(r@) =~= seq![a@, b@]);
    r
}

/// A device list with the stored device selected: entry 0 is the system's
/// own choice, the devices follow.
pub fn device_combo(
    control: usize,
    devices: &Vec<String>,
    stored: &str,
    default_label: &str,
    placeholder: &str,
) -> (r: ComboBox)
    ensures
        r@ == crate::forms::combo_model(
            control,
            device_labels(default_label@, crate::forms::texts(devices@)),
            placeholder@,
            Some(device_index(crate::forms::texts(devices@), stored@)),
        ),
{
    let mut entries: Vec<String> = Vec::new();
    entries.push(default_label.to_owned());
    let mut i: usize = 0;
    while i < devices.len()
        invariant
            i <= devices.len(),
            entries.len() == i + 1,
            entries@[0]@ == default_label@,
            forall|j: int| 1 <= j <= i ==> (#[trigger] entries@[j])@ == devices@[j - 1]@,
        decreases devices.len() - i,
    {
        entries.push(devices[i].clone());
        i = i + 1;
    }
    assert(crate::forms::texts(entries@) =~= device_labels(
        default_label@,
        crate::forms::texts(devices@),
    ));
    let selected: usize = match text_position(devices, stored) {
        Some(i) => i + 1,
        None => 0,
    };
    combo(control, entries, placeholder, Some(selected))
}

fn device_name(devices: &Vec<String>, entry: usize) -> (r: String)
    ensures
        r@ == device_at(crate::forms::texts(devices@), entry),
{
    if entry >= 1 && entry - 1 < devices.len() {
        assert(crate::forms::texts(devices@)[entry - 1] == devices@[entry - 1]@);
        devices[entry - 1].clone()
    } else {
        String::new()
    }
}

fn or_first(i: Option<usize>) -> (r: usize)
    ensures
        r == (match i {
            Some(n) => n,
            None => 0,
        }),
{
    match i {
        Some(n) => n,
        None => 0,
    }
}

impl PreferencesContent {
    /// The tab at the stored settings.
    pub fn new(stored: &StoredPreferences, lists: PreferenceLists, labels: &PreferenceLabels) -> (r:
        PreferencesContent)
        ensures
            r@ == seeded(stored, &lists, labels),
    {
        proof {
            reveal_strlit("");
            assert(""@ =~= Seq::<char>::empty());
        }
        let backend_selected: usize = or_first(
            text_position_ignoring_case(&lists.backends, stored.backend.as_str()),
        );
        let language_selected: usize = or_first(
            text_position(&codes_of(&lists.languages), stored.language.as_str()),
        );
        let divider_selected: usize = or_first(number_position(&lists.dividers, stored.divider));
        let eight: bool = same_text(stored.bit_depth.as_str(), "8");
        let storage_is_pg: bool = same_text(stored.storage_backend.as_str(), "pg");
        let managed: bool = !same_text(stored.color_mode.as_str(), "off");
        PreferencesContent {
            backend: combo(
                1,
                backend_labels(&lists.backends),
                labels.backend.as_str(),
                Some(backend_selected),
            ),
            display_bit_depth: combo(
                12,
                pair(labels.ten_bit.as_str(), labels.eight_bit.as_str()),
                "",
                Some(
                    if eight {
                        1
                    } else {
                        0
                    },
                ),
            ),
            language: combo(
                2,
                language_labels(&lists.languages),
                labels.language.as_str(),
                Some(language_selected),
            ),
            theme: combo(
                3,
                pair(labels.dark.as_str(), labels.light.as_str()),
                "",
                Some(
                    if stored.dark {
                        0
                    } else {
                        1
                    },
                ),
            ),
            check_updates: check(45, stored.check_updates, labels.check_updates.as_str()),
            cache_dir: PathField::new(stored.cache_dir.as_str()),
            cache_ahead: IntField {
                control: 10,
                min: 8,
                max: 1200,
                step: 8,
                value: clamp(stored.cache_ahead, 8, 1200),
            },
            use_proxy: check(7, stored.use_proxy, labels.use_proxy.as_str()),
            hw_decode: check(9, stored.hw_decode, labels.hw_decode.as_str()),
            proxy_divider: combo(4, copied_texts(&labels.dividers), "", Some(divider_selected)),
            display_icc: check(13, managed, labels.display_icc.as_str()),
            display_icc_path: PathField::new(stored.custom_icc.as_str()),
            snapshot_interval: IntField {
                control: 8,
                min: 0,
                max: 86400,
                step: 10,
                value: stored.snapshot_interval,
            },
            audio_output: device_combo(
                5,
                &lists.output_devices,
                stored.output_device.as_str(),
                labels.default_device.as_str(),
                labels.output.as_str(),
            ),
            audio_input: device_combo(
                6,
                &lists.input_devices,
                stored.input_device.as_str(),
                labels.default_device.as_str(),
                labels.input.as_str(),
            ),
            storage_backend: combo(
                11,
                pair("SQLite", "PostgreSQL"),
                "",
                Some(
                    if storage_is_pg {
                        1
                    } else {
                        0
                    },
                ),
            ),
            storage_pg_url: PathField::new(stored.pg_url.as_str()),
            storage_is_pg,
            lists,
        }
    }

    /// A backend was selected.
    pub fn backend_selected(&self, value: usize) -> (r: Option<SettingWrite>)
        ensures
            match r {
                Some(w) => value < self@.backends.len() && w@ == text_write(
                    Setting::RendererBackend,
                    self@.backends[value as int],
                ),
                None => value >= self@.backends.len(),
            },
    {
        if value < self.lists.backends.len() {
            assert(self@.backends[value as int] == self.lists.backends@[value as int]@);
            Some(
                SettingWrite {
                    setting: Setting::RendererBackend,
                    value: ConfigValue::Text(self.lists.backends[value].clone()),
                },
            )
        } else {
            None
        }
    }

    /// A bit depth was selected.
    pub fn bit_depth_selected(&self, value: usize) -> (r: SettingWrite)
        ensures
            r@ == text_write(
                Setting::DisplayBitDepth,
                if value == 1 {
                    "8"@
                } else {
                    "10"@
                },
            ),
    {
        SettingWrite {
            setting: Setting::DisplayBitDepth,
            value: ConfigValue::Text(
                if value == 1 {
                    "8".to_owned()
                } else {
                    "10".to_owned()
                },
            ),
        }
    }

    /// A language was selected.
    pub fn language_selected(&self, value: usize) -> (r: Option<(SettingWrite, PreferencesEvent)>)
        ensures
            match r {
                Some((w, e)) => {
                    &&& value < self@.languages.len()
                    &&& w@ == text_write(Setting::Language, self@.languages[value as int])
                    &&& e == PreferencesEvent::LanguageChanged
                },
                None => value >= self@.languages.len(),
            },
    {
        if value < self.lists.languages.len() {
            assert(self@.languages[value as int] == self.lists.languages@[value as int].code@);
            Some(
                (
                    SettingWrite {
                        setting: Setting::Language,
                        value: ConfigValue::Text(self.lists.languages[value].code.clone()),
                    },
                    PreferencesEvent::LanguageChanged,
                ),
            )
        } else {
            None
        }
    }

    /// A theme was selected; the first one is dark.
    pub fn theme_selected(&self, value: usize) -> (r: (SettingWrite, PreferencesEvent))
        ensures
            r.0@ == flag_write(Setting::DarkTheme, value == 0),
            r.1 == PreferencesEvent::ThemeChanged(value == 0),
    {
        let dark: bool = value == 0;
        (
            SettingWrite { setting: Setting::DarkTheme, value: ConfigValue::Flag(dark) },
            PreferencesEvent::ThemeChanged(dark),
        )
    }

    /// The update box asks for a state: accepted and stored.
    pub fn check_updates_toggled(&mut self, state: CheckState) -> (r: SettingWrite)
        ensures
            r@ == flag_write(Setting::CheckForUpdates, state == CheckState::Checked),
            final(self)@ == (PreferencesModel {
                check_updates: crate::checkbox::CheckModel { state, ..old(self)@.check_updates },
                ..old(self)@
            }),
    {
        self.check_updates.set_state(state);
        SettingWrite {
            setting: Setting::CheckForUpdates,
            value: ConfigValue::Flag(state == CheckState::Checked),
        }
    }

    /// The proxy box asks for a state: accepted and stored.
    pub fn use_proxy_toggled(&mut self, state: CheckState) -> (r: SettingWrite)
        ensures
            r@ == flag_write(Setting::UseProxyMedia, state == CheckState::Checked),
            final(self)@ == (PreferencesModel {
                use_proxy: crate::checkbox::CheckModel { state, ..old(self)@.use_proxy },
                ..old(self)@
            }),
    {
        self.use_proxy.set_state(state);
        SettingWrite {
            setting: Setting::UseProxyMedia,
            value: ConfigValue::Flag(state == CheckState::Checked),
        }
    }

    /// The hardware decoding box asks for a state: accepted and stored.
    pub fn hw_decode_toggled(&mut self, state: CheckState) -> (r: SettingWrite)
        ensures
            r@ == flag_write(Setting::HardwareDecoding, state == CheckState::Checked),
            final(self)@ == (PreferencesModel {
                hw_decode: crate::checkbox::CheckModel { state, ..old(self)@.hw_decode },
                ..old(self)@
            }),
    {
        self.hw_decode.set_state(state);
        SettingWrite {
            setting: Setting::HardwareDecoding,
            value: ConfigValue::Flag(state == CheckState::Checked),
        }
    }

    /// The display colour box asks for a state: accepted, stored as a mode,
    /// and reported. The display chain has to be dropped.
    pub fn display_icc_toggled(&mut self, state: CheckState) -> (r: (
        SettingWrite,
        PreferencesEvent,
    ))
        ensures
            r.0@ == text_write(
                Setting::DisplayColorMode,
                if state == CheckState::Checked {
                    "icc"@
                } else {
                    "off"@
                },
            ),
            r.1 == PreferencesEvent::DisplayColorChanged,
            final(self)@ == (PreferencesModel {
                display_icc: crate::checkbox::CheckModel { state, ..old(self)@.display_icc },
                ..old(self)@
            }),
    {
        self.display_icc.set_state(state);
        (
            SettingWrite {
                setting: Setting::DisplayColorMode,
                value: ConfigValue::Text(
                    if state == CheckState::Checked {
                        "icc".to_owned()
                    } else {
                        "off".to_owned()
                    },
                ),
            },
            PreferencesEvent::DisplayColorChanged,
        )
    }

    /// A proxy divider was selected.
    pub fn divider_selected(&self, value: usize) -> (r: Option<SettingWrite>)
        ensures
            match r {
                Some(w) => value < self@.dividers.len() && w@ == number_write(
                    Setting::ProxyDivider,
                    self@.dividers[value as int],
                ),
                None => value >= self@.dividers.len(),
            },
    {
        if value < self.lists.dividers.len() {
            Some(
                SettingWrite {
                    setting: Setting::ProxyDivider,
                    value: ConfigValue::Number(self.lists.dividers[value]),
                },
            )
        } else {
            None
        }
    }

    /// The field of the frames to fill ahead reports `value`.
    pub fn cache_ahead_changed(&self, value: i64) -> (r: SettingWrite)
        ensures
            r@ == number_write(Setting::CacheAheadFrames, value),
    {
        SettingWrite { setting: Setting::CacheAheadFrames, value: ConfigValue::Number(value) }
    }

    /// The field of the snapshot interval reports `value`.
    pub fn snapshot_interval_changed(&self, value: i64) -> (r: SettingWrite)
        ensures
            r@ == number_write(Setting::SnapshotInterval, value),
    {
        SettingWrite { setting: Setting::SnapshotInterval, value: ConfigValue::Number(value) }
    }

    /// An output device was selected; no name is the system's own choice.
    pub fn audio_output_selected(&self, value: usize) -> (r: SettingWrite)
        ensures
            r@ == text_write(Setting::AudioOutput, device_at(self@.output_devices, value)),
    {
        SettingWrite {
            setting: Setting::AudioOutput,
            value: ConfigValue::Text(device_name(&self.lists.output_devices, value)),
        }
    }

    /// An input device was selected; no name is the system's own choice.
    pub fn audio_input_selected(&self, value: usize) -> (r: SettingWrite)
        ensures
            r@ == text_write(Setting::AudioInput, device_at(self@.input_devices, value)),
    {
        SettingWrite {
            setting: Setting::AudioInput,
            value: ConfigValue::Text(device_name(&self.lists.input_devices, value)),
        }
    }

    /// A library backend was selected; the connection row shows with the
    /// second one.
    pub fn storage_backend_selected(&mut self, value: usize) -> (r: SettingWrite)
        ensures
            r@ == text_write(
                Setting::StorageBackend,
                if value == 1 {
                    "pg"@
                } else {
                    "sqlite"@
                },
            ),
            final(self)@ == (PreferencesModel { storage_is_pg: value == 1, ..old(self)@ }),
    {
        self.storage_is_pg = value == 1;
        SettingWrite {
            setting: Setting::StorageBackend,
            value: ConfigValue::Text(
                if value == 1 {
                    "pg".to_owned()
                } else {
                    "sqlite".to_owned()
                },
            ),
        }
    }

    /// The custom profile path to store: without the white space around it.
    pub fn commit_display_icc_path(&self) -> (r: SettingWrite)
        ensures
            r@ == text_write(
                Setting::DisplayColorCustomIcc,
                crate::text::trimmed(self@.display_icc_path.path),
            ),
    {
        SettingWrite {
            setting: Setting::DisplayColorCustomIcc,
            value: ConfigValue::Text(trim(self.display_icc_path.path.as_str())),
        }
    }

    /// The connection string to store: without the white space around it.
    pub fn commit_storage_pg_url(&self) -> (r: SettingWrite)
        ensures
            r@ == text_write(
                Setting::StoragePgUrl,
                crate::text::trimmed(self@.storage_pg_url.path),
            ),
    {
        SettingWrite {
            setting: Setting::StoragePgUrl,
            value: ConfigValue::Text(trim(self.storage_pg_url.path.as_str())),
        }
    }

    /// The cache directory entered.
    pub fn cache_dir(&self) -> (r: String)
        ensures
            r@ == self@.cache_dir.path,
    {
        self.cache_dir.path()
    }

    /// The cache directory to store: without the white space around it.
    pub fn commit_cache_dir(&self) -> (r: SettingWrite)
        ensures
            r@ == text_write(
                Setting::DiskCachePath,
                crate::text::trimmed(self@.cache_dir.path),
            ),
    {
        SettingWrite {
            setting: Setting::DiskCachePath,
            value: ConfigValue::Text(trim(self.cache_dir.path.as_str())),
        }
    }
}

/// The tabs of the dialog.
#[derive(Clone, Copy, Debug, PartialEq, Eq, Structural)]
pub enum PreferencesTab {
    General,
    Keyboard,
}

/// What the dialog passes on of an event of the general tab. Shortcuts are
/// the other tab's.
pub fn forwarded_general(event: PreferencesEvent) -> (r: Option<PreferencesEvent>)
    ensures
        r == if event == PreferencesEvent::ShortcutsChanged {
            None
        } else {
            Some(event)
        },
{
    match event {
        PreferencesEvent::ThemeChanged(dark) => Some(PreferencesEvent::ThemeChanged(dark)),
        PreferencesEvent::LanguageChanged => Some(PreferencesEvent::LanguageChanged),
        PreferencesEvent::ShortcutsChanged => None,
        PreferencesEvent::DisplayColorChanged => Some(PreferencesEvent::DisplayColorChanged),
    }
}

/// What the dialog passes on of an event of the keyboard tab.
pub fn forwarded_keyboard(event: KeyboardEvent) -> (r: PreferencesEvent)
    ensures
        r == PreferencesEvent::ShortcutsChanged,
{
    match event {
        KeyboardEvent::Changed => PreferencesEvent::ShortcutsChanged,
    }
}

/// The name under which the label of a tab is looked up.
pub fn tab_label(tab: PreferencesTab) -> (r: &'static str)
    ensures
        r@ == (match tab {
            PreferencesTab::General => "preferences.tab.general"@,
            PreferencesTab::Keyboard => "preferences.tab.keyboard"@,
        }),
{
    match tab {
        PreferencesTab::General => "preferences.tab.general",
        PreferencesTab::Keyboard => "preferences.tab.keyboard",
    }
}

/// The dialog: the general tab and the shortcuts.
#[derive(Debug)]
pub struct PreferencesDialogContent {
    pub active: PreferencesTab,
    pub general: PreferencesContent,
    pub keyboard: KeyboardTabContent,
}

impl PreferencesDialogContent {
    /// The dialog at its general tab.
    pub fn new(general: PreferencesContent, keyboard: KeyboardTabContent) -> (r:
        PreferencesDialogContent)
        ensures
            r.active == PreferencesTab::General,
            r.general == general,
            r.keyboard == keyboard,
    {
        PreferencesDialogContent { active: PreferencesTab::General, general, keyboard }
    }

    /// Shows a tab.
    pub fn select_tab(&mut self, tab: PreferencesTab)
        ensures
            *final(self) == (PreferencesDialogContent { active: tab, ..*old(self) }),
    {
        self.active = tab;
    }

    /// What to store when the dialog closes: the three texts of the general
    /// tab, without the white space around them.
    pub fn commit_cache_dir(&self) -> (r: (SettingWrite, SettingWrite, SettingWrite))
        ensures
            r.0@ == text_write(
                Setting::DiskCachePath,
                crate::text::trimmed(self.general@.cache_dir.path),
            ),
            r.1@ == text_write(
                Setting::DisplayColorCustomIcc,
                crate::text::trimmed(self.general@.display_icc_path.path),
            ),
            r.2@ == text_write(
                Setting::StoragePgUrl,
                crate::text::trimmed(self.general@.storage_pg_url.path),
            ),
    {
        (
            self.general.commit_cache_dir(),
            self.general.commit_display_icc_path(),
            self.general.commit_storage_pg_url(),
        )
    }

    /// The number of actions in the keyboard tab.
    pub fn keyboard_tab_row_count(&self) -> (r: usize)
        ensures
            r == self.keyboard@.rows.len(),
    {
        self.keyboard.row_count()
    }
}

/// A device that is there is selected again after it was stored.
pub proof fn lemma_device_round_trip(devices: Seq<Seq<char>>, entry: usize)
    requires
        1 <= entry <= devices.len(),
        devices.no_duplicates(),
    ensures
        device_index(devices, device_at(devices, entry)) == entry,
{
    let name = devices[entry - 1];
    let p = crate::forms::equal_to(name);
    crate::forms::lemma_first_where(devices, p);
    assert(p(devices[entry - 1]));
}

/// A backend that was stored is selected again, when no other is called the
/// same but for the case of its letters.
pub proof fn lemma_backend_round_trip(backends: Seq<Seq<char>>, entry: usize)
    requires
        entry < backends.len(),
        forall|i: int, j: int|
            0 <= i < j < backends.len() ==> !crate::text::same_but_for_case(
                #[trigger] backends[i],
                #[trigger] backends[j],
            ),
    ensures
        backend_index(backends, backends[entry as int]) == entry,
{
    let name = backends[entry as int];
    let p = crate::forms::like(name);
    crate::forms::lemma_first_where(backends, p);
    assert(p(backends[entry as int]));
    let i = crate::forms::first_where(backends, p).unwrap();
    assert(p(backends[i]));
}

/// Whether the stored settings hold what was written.
pub open spec fn holds(stored: &StoredPreferences, write: WriteModel) -> bool {
    match write.setting {
        Setting::RendererBackend => write == text_write(write.setting, stored.backend@),
        Setting::DisplayBitDepth => write == text_write(write.setting, stored.bit_depth@),
        Setting::Language => write == text_write(write.setting, stored.language@),
        Setting::DarkTheme => write == flag_write(write.setting, stored.dark),
        Setting::CheckForUpdates => write == flag_write(write.setting, stored.check_updates),
        Setting::DiskCachePath => write == text_write(write.setting, stored.cache_dir@),
        Setting::CacheAheadFrames => write == number_write(write.setting, stored.cache_ahead),
        Setting::UseProxyMedia => write == flag_write(write.setting, stored.use_proxy),
        Setting::ProxyDivider => write == number_write(write.setting, stored.divider),
        Setting::HardwareDecoding => write == flag_write(write.setting, stored.hw_decode),
        Setting::DisplayColorMode => write == text_write(write.setting, stored.color_mode@),
        Setting::DisplayColorCustomIcc => write == text_write(write.setting, stored.custom_icc@),
        Setting::SnapshotInterval => write == number_write(
            write.setting,
            stored.snapshot_interval,
        ),
        Setting::AudioOutput => write == text_write(write.setting, stored.output_device@),
        Setting::AudioInput => write == text_write(write.setting, stored.input_device@),
        Setting::StorageBackend => write == text_write(write.setting, stored.storage_backend@),
        Setting::StoragePgUrl => write == text_write(write.setting, stored.pg_url@),
    }
}

/// A choice between two entries survives: the dialog opened on what was
/// stored for an entry shows that entry.
pub proof fn lemma_two_way_choices_survive(
    stored: StoredPreferences,
    lists: PreferenceLists,
    labels: PreferenceLabels,
    entry: usize,
)
    requires
        entry < 2,
    ensures
        ({
            let shown = seeded(&stored, &lists, &labels);
            &&& holds(
                &stored,
                text_write(
                    Setting::DisplayBitDepth,
                    if entry == 1 {
                        "8"@
                    } else {
                        "10"@
                    },
                ),
            ) ==> shown.display_bit_depth.selected == Some(entry)
            &&& holds(&stored, flag_write(Setting::DarkTheme, entry == 0))
                ==> shown.theme.selected == Some(entry)
            &&& holds(
                &stored,
                text_write(
                    Setting::StorageBackend,
                    if entry == 1 {
                        "pg"@
                    } else {
                        "sqlite"@
                    },
                ),
            ) ==> shown.storage_backend.selected == Some(entry) && shown.storage_is_pg == (entry
                == 1)
        }),
{
    reveal_strlit("8");
    reveal_strlit("10");
    reveal_strlit("pg");
    reveal_strlit("sqlite");
    assert("8"@.len() != "10"@.len());
    assert("pg"@.len() != "sqlite"@.len());
}

/// A choice from a list survives: the dialog opened on what was stored for an
/// entry shows that entry, when no two entries are stored alike.
pub proof fn lemma_list_choices_survive(
    stored: StoredPreferences,
    lists: PreferenceLists,
    labels: PreferenceLabels,
    entry: usize,
)
    ensures
        ({
            let shown = seeded(&stored, &lists, &labels);
            let backends = crate::forms::texts(lists.backends@);
            let languages = language_codes(lists.languages@);
            let dividers = lists.dividers@;
            let outputs = crate::forms::texts(lists.output_devices@);
            let inputs = crate::forms::texts(lists.input_devices@);
            &&& entry < languages.len() && languages.no_duplicates() && holds(
                &stored,
                text_write(Setting::Language, languages[entry as int]),
            ) ==> shown.language.selected == Some(entry)
            &&& entry < dividers.len() && dividers.no_duplicates() && holds(
                &stored,
                number_write(Setting::ProxyDivider, dividers[entry as int]),
            ) ==> shown.proxy_divider.selected == Some(entry)
            &&& 1 <= entry <= outputs.len() && outputs.no_duplicates() && holds(
                &stored,
                text_write(Setting::AudioOutput, device_at(outputs, entry)),
            ) ==> shown.audio_output.selected == Some(entry)
            &&& 1 <= entry <= inputs.len() && inputs.no_duplicates() && holds(
                &stored,
                text_write(Setting::AudioInput, device_at(inputs, entry)),
            ) ==> shown.audio_input.selected == Some(entry)
            &&& entry < backends.len() && (forall|i: int, j: int|
                0 <= i < j < backends.len() ==> !crate::text::same_but_for_case(
                    #[trigger] backends[i],
                    #[trigger] backends[j],
                )) && holds(
                &stored,
                text_write(Setting::RendererBackend, backends[entry as int]),
            ) ==> shown.backend.selected == Some(entry)
        }),
{
    let backends = crate::forms::texts(lists.backends@);
    let languages = language_codes(lists.languages@);
    let dividers = lists.dividers@;
    let outputs = crate::forms::texts(lists.output_devices@);
    let inputs = crate::forms::texts(lists.input_devices@);
    if entry < languages.len() && languages.no_duplicates() {
        let p = crate::forms::equal_to(languages[entry as int]);
        crate::forms::lemma_first_where(languages, p);
        assert(p(languages[entry as int]));
    }
    if entry < dividers.len() && dividers.no_duplicates() {
        let p = crate::forms::number_is(dividers[entry as int]);
        crate::forms::lemma_first_where(dividers, p);
        assert(p(dividers[entry as int]));
    }
    if 1 <= entry <= outputs.len() && outputs.no_duplicates() {
        lemma_device_round_trip(outputs, entry);
    }
    if 1 <= entry <= inputs.len() && inputs.no_duplicates() {
        lemma_device_round_trip(inputs, entry);
    }
    if entry < backends.len() && (forall|i: int, j: int|
        0 <= i < j < backends.len() ==> !crate::text::same_but_for_case(
            #[trigger] backends[i],
            #[trigger] backends[j],
        )) {
        lemma_backend_round_trip(backends, entry);
    }
}

/// A box that was checked or unchecked is shown so again, and the display
/// colour box too, though its state is stored as a mode.
pub proof fn lemma_boxes_survive(
    stored: StoredPreferences,
    lists: PreferenceLists,
    labels: PreferenceLabels,
    on: bool,
)
    ensures
        ({
            let shown = seeded(&stored, &lists, &labels);
            let state = crate::checkbox::state_of(on);
            &&& holds(&stored, flag_write(Setting::CheckForUpdates, on))
                ==> shown.check_updates.state == state
            &&& holds(&stored, flag_write(Setting::UseProxyMedia, on)) ==> shown.use_proxy.state
                == state
            &&& holds(&stored, flag_write(Setting::HardwareDecoding, on))
                ==> shown.hw_decode.state == state
            &&& holds(
                &stored,
                text_write(
                    Setting::DisplayColorMode,
                    if on {
                        "icc"@
                    } else {
                        "off"@
                    },
                ),
            ) ==> shown.display_icc.state == state
        }),
{
    reveal_strlit("icc");
    reveal_strlit("off");
    assert("icc"@[0] != "off"@[0]);
}

} // verus!
