//! The proxy dialog: how proxies are made, and for which footage.

use crate::checkbox::{CheckBox, CheckState};
use crate::combobox::ComboBox;
use crate::forms::{check, clamp, combo, text_position, ConfigValue, IntField, Label, PathField};
use crate::text::{joined, signed_decimal, trim};
use vstd::prelude::*;

verus! {

/// The encoder presets, in order.
pub open spec fn presets() -> Seq<Seq<char>> {
    seq![
        "ultrafast"@,
        "superfast"@,
        "veryfast"@,
        "faster"@,
        "fast"@,
        "medium"@,
        "slow"@,
        "slower"@,
        "veryslow"@,
    ]
}

/// The encoder presets, in order.
pub fn proxy_presets() -> (r: Vec<String>)
    ensures
        crate::forms::texts(r@) == presets(),
{
    let mut r: Vec<String> = Vec::new();
    r.push("ultrafast".to_owned());
    r.push("superfast".to_owned());
    r.push("veryfast".to_owned());
    r.push("faster".to_owned());
    r.push("fast".to_owned());
    r.push("medium".to_owned());
    r.push("slow".to_owned());
    r.push("slower".to_owned());
    r.push("veryslow".to_owned());
    assert(crate::forms::texts(r@) =~= presets());
    r
}

/// The resolution dividers, in order; 1 is a size of one's own.
pub open spec fn dividers() -> Seq<i32> {
    seq![1i32, 2, 4, 8]
}

/// The divider at an entry; 1 without one.
pub open spec fn divider_at(selected: Option<usize>) -> i32 {
    match selected {
        Some(i) => if i < dividers().len() {
            dividers()[i as int]
        } else {
            1
        },
        None => 1,
    }
}

/// The entry of a divider; the first for one that is not on offer.
pub open spec fn divider_index(divider: i32) -> usize {
    if divider == 2 {
        1
    } else if divider == 4 {
        2
    } else if divider == 8 {
        3
    } else {
        0
    }
}

/// The label of a divider.
pub fn divider_label(divider: i32) -> (r: Label)
    ensures
        r@ == if divider == 1 {
            crate::forms::LabelModel::Key("proxydialog.resolution.custom"@)
        } else if divider == 2 {
            crate::forms::LabelModel::Key("proxydialog.resolution.half"@)
        } else if divider == 4 {
            crate::forms::LabelModel::Key("proxydialog.resolution.quarter"@)
        } else if divider == 8 {
            crate::forms::LabelModel::Key("proxydialog.resolution.eighth"@)
        } else {
            crate::forms::LabelModel::Text(
                "1/"@ + crate::text::signed_text(divider as int),
            )
        },
{
    match divider {
        1 => Label::Key("proxydialog.resolution.custom"),
        2 => Label::Key("proxydialog.resolution.half"),
        4 => Label::Key("proxydialog.resolution.quarter"),
        8 => Label::Key("proxydialog.resolution.eighth"),
        other => Label::Text(joined("1/", signed_decimal(other as i64).as_str())),
    }
}

/// Where a proxy is in its life.
#[derive(Clone, Copy, Debug, PartialEq, Eq, Structural)]
pub enum ProxyMediaState {
    Missing,
    Generating,
    Ready,
    Failed,
}

/// The name under which the label of a state is looked up.
pub fn proxy_state_label(state: ProxyMediaState) -> (r: &'static str)
    ensures
        r@ == (match state {
            ProxyMediaState::Missing => "proxydialog.state.missing"@,
            ProxyMediaState::Generating => "proxydialog.state.generating"@,
            ProxyMediaState::Ready => "proxydialog.state.ready"@,
            ProxyMediaState::Failed => "proxydialog.state.failed"@,
        }),
{
    match state {
        ProxyMediaState::Missing => "proxydialog.state.missing",
        ProxyMediaState::Generating => "proxydialog.state.generating",
        ProxyMediaState::Ready => "proxydialog.state.ready",
        ProxyMediaState::Failed => "proxydialog.state.failed",
    }
}

/// Footage and its proxy.
#[derive(Clone, Copy, Debug, PartialEq, Eq, Structural)]
pub struct ProxyFootageRow {
    pub id: u64,
    pub has_custom: bool,
    pub can_generate: bool,
    pub enabled: bool,
    pub state: ProxyMediaState,
}

impl ProxyFootageRow {
    /// Whether the row's proxy is in use: enabled, and ready.
    pub fn in_use(&self) -> (r: bool)
        ensures
            r == (self.enabled && self.state == ProxyMediaState::Ready),
    {
        self.enabled && self.state == ProxyMediaState::Ready
    }

    /// The row's state text, with the suffix for parameters of its own.
    pub fn state_text(&self, state: &str, custom_suffix: &str) -> (r: String)
        ensures
            r@ == if self.has_custom {
                state@ + custom_suffix@
            } else {
                state@
            },
    {
        if self.has_custom {
            joined(state, custom_suffix)
        } else {
            state.to_owned()
        }
    }
}

/// How a proxy is made.
#[derive(Debug)]
pub struct ProxyParamsUi {
    pub width: i32,
    pub height: i32,
    pub divider: i32,
    pub crf: i32,
    pub preset: String,
    pub include_audio: bool,
}

/// What [`ProxyParamsUi`] holds.
#[verifier::ext_equal]
pub struct ParamsModel {
    pub width: i32,
    pub height: i32,
    pub divider: i32,
    pub crf: i32,
    pub preset: Seq<char>,
    pub include_audio: bool,
}

impl View for ProxyParamsUi {
    type V = ParamsModel;

    open spec fn view(&self) -> ParamsModel {
        ParamsModel {
            width: self.width,
            height: self.height,
            divider: self.divider,
            crf: self.crf,
            preset: self.preset@,
            include_audio: self.include_audio,
        }
    }
}

/// The proxy dialog.
#[derive(Debug)]
pub struct ProxyDialogContent {
    pub divider: ComboBox,
    pub width: IntField,
    pub height: IntField,
    pub crf: IntField,
    pub preset: ComboBox,
    pub include_audio: CheckBox,
    pub max_concurrent: IntField,
    pub ffmpeg_path: PathField,
    pub custom_params: CheckBox,
    pub rows: Vec<ProxyFootageRow>,
}

/// What a [`ProxyDialogContent`] holds.
#[verifier::ext_equal]
pub struct ProxyModel {
    pub divider: crate::combobox::ComboModel,
    pub width: IntField,
    pub height: IntField,
    pub crf: IntField,
    pub preset: crate::combobox::ComboModel,
    pub include_audio: crate::checkbox::CheckModel,
    pub max_concurrent: IntField,
    pub ffmpeg_path: crate::forms::PathModel,
    pub custom_params: crate::checkbox::CheckModel,
    pub rows: Seq<ProxyFootageRow>,
}

impl View for ProxyDialogContent {
    type V = ProxyModel;

    open spec fn view(&self) -> ProxyModel {
        ProxyModel {
            divider: self.divider@,
            width: self.width,
            height: self.height,
            crf: self.crf,
            preset: self.preset@,
            include_audio: self.include_audio@,
            max_concurrent: self.max_concurrent,
            ffmpeg_path: self.ffmpeg_path@,
            custom_params: self.custom_params@,
            rows: self.rows@,
        }
    }
}

/// What the dialog starts from: the stored parameters.
#[derive(Debug)]
pub struct ProxySeed {
    pub params: ProxyParamsUi,
    pub max_concurrent: i64,
    pub ffmpeg_path: String,
}

/// The texts of the dialog: a label for each divider, and for the two boxes.
#[derive(Debug)]
pub struct ProxyLabels {
    pub dividers: Vec<String>,
    pub include_audio: String,
    pub custom: String,
}

/// Whether any footage has parameters of its own.
pub open spec fn any_custom(rows: Seq<ProxyFootageRow>) -> bool {
    exists|i: int| 0 <= i < rows.len() && (#[trigger] rows[i]).has_custom
}

/// The entry of a preset; "veryfast" for one that is not on offer.
pub open spec fn preset_index(preset: Seq<char>) -> usize {
    match crate::forms::first_where(presets(), crate::forms::equal_to(preset)) {
        Some(i) => i as usize,
        None => 2,
    }
}

/// The preset at an entry; "veryfast" without one.
pub open spec fn preset_at(selected: Option<usize>) -> Seq<char> {
    match selected {
        Some(i) => if i < presets().len() {
            presets()[i as int]
        } else {
            "veryfast"@
        },
        None => "veryfast"@,
    }
}

/// A whole number as the engine takes it.
pub open spec fn narrowed(v: int) -> i32 {
    crate::forms::clamped(v, i32::MIN as int, i32::MAX as int) as i32
}

/// The dialog at its start.
pub open spec fn seeded(
    seed: &ProxySeed,
    rows: Seq<ProxyFootageRow>,
    labels: &ProxyLabels,
) -> ProxyModel {
    ProxyModel {
        divider: crate::forms::combo_model(
            21,
            crate::forms::texts(labels.dividers@),
            Seq::empty(),
            Some(divider_index(seed.params.divider)),
        ),
        width: IntField {
            control: 22,
            min: 160,
            max: 4096,
            step: 16,
            value: seed.params.width as i64,
        },
        height: IntField {
            control: 23,
            min: 120,
            max: 2160,
            step: 8,
            value: seed.params.height as i64,
        },
        crf: IntField { control: 24, min: 0, max: 51, step: 1, value: seed.params.crf as i64 },
        preset: crate::forms::combo_model(
            25,
            presets(),
            Seq::empty(),
            Some(preset_index(seed.params.preset@)),
        ),
        include_audio: crate::forms::check_model(
            26,
            seed.params.include_audio,
            labels.include_audio@,
        ),
        max_concurrent: IntField {
            control: 28,
            min: 1,
            max: 16,
            step: 1,
            value: crate::forms::clamped(seed.max_concurrent as int, 1, 16) as i64,
        },
        ffmpeg_path: crate::forms::PathModel { path: seed.ffmpeg_path@, enabled: true },
        custom_params: crate::forms::check_model(27, any_custom(rows), labels.custom@),
        rows,
    }
}

impl ProxyModel {
    /// The parameters in the dialog.
    pub open spec fn params(self) -> ParamsModel {
        ParamsModel {
            width: narrowed(self.width.value as int),
            height: narrowed(self.height.value as int),
            divider: divider_at(self.divider.selected),
            crf: narrowed(self.crf.value as int),
            preset: preset_at(self.preset.selected),
            include_audio: self.include_audio.state == CheckState::Checked,
        }
    }

    /// Whether footage gets the parameters as its own.
    pub open spec fn custom(self) -> bool {
        self.custom_params.state == CheckState::Checked
    }
}

/// What the host does for one footage.
#[derive(Clone, Copy, Debug, PartialEq, Eq, Structural)]
pub enum ProxyAction {
    /// Give it the dialog's parameters as its own.
    SetCustom(u64),
    /// Take its own parameters away.
    ClearCustom(u64),
    /// Make its proxy.
    Generate(u64),
    /// Delete its proxy.
    Delete(u64),
}

/// The actions that make proxies: for every footage that can have one, with
/// its own parameters first when `custom`.
pub open spec fn generate_actions(rows: Seq<ProxyFootageRow>, custom: bool) -> Seq<ProxyAction>
    decreases rows.len(),
{
    if rows.len() == 0 {
        Seq::empty()
    } else {
        let head = generate_actions(rows.drop_last(), custom);
        let row = rows.last();
        if !row.can_generate {
            head
        } else if custom {
            head.push(ProxyAction::SetCustom(row.id)).push(ProxyAction::Generate(row.id))
        } else {
            head.push(ProxyAction::Generate(row.id))
        }
    }
}

/// The actions that delete every proxy.
pub open spec fn delete_actions(rows: Seq<ProxyFootageRow>) -> Seq<ProxyAction> {
    Seq::new(rows.len(), |i: int| ProxyAction::Delete(rows[i].id))
}

/// The actions that give every footage the parameters, or take them away.
pub open spec fn accept_actions(rows: Seq<ProxyFootageRow>, custom: bool) -> Seq<ProxyAction> {
    Seq::new(
        rows.len(),
        |i: int|
            if custom {
                ProxyAction::SetCustom(rows[i].id)
            } else {
                ProxyAction::ClearCustom(rows[i].id)
            },
    )
}

/// A stored setting.
#[derive(Debug)]
pub struct ConfigWrite {
    pub key: &'static str,
    pub value: ConfigValue,
}

/// What a [`ConfigWrite`] holds.
pub open spec fn write_model(w: ConfigWrite) -> (Seq<char>, crate::forms::ValueModel) {
    (w.key@, w.value@)
}

/// What a list of [`ConfigWrite`]s holds.
pub open spec fn writes_model(w: Seq<ConfigWrite>) -> Seq<(Seq<char>, crate::forms::ValueModel)> {
    Seq::new(w.len(), |i: int| write_model(w[i]))
}

/// The settings that the dialog stores, in order.
pub open spec fn global_writes(m: ProxyModel) -> Seq<(Seq<char>, crate::forms::ValueModel)> {
    seq![
        ("ProxyWidth"@, crate::forms::ValueModel::Number(m.params().width as i64)),
        ("ProxyHeight"@, crate::forms::ValueModel::Number(m.params().height as i64)),
        ("ProxyDivider"@, crate::forms::ValueModel::Number(m.params().divider as i64)),
        ("ProxyCRF"@, crate::forms::ValueModel::Number(m.params().crf as i64)),
        ("ProxyPreset"@, crate::forms::ValueModel::Text(m.params().preset)),
        ("ProxyIncludeAudio"@, crate::forms::ValueModel::Flag(m.params().include_audio)),
        (
            "ProxyMaxConcurrent"@,
            crate::forms::ValueModel::Number(
                crate::forms::clamped(m.max_concurrent.value as int, 1, 16) as i64,
            ),
        ),
    ]
}

fn narrow(v: i64) -> (r: i32)
    ensures
        r == narrowed(v as int),
{
    clamp(v, -0x8000_0000, 0x7fff_ffff) as i32
}

fn has_any_custom(rows: &Vec<ProxyFootageRow>) -> (r: bool)
    ensures
        r == any_custom(rows@),
{
    let mut i: usize = 0;
    while i < rows.len()
        invariant
            i <= rows.len(),
            forall|j: int| 0 <= j < i ==> !(#[trigger] rows@[j]).has_custom,
        decreases rows.len() - i,
    {
        if rows[i].has_custom {
            assert(rows@[i as int].has_custom);
            return true;
        }
        i = i + 1;
    }
    false
}

impl ProxyDialogContent {
    /// The dialog at the stored parameters.
    pub fn new(seed: &ProxySeed, rows: Vec<ProxyFootageRow>, labels: &ProxyLabels) -> (r:
        ProxyDialogContent)
        ensures
            r@ == seeded(seed, rows@, labels),
    {
        proof {
            reveal_strlit("");
            assert(""@ =~= Seq::<char>::empty());
        }
        let divider_selected: usize = match seed.params.divider {
            2 => 1,
            4 => 2,
            8 => 3,
            _ => 0,
        };
        let names: Vec<String> = proxy_presets();
        let preset_selected: usize = match text_position(&names, seed.params.preset.as_str()) {
            Some(i) => i,
            None => 2,
        };
        let custom: bool = has_any_custom(&rows);
        ProxyDialogContent {
            divider: combo(
                21,
                crate::forms::copied_texts(&labels.dividers),
                "",
                Some(divider_selected),
            ),
            width: IntField {
                control: 22,
                min: 160,
                max: 4096,
                step: 16,
                value: seed.params.width as i64,
            },
            height: IntField {
                control: 23,
                min: 120,
                max: 2160,
                step: 8,
                value: seed.params.height as i64,
            },
            crf: IntField {
                control: 24,
                min: 0,
                max: 51,
                step: 1,
                value: seed.params.crf as i64,
            },
            preset: combo(25, names, "", Some(preset_selected)),
            include_audio: check(
                26,
                seed.params.include_audio,
                labels.include_audio.as_str(),
            ),
            max_concurrent: IntField {
                control: 28,
                min: 1,
                max: 16,
                step: 1,
                value: clamp(seed.max_concurrent, 1, 16),
            },
            ffmpeg_path: PathField::new(seed.ffmpeg_path.as_str()),
            custom_params: check(27, custom, labels.custom.as_str()),
            rows,
        }
    }

    /// The parameters in the dialog.
    pub fn current_params(&self) -> (r: ProxyParamsUi)
        ensures
            r@ == self@.params(),
    {
        let divider: i32 = match self.divider.selected() {
            Some(1) => 2,
            Some(2) => 4,
            Some(3) => 8,
            _ => 1,
        };
        let names: Vec<String> = proxy_presets();
        let preset: String = match self.preset.selected() {
            Some(i) => if i < names.len() {
                assert(crate::forms::texts(names@)[i as int] == names@[i as int]@);
                names[i].clone()
            } else {
                "veryfast".to_owned()
            },
            None => "veryfast".to_owned(),
        };
        ProxyParamsUi {
            width: narrow(self.width.value),
            height: narrow(self.height.value),
            divider,
            crf: narrow(self.crf.value),
            preset,
            include_audio: self.include_audio.state() == CheckState::Checked,
        }
    }

    /// The settings to store, in order; the path of the encoder, without the
    /// white space around it, stands apart.
    pub fn save_global_settings(&self) -> (r: (Vec<ConfigWrite>, String))
        ensures
            writes_model(r.0@) == global_writes(self@),
            r.1@ == crate::text::trimmed(self@.ffmpeg_path.path),
    {
        let params: ProxyParamsUi = self.current_params();
        let mut w: Vec<ConfigWrite> = Vec::new();
        w.push(
            ConfigWrite { key: "ProxyWidth", value: ConfigValue::Number(params.width as i64) },
        );
        w.push(
            ConfigWrite { key: "ProxyHeight", value: ConfigValue::Number(params.height as i64) },
        );
        w.push(
            ConfigWrite { key: "ProxyDivider", value: ConfigValue::Number(params.divider as i64) },
        );
        w.push(ConfigWrite { key: "ProxyCRF", value: ConfigValue::Number(params.crf as i64) });
        w.push(ConfigWrite { key: "ProxyPreset", value: ConfigValue::Text(params.preset) });
        w.push(
            ConfigWrite {
                key: "ProxyIncludeAudio",
                value: ConfigValue::Flag(params.include_audio),
            },
        );
        w.push(
            ConfigWrite {
                key: "ProxyMaxConcurrent",
                value: ConfigValue::Number(clamp(self.max_concurrent.value, 1, 16)),
            },
        );
        assert(writes_model(w@) =~= global_writes(self@));
        (w, trim(self.ffmpeg_path.path().as_str()))
    }

    /// What to do to make proxies for every footage that can have one.
    pub fn generate(&self) -> (r: Vec<ProxyAction>)
        ensures
            r@ == generate_actions(self@.rows, self@.custom()),
    {
        let custom: bool = self.custom_params.state() == CheckState::Checked;
        let mut r: Vec<ProxyAction> = Vec::new();
        let mut i: usize = 0;
        assert(self.rows@.take(0) =~= Seq::empty());
        while i < self.rows.len()
            invariant
                i <= self.rows.len(),
                r@ == generate_actions(self.rows@.take(i as int), custom),
            decreases self.rows.len() - i,
        {
            assert(self.rows@.take(i + 1).drop_last() =~= self.rows@.take(i as int));
            if self.rows[i].can_generate {
                if custom {
                    r.push(ProxyAction::SetCustom(self.rows[i].id));
                }
                r.push(ProxyAction::Generate(self.rows[i].id));
            }
            i = i + 1;
        }
        assert(self.rows@.take(i as int) =~= self.rows@);
        r
    }

    /// What to do to delete every proxy.
    pub fn delete(&self) -> (r: Vec<ProxyAction>)
        ensures
            r@ == delete_actions(self@.rows),
    {
        let mut r: Vec<ProxyAction> = Vec::new();
        let mut i: usize = 0;
        while i < self.rows.len()
            invariant
                i <= self.rows.len(),
                r@ =~= delete_actions(self.rows@).take(i as int),
            decreases self.rows.len() - i,
        {
            r.push(ProxyAction::Delete(self.rows[i].id));
            i = i + 1;
        }
        assert(delete_actions(self.rows@).take(i as int) =~= delete_actions(self.rows@));
        r
    }

    /// What to do when the dialog is accepted, after the settings are stored.
    pub fn accept(&self) -> (r: Vec<ProxyAction>)
        ensures
            r@ == accept_actions(self@.rows, self@.custom()),
    {
        let custom: bool = self.custom_params.state() == CheckState::Checked;
        let mut r: Vec<ProxyAction> = Vec::new();
        let mut i: usize = 0;
        while i < self.rows.len()
            invariant
                i <= self.rows.len(),
                r@ =~= accept_actions(self.rows@, custom).take(i as int),
            decreases self.rows.len() - i,
        {
            if custom {
                r.push(ProxyAction::SetCustom(self.rows[i].id));
            } else {
                r.push(ProxyAction::ClearCustom(self.rows[i].id));
            }
            i = i + 1;
        }
        assert(accept_actions(self.rows@, custom).take(i as int) =~= accept_actions(
            self.rows@,
            custom,
        ));
        r
    }

    /// Takes the footage rows as they are now.
    pub fn refresh(&mut self, rows: Vec<ProxyFootageRow>)
        ensures
            final(self)@ == (ProxyModel { rows: rows@, ..old(self)@ }),
    {
        self.rows = rows;
    }
}

/// Opening the dialog and reading it back changes no parameter that is on
/// offer.
pub proof fn lemma_params_survive_the_dialog(
    seed: ProxySeed,
    rows: Seq<ProxyFootageRow>,
    labels: ProxyLabels,
)
    requires
        dividers().contains(seed.params.divider),
        presets().contains(seed.params.preset@),
    ensures
        seeded(&seed, rows, &labels).params() == seed.params@,
{
    let preset = seed.params.preset@;
    let p = crate::forms::equal_to(preset);
    crate::forms::lemma_first_where(presets(), p);
    let k = choose|k: int| 0 <= k < presets().len() && presets()[k] == preset;
    assert(p(presets()[k]));
    let d = choose|d: int| 0 <= d < dividers().len() && dividers()[d] == seed.params.divider;
    assert(dividers()[d] == seed.params.divider);
}

/// Footage that cannot have a proxy is left alone when proxies are made.
pub proof fn lemma_generate_only_where_possible(rows: Seq<ProxyFootageRow>, custom: bool, id: u64)
    ensures
        generate_actions(rows, custom).contains(ProxyAction::Generate(id)) <==> exists|i: int|
            0 <= i < rows.len() && (#[trigger] rows[i]).can_generate && rows[i].id == id,
    decreases rows.len(),
{
    let all = generate_actions(rows, custom);
    let want = ProxyAction::Generate(id);
    if rows.len() > 0 {
        let head = generate_actions(rows.drop_last(), custom);
        let row = rows.last();
        lemma_generate_only_where_possible(rows.drop_last(), custom, id);
        if all.contains(want) {
            let k = choose|k: int| 0 <= k < all.len() && all[k] == want;
            if k < head.len() {
                assert(head[k] == want);
                let i = choose|i: int|
                    0 <= i < rows.drop_last().len() && (#[trigger] rows.drop_last()[i]).can_generate
                        && rows.drop_last()[i].id == id;
                assert(rows[i].can_generate);
            } else {
                assert(rows[rows.len() - 1].can_generate);
            }
        }
        if exists|i: int|
            0 <= i < rows.len() && (#[trigger] rows[i]).can_generate && rows[i].id == id {
            let i = choose|i: int|
                0 <= i < rows.len() && (#[trigger] rows[i]).can_generate && rows[i].id == id;
            if i < rows.len() - 1 {
                assert(rows.drop_last()[i].can_generate);
                assert(head.contains(want));
                let k = choose|k: int| 0 <= k < head.len() && head[k] == want;
                assert(all[k] == want);
            } else {
                assert(all.last() == want);
            }
        }
    }
}

} // verus!
