//! What the dialogs show and what they answer, case by case.

use crate::checkbox::CheckState;
use crate::displaycolor::{OutputGamut, OutputTransfer};
use crate::export_dialog::{ContainerCodecs, ExportLabels, ExportModel, FormatModel};
use crate::forms::IntField;
use crate::keyboard_tab::{
    DecisionModel, EntryModel, FieldText, KeyboardStatus, RowText, StepModel, TabModel,
};
use crate::preferences::{PreferenceLabels, PreferenceLists, StoredPreferences};
use crate::project_properties::{
    ProjectLabels, ProjectState, PropertiesModel, WorkingColorSpace,
};
use crate::proxy_dialog::{ProxyAction, ProxyFootageRow, ProxyLabels, ProxyModel, ProxySeed};
use crate::sequence_format::{FieldsModel, FrameRate, SequenceFormatSeed, VideoFormat};
use vstd::prelude::*;

verus! {

/// A value is brought into a range at the nearer end, and is left alone inside
/// it.
pub proof fn lemma_clamped(v: int, min: int, max: int)
    requires
        min <= max,
    ensures
        min <= crate::forms::clamped(v, min, max) <= max,
        min <= v <= max ==> crate::forms::clamped(v, min, max) == v,
        v < min ==> crate::forms::clamped(v, min, max) == min,
        v > max ==> crate::forms::clamped(v, min, max) == max,
{
}

/// A field takes a value that lies on its steps as it is, and of any other in
/// its range one at most half a step away, but for the end of the range.
pub proof fn lemma_field_takes(field: IntField, v: int, k: int)
    requires
        field.min <= field.max,
        field.step > 0,
    ensures
        field.min <= v <= field.max && v == field.min + k * field.step && 0 <= k
            ==> crate::forms::settled(field, v) == v,
        field.min <= v <= field.max && crate::forms::settled(field, v) < field.max ==> {
            &&& 2 * (crate::forms::settled(field, v) - v) <= field.step
            &&& 2 * (v - crate::forms::settled(field, v)) <= field.step
        },
        v < field.min ==> crate::forms::settled(field, v) == field.min,
{
    let s = field.step as int;
    if field.min <= v <= field.max && v > field.min {
        let d = v - field.min;
        let n = (2 * d + s) / (2 * s);
        assert(2 * s * n <= 2 * d + s < 2 * s * (n + 1)) by (nonlinear_arith)
            requires
                n == (2 * d + s) / (2 * s),
                s > 0,
        ;
        assert(2 * s * n == 2 * (n * s) && 2 * s * (n + 1) == 2 * (n * s) + 2 * s)
            by (nonlinear_arith);
        if v == field.min + k * field.step && 0 <= k {
            assert(n == k) by (nonlinear_arith)
                requires
                    d == k * s,
                    2 * (n * s) <= 2 * d + s < 2 * (n * s) + 2 * s,
                    s > 0,
            ;
        }
    }
}

/// The options of a box are numbered by their places and carry its labels; the
/// box is closed, at the selection it is given.
pub proof fn lemma_combo_made(
    control: usize,
    labels: Seq<Seq<char>>,
    placeholder: Seq<char>,
    selected: Option<usize>,
    i: int,
)
    requires
        labels.len() <= usize::MAX,
    ensures
        ({
            let c = crate::forms::combo_model(control, labels, placeholder, selected);
            &&& c.control == control
            &&& c.options.len() == labels.len()
            &&& 0 <= i < labels.len() ==> c.options[i].index == i && c.options[i].label == labels[i]
            &&& c.selected == selected
            &&& c.placeholder == placeholder
            &&& !c.open
        }),
{
}

/// A check box is made on or off as asked, with its label.
pub proof fn lemma_check_made(control: usize, on: bool, label: Seq<char>)
    ensures
        ({
            let c = crate::forms::check_model(control, on, label);
            &&& c.control == control
            &&& c.state == CheckState::Checked <==> on
            &&& c.state == CheckState::Unchecked <==> !on
            &&& c.label == Some(label)
        }),
{
}

/// The entry of a text is the first that has it, and the first of all when
/// none has.
pub proof fn lemma_entry_found(list: Seq<Seq<char>>, stored: Seq<char>, i: int)
    requires
        list.len() <= usize::MAX,
    ensures
        0 <= i < list.len() && list[i] == stored && (forall|j: int|
            0 <= j < i ==> #[trigger] list[j] != stored) ==> crate::preferences::text_index(
            list,
            stored,
        ) == i,
        !list.contains(stored) ==> crate::preferences::text_index(list, stored) == 0,
{
    let p = crate::forms::equal_to(stored);
    crate::forms::lemma_first_where(list, p);
    match crate::forms::first_where(list, p) {
        Some(k) => {
            assert(p(list[k]));
            assert(list.contains(list[k]));
            if 0 <= i < list.len() && list[i] == stored && (forall|j: int|
                0 <= j < i ==> #[trigger] list[j] != stored) {
                assert(p(list[i]));
                if k < i {
                    assert(list[k] != stored);
                }
            }
        },
        None => {
            if 0 <= i < list.len() {
                assert(!p(list[i]));
            }
        },
    }
}

/// The device list starts with the system's own choice; a device stands one
/// entry behind its place, and one that is not there is the system's choice.
pub proof fn lemma_devices(default_label: Seq<char>, devices: Seq<Seq<char>>, i: int)
    requires
        devices.len() < usize::MAX,
        devices.no_duplicates(),
    ensures
        crate::preferences::device_labels(default_label, devices).len() == devices.len() + 1,
        crate::preferences::device_labels(default_label, devices)[0] == default_label,
        0 <= i < devices.len() ==> {
            &&& crate::preferences::device_labels(default_label, devices)[i + 1] == devices[i]
            &&& crate::preferences::device_index(devices, devices[i]) == i + 1
            &&& crate::preferences::device_at(devices, (i + 1) as usize) == devices[i]
        },
        crate::preferences::device_at(devices, 0).len() == 0,
        forall|name: Seq<char>|
            !devices.contains(name) ==> #[trigger] crate::preferences::device_index(devices, name)
                == 0,
        forall|entry: usize|
            entry > devices.len() ==> #[trigger] crate::preferences::device_at(
                devices,
                entry,
            ).len() == 0,
{
    if 0 <= i < devices.len() {
        crate::preferences::lemma_device_round_trip(devices, (i + 1) as usize);
    }
    assert forall|name: Seq<char>| !devices.contains(name) implies
        #[trigger] crate::preferences::device_index(devices, name) == 0 by {
        let p = crate::forms::equal_to(name);
        crate::forms::lemma_first_where(devices, p);
        if let Some(k) = crate::forms::first_where(devices, p) {
            assert(p(devices[k]));
            assert(devices.contains(devices[k]));
        }
    }
}

/// The names that renderer backends and languages are shown under.
pub proof fn lemma_backend_names(name: Seq<char>)
    ensures
        crate::preferences::backend_text("opengl"@) == "OpenGL"@,
        crate::preferences::backend_text("metal"@) == "Metal"@,
        crate::preferences::backend_text("vulkan"@) == "Vulkan"@,
        crate::preferences::backend_text("none"@) == "None (off)"@,
        name != "opengl"@ && name != "metal"@ && name != "vulkan"@ && name != "none"@
            ==> crate::preferences::backend_text(name) == name,
        forall|l: crate::preferences::Language| #[trigger]
            crate::preferences::language_text(l) == l.name@ + " ("@ + l.code@ + ")"@,
{
    reveal_strlit("opengl");
    reveal_strlit("metal");
    reveal_strlit("vulkan");
    reveal_strlit("none");
    assert("opengl"@[0] == 'o' && "metal"@[0] == 'm' && "vulkan"@[0] == 'v' && "none"@[0] == 'n');
}

/// The preferences show what is stored: each path, number and choice, the
/// frames to cache ahead within their range.
pub proof fn lemma_preferences_shown(
    stored: StoredPreferences,
    lists: PreferenceLists,
    labels: PreferenceLabels,
)
    ensures
        ({
            let m = crate::preferences::seeded(&stored, &lists, &labels);
            let backends = crate::forms::texts(lists.backends@);
            &&& m.backend.selected == Some(
                crate::preferences::backend_index(backends, stored.backend@),
            )
            &&& m.backend.options.len() == lists.backends@.len()
            &&& m.display_bit_depth.selected == (if stored.bit_depth@ == "8"@ {
                Some(1usize)
            } else {
                Some(0usize)
            })
            &&& m.theme.selected == (if stored.dark {
                Some(0usize)
            } else {
                Some(1usize)
            })
            &&& m.check_updates.state == CheckState::Checked <==> stored.check_updates
            &&& m.use_proxy.state == CheckState::Checked <==> stored.use_proxy
            &&& m.hw_decode.state == CheckState::Checked <==> stored.hw_decode
            &&& m.display_icc.state == CheckState::Checked <==> stored.color_mode@ != "off"@
            &&& m.cache_dir.path == stored.cache_dir@ && m.cache_dir.enabled
            &&& m.display_icc_path.path == stored.custom_icc@ && m.display_icc_path.enabled
            &&& m.storage_pg_url.path == stored.pg_url@ && m.storage_pg_url.enabled
            &&& m.cache_ahead.min == 8 && m.cache_ahead.max == 1200 && m.cache_ahead.step == 8
            &&& 8 <= stored.cache_ahead <= 1200 ==> m.cache_ahead.value == stored.cache_ahead
            &&& stored.cache_ahead < 8 ==> m.cache_ahead.value == 8
            &&& stored.cache_ahead > 1200 ==> m.cache_ahead.value == 1200
            &&& m.snapshot_interval.value == stored.snapshot_interval
            &&& m.snapshot_interval.min == 0 && m.snapshot_interval.max == 86400
                && m.snapshot_interval.step == 10
            &&& m.storage_is_pg <==> stored.storage_backend@ == "pg"@
            &&& m.storage_backend.selected == (if stored.storage_backend@ == "pg"@ {
                Some(1usize)
            } else {
                Some(0usize)
            })
            &&& m.audio_output.options.len() == lists.output_devices@.len() + 1
            &&& m.audio_input.options.len() == lists.input_devices@.len() + 1
            &&& m.output_devices == crate::forms::texts(lists.output_devices@)
            &&& m.input_devices == crate::forms::texts(lists.input_devices@)
            &&& m.dividers == lists.dividers@
            &&& m.languages == crate::preferences::language_codes(lists.languages@)
            &&& m.backends == backends
        }),
{
}

/// A container without a table takes the fallback codec alone.
pub proof fn lemma_codec_tables(table: Option<Vec<i32>>, fallback: i32)
    ensures
        table matches Some(t) ==> crate::export_dialog::codecs_or(table, fallback) == t@,
        table is None ==> crate::export_dialog::codecs_or(table, fallback).len() == 1
            && crate::export_dialog::codecs_or(table, fallback)[0] == fallback,
        crate::export_dialog::FALLBACK_VIDEO_CODEC == 1,
        crate::export_dialog::FALLBACK_AUDIO_CODEC == 12,
{
}

/// The formats on offer are those with an extension, in their order, each
/// under its name and its extension.
pub proof fn lemma_formats_offered(formats: Seq<FormatModel>)
    ensures
        crate::export_dialog::offered(formats) == formats.filter(
            |f: FormatModel| f.extension.len() > 0,
        ),
        forall|f: FormatModel| #[trigger]
            crate::export_dialog::format_label(f) == f.name + " (."@ + f.extension + ")"@,
    decreases formats.len(),
{
    reveal(Seq::filter);
    if formats.len() > 0 {
        lemma_formats_offered(formats.drop_last());
    }
}

/// The dialog starts at MP4 where it is on offer, and at the first format
/// where it is not.
pub proof fn lemma_format_preselected(formats: Seq<FormatModel>, mp4: i32, i: int)
    requires
        formats.len() <= usize::MAX,
    ensures
        0 <= i < formats.len() && formats[i].id == mp4 && (forall|j: int|
            0 <= j < i ==> (#[trigger] formats[j]).id != mp4)
            ==> crate::export_dialog::default_format(formats, mp4) == i,
        (forall|j: int| 0 <= j < formats.len() ==> (#[trigger] formats[j]).id != mp4)
            ==> crate::export_dialog::default_format(formats, mp4) == 0,
        crate::export_dialog::format_at(formats, None, mp4) == mp4,
        0 <= i < formats.len() ==> crate::export_dialog::format_at(formats, Some(i as usize), mp4)
            == formats[i].id,
        forall|k: usize|
            k >= formats.len() ==> #[trigger] crate::export_dialog::format_at(
                formats,
                Some(k),
                mp4,
            ) == mp4,
{
    let p = |f: FormatModel| f.id == mp4;
    crate::forms::lemma_first_where(formats, p);
    match crate::forms::first_where(formats, p) {
        Some(k) => {
            assert(p(formats[k]));
            if 0 <= i < formats.len() && formats[i].id == mp4 {
                assert(p(formats[i]));
            }
        },
        None => {
            if 0 <= i < formats.len() {
                assert(!p(formats[i]));
            }
        },
    }
}

/// The settings of an export: the codecs selected, the first of each without a
/// selection; a size only when both sides are given; HDR as ten-bit PQ in
/// BT.2020 and else eight-bit BT.709; the range between the marks when that is
/// chosen.
pub proof fn lemma_export_settings(m: ExportModel)
    ensures
        ({
            let s = m.settings();
            let hdr = m.color.selected == Some(1usize);
            &&& s.format == m.active_format
            &&& m.video_codec.selected matches Some(i) ==> i < m.video_codes.len() ==> s.video_codec
                == m.video_codes[i as int]
            &&& m.audio_codec.selected matches Some(i) ==> i < m.audio_codes.len() ==> s.audio_codec
                == m.audio_codes[i as int]
            &&& m.video_codec.selected is None && m.video_codes.len() > 0 ==> s.video_codec
                == m.video_codes[0]
            &&& m.audio_codec.selected is None && m.audio_codes.len() > 0 ==> s.audio_codec
                == m.audio_codes[0]
            &&& m.video_codes.len() == 0 ==> s.video_codec == 1
            &&& m.audio_codes.len() == 0 ==> s.audio_codec == 12
            &&& m.resolution_w.value > 0 && m.resolution_h.value > 0 ==> s.size == (
                m.resolution_w.value,
                m.resolution_h.value,
            )
            &&& m.resolution_w.value <= 0 || m.resolution_h.value <= 0 ==> s.size == (0i64, 0i64)
            &&& s.video_bitrate == m.bitrate.value
            &&& s.audio_bitrate == 0
            &&& hdr ==> s.bit_depth == 10 && s.color_primaries == 9 && s.color_transfer == 16
                && s.color_space == 9
            &&& !hdr ==> s.bit_depth == 8 && s.color_primaries == 1 && s.color_transfer == 1
                && s.color_space == 1
            &&& s.in_out <==> m.range.selected == Some(1usize)
        }),
        m.sequence.selected matches Some(i) ==> i < m.sequences.len() ==> m.selected_sequence()
            == Some(m.sequences[i as int]),
        m.sequence.selected is None ==> m.selected_sequence() is None,
        m.format_id() == crate::export_dialog::format_at(m.formats, m.format.selected, m.mp4),
{
}

/// Another container brings its own codecs, the first of each selected, and
/// leaves the rest of the dialog alone.
pub proof fn lemma_container_chosen(m: ExportModel, format: i32, codecs: ContainerCodecs, i: int)
    requires
        codecs.video@.len() <= usize::MAX,
        codecs.audio@.len() <= usize::MAX,
    ensures
        ({
            let now = m.with_container(format, &codecs);
            &&& now.active_format == format
            &&& now.video_codes.len() == codecs.video@.len()
            &&& now.audio_codes.len() == codecs.audio@.len()
            &&& 0 <= i < codecs.video@.len() ==> now.video_codes[i] == codecs.video@[i].code
                && now.video_codec.options[i].label == codecs.video@[i].name@
            &&& 0 <= i < codecs.audio@.len() ==> now.audio_codes[i] == codecs.audio@[i].code
                && now.audio_codec.options[i].label == codecs.audio@[i].name@
            &&& now.video_codec.selected == Some(0usize)
            &&& now.audio_codec.selected == Some(0usize)
            &&& now.format == m.format
            &&& now.color == m.color
            &&& now.range == m.range
            &&& now.resolution_w == m.resolution_w
            &&& now.resolution_h == m.resolution_h
            &&& now.bitrate == m.bitrate
            &&& now.path == m.path
            &&& now.sequence == m.sequence
            &&& now.sequences == m.sequences
            &&& now.formats == m.formats
        }),
{
}

/// An export starts with nothing given: no size, no bit rate, no path, SDR, the
/// whole sequence, the first codecs of the container.
pub proof fn lemma_export_fresh(
    formats: Seq<FormatModel>,
    mp4: i32,
    codecs: ContainerCodecs,
    labels: ExportLabels,
)
    ensures
        ({
            let m = crate::export_dialog::fresh(formats, mp4, &codecs, &labels);
            let s = m.settings();
            &&& s.size == (0i64, 0i64)
            &&& s.video_bitrate == 0
            &&& s.bit_depth == 8
            &&& !s.in_out
            &&& m.path.path.len() == 0
            &&& m.sequences.len() == 0
            &&& m.selected_sequence() is None
            &&& m.format_id() == s.format
            &&& codecs.video@.len() > 0 ==> s.video_codec == codecs.video@[0].code
            &&& codecs.audio@.len() > 0 ==> s.audio_codec == codecs.audio@[0].code
            &&& m.resolution_w.max == 16384 && m.resolution_w.min == 0 && m.resolution_w.step == 4
            &&& m.resolution_h.max == 16384 && m.resolution_h.min == 0 && m.resolution_h.step == 4
            &&& m.bitrate.max == 500_000_000 && m.bitrate.min == 0 && m.bitrate.step == 1_000_000
        }),
{
}

/// What a captured key does: Escape gives up, Backspace and Delete unbind, a
/// modifier on its own waits, and any other key is bound with its modifiers.
pub proof fn lemma_key_captured(t: TabModel, i: usize, key: Seq<char>, canonical: Seq<char>)
    requires
        t.capturing == Some(i),
    ensures
        ({
            let (now, step) = t.captured(key, canonical);
            let action = t.rows[i as int].action;
            let modifier = key == "shift"@ || key == "control"@ || key == "alt"@ || key == "cmd"@
                || key == "super"@ || key == "win"@ || key == "fn"@ || key == "function"@ || key
                == "secondary"@ || key == "platform"@ || key.len() == 0;
            let clears = key == "backspace"@ || key == "delete"@;
            &&& key == "escape"@ ==> step == StepModel::Cancelled && now.capturing is None
                && now.status == t.status
            &&& clears ==> step == StepModel::Unbind(action) && now.capturing is None && now.status
                == Some(KeyboardStatus::Cleared)
            &&& modifier ==> step == StepModel::Waiting && now == t
            &&& key != "escape"@ && !clears && !modifier ==> step == StepModel::Bind(
                action,
                canonical,
            ) && now == t
            &&& now.rows == t.rows
            &&& now.filter == t.filter
            &&& now.selected == t.selected
        }),
        crate::keyboard_tab::decision(key, canonical) == DecisionModel::Cancel <==> key
            == "escape"@,
{
    reveal_strlit("escape");
    reveal_strlit("backspace");
    reveal_strlit("delete");
    assert("escape"@[0] == 'e' && "backspace"@[0] == 'b' && "delete"@[0] == 'd');
    if crate::keyboard_tab::bare_modifier(key) {
        crate::keyboard_tab::lemma_first_letter(key);
    }
}

/// A key that no row captures is not taken.
pub proof fn lemma_key_not_captured(t: TabModel, key: Seq<char>, canonical: Seq<char>)
    requires
        t.capturing is None,
    ensures
        t.captured(key, canonical) == (t, StepModel::NotCapturing),
{
}

/// The row of an action keeps its path, and its section is the path up to the
/// first step.
pub proof fn lemma_row_made(action: u64, section: Seq<char>, rest: Seq<char>)
    requires
        forall|j: int|
            0 <= j < section.len() ==> !crate::text::starts_with(
                #[trigger] (section + " > "@ + rest).skip(j),
                " > "@,
            ),
    ensures
        ({
            let row = crate::keyboard_tab::row_of(action, section + " > "@ + rest);
            &&& row.action == action
            &&& row.path == section + " > "@ + rest
            &&& row.section == section
        }),
{
    reveal_strlit(" > ");
    crate::text_laws::lemma_head_found(section, " > "@, rest);
}

/// A row says whether it is selected, and whether it captures, has a shortcut
/// or is unbound.
pub proof fn lemma_row_entry(t: TabModel, texts: Seq<RowText>, i: usize)
    ensures
        t.entry(texts, i as int) == (EntryModel::Row {
            index: i,
            selected: t.selected == Some(i),
            field: if t.capturing == Some(i) {
                FieldText::Capturing
            } else if texts[i as int]@.shortcut is None {
                FieldText::Unbound
            } else {
                FieldText::Shortcut
            },
        }),
{
}

/// A list holds an entry for every row that survives the query, in order, and
/// a header where the section changes; the header bears the section of the row
/// behind it.
pub proof fn lemma_list_grows(t: TabModel, texts: Seq<RowText>, n: int)
    requires
        n >= 0,
    ensures
        ({
            let before = t.entries(texts, n);
            let now = t.entries(texts, n + 1);
            let shown = t.shows(texts, n);
            let fresh = t.section_before(texts, n) != Some(t.rows[n].section);
            &&& t.entries(texts, 0).len() == 0
            &&& !shown ==> now == before
            &&& shown && !fresh ==> now.len() == before.len() + 1 && now.last() == t.entry(texts, n)
            &&& shown && fresh ==> now.len() == before.len() + 2 && now.last() == t.entry(texts, n)
                && now[now.len() - 2] == EntryModel::Header(t.rows[n].section)
            &&& now.take(before.len() as int) == before
            &&& shown ==> t.section_before(texts, n + 1) == Some(t.rows[n].section)
            &&& !shown ==> t.section_before(texts, n + 1) == t.section_before(texts, n)
            &&& t.section_before(texts, 0) is None
            &&& shown <==> crate::search::survives(
                texts[n]@.label,
                t.rows[n].path,
                texts[n]@.shortcut,
                t.filter,
            )
        }),
{
    assert(t.entries(texts, n + 1).take(t.entries(texts, n).len() as int) =~= t.entries(texts, n));
}

/// The entries of the colour choices, and what each entry stands for.
pub proof fn lemma_color_entries()
    ensures
        crate::project_properties::working_at(Some(0usize)) == WorkingColorSpace::AcesCg,
        crate::project_properties::working_at(Some(1usize)) == WorkingColorSpace::SrgbLegacy,
        crate::project_properties::working_at(None) == WorkingColorSpace::AcesCg,
        crate::project_properties::gamut_at(Some(0usize)) == OutputGamut::Srgb,
        crate::project_properties::gamut_at(Some(1usize)) == OutputGamut::DisplayP3,
        crate::project_properties::gamut_at(Some(2usize)) == OutputGamut::Bt2020,
        crate::project_properties::gamut_at(None) == OutputGamut::Srgb,
        crate::project_properties::transfer_at(Some(0usize)) == OutputTransfer::Srgb,
        crate::project_properties::transfer_at(Some(1usize)) == OutputTransfer::Gamma22,
        crate::project_properties::transfer_at(Some(2usize)) == OutputTransfer::Pq,
        crate::project_properties::transfer_at(Some(3usize)) == OutputTransfer::Hlg,
        crate::project_properties::transfer_at(None) == OutputTransfer::Srgb,
        forall|w: WorkingColorSpace| #[trigger]
            crate::project_properties::working_at(
                Some(crate::project_properties::working_index(w)),
            ) == w,
        forall|g: OutputGamut| #[trigger]
            crate::project_properties::gamut_at(Some(crate::project_properties::gamut_index(g)))
                == g,
        forall|t: OutputTransfer| #[trigger]
            crate::project_properties::transfer_at(
                Some(crate::project_properties::transfer_index(t)),
            ) == t,
{
}

/// The properties of a project are shown as they are; the path of the cache
/// can be entered exactly when the cache is at a path of one's own, and is
/// stored exactly then.
pub proof fn lemma_properties_shown(state: ProjectState, labels: ProjectLabels)
    ensures
        ({
            let m = crate::project_properties::seeded(&state, &labels);
            &&& m.ocio_config.path == state.ocio_config@ && m.ocio_config.enabled
            &&& m.custom_cache_path.path == state.cache_path@
            &&& m.custom_cache_path.enabled <==> state.cache_setting == 2
            &&& m.cache_setting == state.cache_setting
            &&& 0 <= state.cache_setting <= 2 ==> m.cache_location.selected == Some(
                state.cache_setting as usize,
            )
            &&& m.color() == state.color
            &&& m.error is None
        }),
        forall|m: PropertiesModel|
            m.cache_setting == 2 ==> #[trigger] m.cache_path() == m.custom_cache_path.path,
        forall|m: PropertiesModel|
            m.cache_setting != 2 ==> (#[trigger] m.cache_path()).len() == 0,
{
}

/// The encoder presets and the dividers on offer, and what stands for one that
/// is not.
pub proof fn lemma_proxy_choices()
    ensures
        crate::proxy_dialog::presets() == seq![
            "ultrafast"@,
            "superfast"@,
            "veryfast"@,
            "faster"@,
            "fast"@,
            "medium"@,
            "slow"@,
            "slower"@,
            "veryslow"@,
        ],
        crate::proxy_dialog::divider_at(Some(0usize)) == 1,
        crate::proxy_dialog::divider_at(Some(1usize)) == 2,
        crate::proxy_dialog::divider_at(Some(2usize)) == 4,
        crate::proxy_dialog::divider_at(Some(3usize)) == 8,
        crate::proxy_dialog::divider_at(None) == 1,
        forall|i: usize| i > 3 ==> #[trigger] crate::proxy_dialog::divider_at(Some(i)) == 1,
        crate::proxy_dialog::divider_index(1) == 0,
        crate::proxy_dialog::divider_index(2) == 1,
        crate::proxy_dialog::divider_index(4) == 2,
        crate::proxy_dialog::divider_index(8) == 3,
        forall|d: i32|
            d != 2 && d != 4 && d != 8 ==> #[trigger] crate::proxy_dialog::divider_index(d) == 0,
        crate::proxy_dialog::preset_at(None) == "veryfast"@,
        forall|i: usize|
            i >= 9 ==> #[trigger] crate::proxy_dialog::preset_at(Some(i)) == "veryfast"@,
        forall|i: usize|
            i < 9 ==> #[trigger] crate::proxy_dialog::preset_at(Some(i))
                == crate::proxy_dialog::presets()[i as int],
        forall|name: Seq<char>|
            !crate::proxy_dialog::presets().contains(name)
                ==> #[trigger] crate::proxy_dialog::preset_index(name) == 2,
{
    assert forall|name: Seq<char>| !crate::proxy_dialog::presets().contains(name) implies
        #[trigger] crate::proxy_dialog::preset_index(name) == 2 by {
        let p = crate::forms::equal_to(name);
        crate::forms::lemma_first_where(crate::proxy_dialog::presets(), p);
        if let Some(k) = crate::forms::first_where(crate::proxy_dialog::presets(), p) {
            assert(p(crate::proxy_dialog::presets()[k]));
            assert(crate::proxy_dialog::presets().contains(crate::proxy_dialog::presets()[k]));
        }
    }
}

/// The proxy dialog answers with what its fields hold.
pub proof fn lemma_proxy_params(m: ProxyModel)
    requires
        i32::MIN <= m.width.value <= i32::MAX,
        i32::MIN <= m.height.value <= i32::MAX,
        i32::MIN <= m.crf.value <= i32::MAX,
    ensures
        m.params().width == m.width.value,
        m.params().height == m.height.value,
        m.params().crf == m.crf.value,
        m.params().divider == crate::proxy_dialog::divider_at(m.divider.selected),
        m.params().preset == crate::proxy_dialog::preset_at(m.preset.selected),
        m.params().include_audio <==> m.include_audio.state == CheckState::Checked,
        m.custom() <==> m.custom_params.state == CheckState::Checked,
        ({
            let w = crate::proxy_dialog::global_writes(m);
            &&& w.len() == 7
            &&& w[0] == ("ProxyWidth"@, crate::forms::ValueModel::Number(m.width.value))
            &&& w[1] == ("ProxyHeight"@, crate::forms::ValueModel::Number(m.height.value))
            &&& w[2].0 == "ProxyDivider"@
            &&& w[2].1 == crate::forms::ValueModel::Number(m.params().divider as i64)
            &&& w[3] == ("ProxyCRF"@, crate::forms::ValueModel::Number(m.crf.value))
            &&& w[4] == ("ProxyPreset"@, crate::forms::ValueModel::Text(m.params().preset))
            &&& w[5] == (
                "ProxyIncludeAudio"@,
                crate::forms::ValueModel::Flag(m.include_audio.state == CheckState::Checked),
            )
            &&& w[6].0 == "ProxyMaxConcurrent"@
            &&& 1 <= m.max_concurrent.value <= 16 ==> w[6].1 == crate::forms::ValueModel::Number(
                m.max_concurrent.value,
            )
            &&& m.max_concurrent.value < 1 ==> w[6].1 == crate::forms::ValueModel::Number(1)
            &&& m.max_concurrent.value > 16 ==> w[6].1 == crate::forms::ValueModel::Number(16)
        }),
{
}

/// The proxy dialog starts at what it is given, the number of jobs within its
/// range; its parameters are footage's own when any footage has some.
pub proof fn lemma_proxy_seeded(seed: ProxySeed, rows: Seq<ProxyFootageRow>, labels: ProxyLabels)
    ensures
        ({
            let m = crate::proxy_dialog::seeded(&seed, rows, &labels);
            &&& m.width.value == seed.params.width
            &&& m.height.value == seed.params.height
            &&& m.crf.value == seed.params.crf
            &&& m.include_audio.state == CheckState::Checked <==> seed.params.include_audio
            &&& m.ffmpeg_path.path == seed.ffmpeg_path@
            &&& 1 <= seed.max_concurrent <= 16 ==> m.max_concurrent.value == seed.max_concurrent
            &&& m.custom() <==> exists|i: int|
                0 <= i < rows.len() && (#[trigger] rows[i]).has_custom
            &&& m.rows == rows
            &&& m.width.min == 160 && m.width.max == 4096 && m.width.step == 16
            &&& m.height.min == 120 && m.height.max == 2160 && m.height.step == 8
            &&& m.crf.min == 0 && m.crf.max == 51
        }),
{
}

/// Making proxies takes a step for every footage that can have one, with its
/// own parameters first when they are set; deleting them takes one for every
/// footage, and so does accepting.
pub proof fn lemma_proxy_actions(rows: Seq<ProxyFootageRow>, custom: bool, row: ProxyFootageRow)
    ensures
        ({
            let before = crate::proxy_dialog::generate_actions(rows, custom);
            let now = crate::proxy_dialog::generate_actions(rows.push(row), custom);
            &&& crate::proxy_dialog::generate_actions(Seq::empty(), custom).len() == 0
            &&& !row.can_generate ==> now == before
            &&& row.can_generate && custom ==> now == before.push(
                ProxyAction::SetCustom(row.id),
            ).push(ProxyAction::Generate(row.id))
            &&& row.can_generate && !custom ==> now == before.push(ProxyAction::Generate(row.id))
        }),
        crate::proxy_dialog::delete_actions(rows).len() == rows.len(),
        forall|i: int|
            0 <= i < rows.len() ==> #[trigger] crate::proxy_dialog::delete_actions(rows)[i]
                == ProxyAction::Delete(rows[i].id),
        crate::proxy_dialog::accept_actions(rows, custom).len() == rows.len(),
        forall|i: int|
            0 <= i < rows.len() ==> #[trigger] crate::proxy_dialog::accept_actions(rows, custom)[i]
                == (if custom {
                ProxyAction::SetCustom(rows[i].id)
            } else {
                ProxyAction::ClearCustom(rows[i].id)
            }),
{
    assert(rows.push(row).drop_last() =~= rows);
}

/// The frame rates on offer, under the names they are shown by.
pub proof fn lemma_rates_offered()
    ensures
        crate::sequence_format::rate_at(0) == Some(FrameRate { num: 24000, den: 1001 }),
        crate::sequence_format::rate_at(1) == Some(FrameRate { num: 24, den: 1 }),
        crate::sequence_format::rate_at(2) == Some(FrameRate { num: 25, den: 1 }),
        crate::sequence_format::rate_at(3) == Some(FrameRate { num: 30000, den: 1001 }),
        crate::sequence_format::rate_at(4) == Some(FrameRate { num: 30, den: 1 }),
        crate::sequence_format::rate_at(5) == Some(FrameRate { num: 50, den: 1 }),
        crate::sequence_format::rate_at(6) == Some(FrameRate { num: 60000, den: 1001 }),
        crate::sequence_format::rate_at(7) == Some(FrameRate { num: 60, den: 1 }),
        forall|i: int| i < 0 || i > 7 ==> #[trigger] crate::sequence_format::rate_at(i) is None,
        crate::sequence_format::rate_labels() == seq![
            "23.98"@,
            "24"@,
            "25"@,
            "29.97"@,
            "30"@,
            "50"@,
            "59.94"@,
            "60"@,
        ],
{
}

/// The entry of a frame rate is the one that offers it, and there is none for
/// a rate that is not on offer.
pub proof fn lemma_rate_entry(rate: FrameRate)
    ensures
        match crate::sequence_format::rate_index(rate) {
            Some(i) => 0 <= i < 8 && crate::sequence_format::rate_at(i) == Some(rate),
            None => forall|i: int| #[trigger] crate::sequence_format::rate_at(i) != Some(rate),
        },
{
}

/// The presets on offer: PAL, NTSC, HD at 25 and at 30, UHD and DCI 4K.
pub proof fn lemma_presets_offered()
    ensures
        crate::sequence_format::preset_format(0) is None,
        crate::sequence_format::preset_format(1) == Some((720u32, 576u32, 25u32, 1u32)),
        crate::sequence_format::preset_format(2) == Some((720u32, 480u32, 30000u32, 1001u32)),
        crate::sequence_format::preset_format(3) == Some((1920u32, 1080u32, 25u32, 1u32)),
        crate::sequence_format::preset_format(4) == Some((1920u32, 1080u32, 30u32, 1u32)),
        crate::sequence_format::preset_format(5) == Some((3840u32, 2160u32, 25u32, 1u32)),
        crate::sequence_format::preset_format(6) == Some((4096u32, 2160u32, 24u32, 1u32)),
        forall|i: int| i < 1 || i > 6 ==> #[trigger] crate::sequence_format::preset_format(i) is None,
        crate::sequence_format::preset_keys() == seq![
            "seqprops.preset.custom"@,
            "seqprops.preset.pal"@,
            "seqprops.preset.ntsc"@,
            "seqprops.preset.hd_1080_25"@,
            "seqprops.preset.hd_1080_30"@,
            "seqprops.preset.uhd_4k"@,
            "seqprops.preset.dci_4k"@,
        ],
{
}

/// A format that no preset has is the custom one; the fields start at its
/// sides and its scan.
pub proof fn lemma_custom_seed(format: VideoFormat, interlaced: bool)
    ensures
        ({
            let s = crate::sequence_format::seed_of(format, interlaced);
            &&& s.width == format.width
            &&& s.height == format.height
            &&& s.interlaced == interlaced
            &&& (forall|i: int| #[trigger]
                crate::sequence_format::preset_format(i) != Some(
                    (format.width, format.height, format.rate.num, format.rate.den),
                )) ==> s.preset == 0
            &&& (forall|i: int| #[trigger]
                crate::sequence_format::rate_at(i) != Some(format.rate)) ==> s.rate is None
            &&& s.rate matches Some(i) ==> crate::sequence_format::rate_at(i as int) == Some(
                format.rate,
            )
        }),
{
}

/// The fields answer with the format they hold, a side being one at least, and
/// 25 frames a second without a rate.
pub proof fn lemma_fields_format(f: FieldsModel)
    ensures
        ({
            let v = f.format();
            &&& 1 <= f.width.value <= u32::MAX ==> v.width == f.width.value
            &&& 1 <= f.height.value <= u32::MAX ==> v.height == f.height.value
            &&& f.width.value < 1 ==> v.width == 1
            &&& f.height.value < 1 ==> v.height == 1
            &&& f.rate.selected is None ==> v.rate == (FrameRate { num: 25, den: 1 })
            &&& f.rate.selected matches Some(i) ==> i < 8 ==> crate::sequence_format::rate_at(
                i as int,
            ) == Some(v.rate)
            &&& f.rate.selected matches Some(i) ==> i >= 8 ==> v.rate == (FrameRate {
                num: 25,
                den: 1,
            })
        }),
        f.customized().preset.selected == Some(0usize),
        f.customized().width == f.width,
        f.customized().height == f.height,
        f.customized().rate == f.rate,
        f.customized().interlaced == f.interlaced,
        f.filled(0) == f,
        forall|i: usize| (#[trigger] f.filled(i)).interlaced == f.interlaced,
        forall|i: usize| (#[trigger] f.filled(i)).preset == f.preset,
{
}

/// The fields start at their seed, their sides within what pictures have.
pub proof fn lemma_fields_seeded(
    seed: SequenceFormatSeed,
    labels: Seq<Seq<char>>,
    label: Seq<char>,
)
    ensures
        ({
            let f = crate::sequence_format::seeded_fields(seed, labels, label);
            &&& f.preset.selected == Some(seed.preset)
            &&& f.width.value == seed.width
            &&& f.height.value == seed.height
            &&& f.rate.selected == seed.rate
            &&& f.interlaced.state == CheckState::Checked <==> seed.interlaced
            &&& f.width.min == 16 && f.width.max == 8192 && f.width.step == 2
            &&& f.height.min == 16 && f.height.max == 8192 && f.height.step == 2
            &&& f.preset.options.len() == labels.len()
            &&& f.rate.options.len() == 8
        }),
{
}

/// A sequence dialog asks for the name, the format and the scan it holds.
pub proof fn lemma_sequence_asked(m: crate::sequence_dialogs::SequenceDialogModel)
    ensures
        m.request().name == m.name,
        m.request().format == m.format.format(),
        m.request().interlaced <==> m.format.interlaced.state == CheckState::Checked,
{
}

/// The project file formats, and what each entry stands for.
pub proof fn lemma_project_formats()
    ensures
        crate::small_dialogs::project_format_labels() == seq![
            "OpenTimelineIO (.otio)"@,
            "Oak (.ove)"@,
            "Final Cut Pro XML (.fcpxml)"@,
        ],
        crate::small_dialogs::project_format_at(Some(0usize))
            == crate::small_dialogs::PROJECT_FORMAT_OTIO,
        crate::small_dialogs::project_format_at(Some(1usize))
            == crate::small_dialogs::PROJECT_FORMAT_OVE,
        crate::small_dialogs::project_format_at(Some(2usize))
            == crate::small_dialogs::PROJECT_FORMAT_FCPXML,
        crate::small_dialogs::project_format_at(None) == crate::small_dialogs::PROJECT_FORMAT_OTIO,
        crate::small_dialogs::sync_keys() == seq![
            "multicam.sync.audio"@,
            "multicam.sync.timecode"@,
            "multicam.sync.none"@,
        ],
{
}

/// The wizard's angles are the rows that are checked, in order; a press on a
/// row checks or unchecks it and no other.
pub proof fn lemma_wizard_rows(rows: Seq<(u64, Seq<char>, bool)>, index: int)
    ensures
        crate::small_dialogs::checked_footage(rows) == rows.filter(
            |r: (u64, Seq<char>, bool)| r.2,
        ).map_values(|r: (u64, Seq<char>, bool)| (r.0, r.1)),
        0 <= index < rows.len() ==> {
            let now = crate::small_dialogs::toggled_rows(rows, index);
            &&& now.len() == rows.len()
            &&& now[index].0 == rows[index].0
            &&& now[index].1 == rows[index].1
            &&& now[index].2 == !rows[index].2
            &&& forall|i: int| 0 <= i < rows.len() && i != index ==> #[trigger] now[i] == rows[i]
        },
        !(0 <= index < rows.len()) ==> crate::small_dialogs::toggled_rows(rows, index) == rows,
    decreases rows.len(),
{
    let on = |r: (u64, Seq<char>, bool)| r.2;
    let entry = |r: (u64, Seq<char>, bool)| (r.0, r.1);
    reveal(Seq::filter);
    if rows.len() > 0 {
        let init = rows.drop_last();
        lemma_wizard_rows(init, -1);
        if rows.last().2 {
            assert(rows.filter(on) =~= init.filter(on).push(rows.last()));
            assert(rows.filter(on).map_values(entry) =~= init.filter(on).map_values(entry).push(
                entry(rows.last()),
            ));
        } else {
            assert(rows.filter(on) =~= init.filter(on));
        }
    } else {
        assert(rows.filter(on).map_values(entry) =~= Seq::empty());
    }
}

/// A field given a value takes it as it settles, and keeps its range.
pub proof fn lemma_field_given(field: IntField, v: int)
    requires
        field.min <= field.max,
    ensures
        ({
            let now = crate::forms::with_value(field, v);
            &&& now.value == crate::forms::settled(field, v)
            &&& now.control == field.control
            &&& now.min == field.min
            &&& now.max == field.max
            &&& now.step == field.step
        }),
{
    crate::forms::lemma_settled(field, v);
}

/// The lists of the export dialog keep their order: the labels of the formats,
/// and the ids and names of the sequences.
pub proof fn lemma_export_lists(
    formats: Seq<FormatModel>,
    sequences: Seq<crate::export_dialog::SequenceEntry>,
    i: int,
)
    ensures
        crate::export_dialog::format_labels(formats).len() == formats.len(),
        0 <= i < formats.len() ==> crate::export_dialog::format_labels(formats)[i]
            == formats[i].name + " (."@ + formats[i].extension + ")"@,
        crate::export_dialog::entry_ids(sequences).len() == sequences.len(),
        crate::export_dialog::entry_names(sequences).len() == sequences.len(),
        0 <= i < sequences.len() ==> crate::export_dialog::entry_ids(sequences)[i]
            == sequences[i].id && crate::export_dialog::entry_names(sequences)[i]
            == sequences[i].name@,
{
}

/// A backend is found by its name whatever the case of the letters, the first
/// that has it; one that is not there is the first entry. A divider is found
/// by its value.
pub proof fn lemma_choices_found(
    backends: Seq<Seq<char>>,
    stored: Seq<char>,
    dividers: Seq<i64>,
    divider: i64,
    i: int,
)
    requires
        backends.len() <= usize::MAX,
        dividers.len() <= usize::MAX,
    ensures
        0 <= i < backends.len() && crate::text::same_but_for_case(backends[i], stored) && (forall|
            j: int,
        |
            0 <= j < i ==> !crate::text::same_but_for_case(#[trigger] backends[j], stored))
            ==> crate::preferences::backend_index(backends, stored) == i,
        (forall|j: int|
            0 <= j < backends.len() ==> !crate::text::same_but_for_case(
                #[trigger] backends[j],
                stored,
            )) ==> crate::preferences::backend_index(backends, stored) == 0,
        0 <= i < dividers.len() && dividers[i] == divider && (forall|j: int|
            0 <= j < i ==> #[trigger] dividers[j] != divider) ==> crate::preferences::divider_index(
            dividers,
            divider,
        ) == i,
        !dividers.contains(divider) ==> crate::preferences::divider_index(dividers, divider) == 0,
{
    let p = crate::forms::like(stored);
    crate::forms::lemma_first_where(backends, p);
    match crate::forms::first_where(backends, p) {
        Some(k) => {
            assert(p(backends[k]));
            if 0 <= i < backends.len() && crate::text::same_but_for_case(backends[i], stored) {
                assert(p(backends[i]));
            }
        },
        None => {
            if 0 <= i < backends.len() {
                assert(!p(backends[i]));
            }
        },
    }
    let q = crate::forms::number_is(divider);
    crate::forms::lemma_first_where(dividers, q);
    match crate::forms::first_where(dividers, q) {
        Some(k) => {
            assert(q(dividers[k]));
            assert(dividers.contains(dividers[k]));
            if 0 <= i < dividers.len() && dividers[i] == divider {
                assert(q(dividers[i]));
            }
        },
        None => {
            if 0 <= i < dividers.len() {
                assert(!q(dividers[i]));
            }
        },
    }
}

/// The sequence selected at first is the one asked for, and the first one
/// when it is not there or none is asked for.
pub proof fn lemma_sequence_preselected(ids: Seq<u64>, asked: Option<u64>, i: int)
    requires
        ids.len() <= usize::MAX,
        ids.no_duplicates(),
    ensures
        0 <= i < ids.len() && asked == Some(ids[i]) ==> crate::export_dialog::preselected(
            ids,
            asked,
        ) == Some(i as usize),
        ids.len() > 0 && (asked is None || !ids.contains(asked.unwrap()))
            ==> crate::export_dialog::preselected(ids, asked) == Some(0usize),
        ids.len() == 0 ==> crate::export_dialog::preselected(ids, asked) is None,
{
    if let Some(id) = asked {
        let p = |e: u64| e == id;
        crate::forms::lemma_first_where(ids, p);
        match crate::forms::first_where(ids, p) {
            Some(k) => {
                assert(p(ids[k]));
                assert(ids.contains(ids[k]));
                if 0 <= i < ids.len() && asked == Some(ids[i]) {
                    assert(p(ids[i]));
                }
            },
            None => {
                if 0 <= i < ids.len() {
                    assert(!p(ids[i]));
                }
            },
        }
    }
}

} // verus!
