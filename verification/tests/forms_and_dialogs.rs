//! The form fields, the sequence dialogs and the small dialogs.

use oak_app::checkbox::CheckState;
use oak_app::export_dialog::{compatible_audio_codecs, compatible_video_codecs};
use oak_app::forms::{
    clamp, number_position, text_position, text_position_ignoring_case, IntField, Label, PathField,
    TextValue,
};
use oak_app::preferences::{backend_label, proxy_divider_label};
use oak_app::proxy_dialog::{divider_label, proxy_state_label, ProxyMediaState};
use oak_app::sequence_dialogs::{
    DropSequenceChoiceContent, FormatLabels, NewProjectContent, NewSequenceContent, ProbedVideo,
    SequencePropertiesContent, SequenceRequest,
};
use oak_app::sequence_format::{
    sequence_preset_format, sequence_preset_keys, sequence_preset_options, sequence_rate,
    sequence_rate_options, sequence_rate_position, FrameRate, SequenceFormatSeed, VideoFormat,
    SEQUENCE_PRESET_COUNT, SEQUENCE_RATE_COUNT,
};
use oak_app::small_dialogs::{
    wizard_sync_keys, AboutContent, ExportProjectDialogContent, MulticamWizardContent,
    RenameContent, UpdateDialogContent, WizardFootage, PROJECT_FORMAT_FCPXML, PROJECT_FORMAT_OTIO,
    PROJECT_FORMAT_OVE,
};

fn english_presets() -> Vec<String> {
    vec![
        "Custom".to_string(),
        "SD PAL (720×576, 25 fps)".to_string(),
        "SD NTSC (720×480, 29.97 fps)".to_string(),
        "HD 1080p25 (1920×1080)".to_string(),
        "HD 1080p30 (1920×1080)".to_string(),
        "4K UHD (3840×2160, 25 fps)".to_string(),
        "4K DCI (4096×2160, 24 fps)".to_string(),
    ]
}

fn labels() -> FormatLabels {
    FormatLabels { presets: english_presets(), interlaced: "Interlaced".to_string() }
}

fn format(width: u32, height: u32, num: u32, den: u32) -> VideoFormat {
    VideoFormat { width, height, rate: FrameRate { num, den } }
}

fn key(label: Label) -> String {
    match label {
        Label::Key(k) => format!("key:{k}"),
        Label::Text(t) => t,
    }
}

#[test]
fn path_field_enable_toggles_and_with_enabled() {
    let mut field = PathField::new("");
    field.set_enabled(true);
    assert!(field.enabled);
    field.set_path("  /tmp/oak/profile.icc  ");
    assert_eq!(field.path(), "  /tmp/oak/profile.icc  ");
    field.set_enabled(false);
    assert!(!field.enabled);

    let disabled = PathField::new("").with_enabled(false);
    assert!(!disabled.enabled);
}

#[test]
fn helper_fallbacks_and_labels() {
    assert_eq!(backend_label("opengl"), "OpenGL");
    assert_eq!(backend_label("metal"), "Metal");
    assert_eq!(backend_label("vulkan"), "Vulkan");
    assert_eq!(backend_label("none"), "None (off)");
    assert_eq!(backend_label("software"), "software");

    assert_eq!(key(divider_label(1)), "key:proxydialog.resolution.custom");
    assert_eq!(key(divider_label(2)), "key:proxydialog.resolution.half");
    assert_eq!(key(divider_label(4)), "key:proxydialog.resolution.quarter");
    assert_eq!(key(divider_label(8)), "key:proxydialog.resolution.eighth");
    assert_eq!(key(divider_label(16)), "1/16");

    assert_eq!(proxy_state_label(ProxyMediaState::Missing), "proxydialog.state.missing");
    assert_eq!(proxy_state_label(ProxyMediaState::Generating), "proxydialog.state.generating");
    assert_eq!(proxy_state_label(ProxyMediaState::Ready), "proxydialog.state.ready");
    assert_eq!(proxy_state_label(ProxyMediaState::Failed), "proxydialog.state.failed");

    // A container without a table falls back to H.264 / AAC, one with a
    // table lists what is in it.
    assert_eq!(compatible_video_codecs(None), vec![1]);
    assert_eq!(compatible_audio_codecs(None), vec![12]);
    assert!(!compatible_video_codecs(Some(vec![1, 2])).is_empty());
    assert_eq!(compatible_video_codecs(Some(vec![1, 2])), vec![1, 2]);
    assert_eq!(compatible_audio_codecs(Some(vec![12, 13])), vec![12, 13]);
}

#[test]
fn the_dividers_of_the_preferences_have_labels() {
    assert_eq!(key(proxy_divider_label(1)), "key:preferences.proxy.full");
    assert_eq!(key(proxy_divider_label(2)), "1/2");
    assert_eq!(key(proxy_divider_label(16)), "1/16");
}

#[test]
fn four_k_presets_are_offered_and_resolve() {
    let options = sequence_preset_options(english_presets());
    let labels: Vec<&str> = options.iter().map(|o| o.label.as_str()).collect();
    assert_eq!(options.len(), 7);
    assert_eq!(sequence_preset_format(5), Some((3840, 2160, 25, 1)));
    assert_eq!(sequence_preset_format(6), Some((4096, 2160, 24, 1)));
    assert_eq!(sequence_preset_format(7), None);
    assert!(labels[5].contains("3840×2160"), "4K UHD label: {}", labels[5]);
    assert!(labels[6].contains("4096×2160"), "4K DCI label: {}", labels[6]);
    assert_eq!(sequence_preset_keys().len(), 7);
}

#[test]
fn the_custom_entry_has_no_format() {
    assert_eq!(sequence_preset_format(0), None);
    assert_eq!(sequence_preset_format(1), Some((720, 576, 25, 1)));
    assert_eq!(sequence_preset_format(2), Some((720, 480, 30000, 1001)));
    assert_eq!(sequence_preset_format(3), Some((1920, 1080, 25, 1)));
    assert_eq!(sequence_preset_format(4), Some((1920, 1080, 30, 1)));
}

#[test]
fn seed_from_format_matches_presets_and_falls_back_to_custom() {
    let hd = format(1920, 1080, 25, 1);
    let seed = SequenceFormatSeed::from_format(&hd, false);
    assert_eq!(seed.preset, 3);
    assert_eq!((seed.width, seed.height), (1920, 1080));
    assert_eq!(seed.rate, Some(2));

    let custom = format(512, 512, 1234, 100);
    let seed = SequenceFormatSeed::from_format(&custom, true);
    assert_eq!(seed.preset, 0);
    assert_eq!((seed.width, seed.height), (512, 512));
    assert_eq!(seed.rate, None);
    assert!(seed.interlaced);

    let dci = format(4096, 2160, 24, 1);
    let seed = SequenceFormatSeed::from_format(&dci, false);
    assert_eq!(seed.preset, 6, "4K DCI resolves to its preset");
}

#[test]
fn properties_seed_matches_all_presets_including_4k() {
    for index in 1..=SEQUENCE_PRESET_COUNT {
        let (w, h, num, den) = sequence_preset_format(index).unwrap();
        let seed = SequenceFormatSeed::from_format(&format(w, h, num, den), false);
        assert_eq!(seed.preset, index, "preset {index} reselects itself");
    }
}

#[test]
fn every_rate_is_found_at_its_place() {
    for index in 0..SEQUENCE_RATE_COUNT {
        let rate = sequence_rate(index).unwrap();
        assert_eq!(sequence_rate_position(rate), Some(index));
    }
    assert_eq!(sequence_rate(SEQUENCE_RATE_COUNT), None);
    assert_eq!(sequence_rate_position(FrameRate { num: 1, den: 1 }), None);
    assert_eq!(sequence_rate_options().len(), SEQUENCE_RATE_COUNT);
}

#[test]
fn sequence_format_fields_presets_and_custom() {
    let mut content = NewSequenceContent::new("Sequence 1", &labels());

    assert_eq!(content.format(), format(1920, 1080, 25, 1));
    assert!(!content.interlaced());
    assert!(!content.name().is_empty());

    content.format.preset_selected(6);
    assert_eq!(content.format(), format(4096, 2160, 24, 1));
    // The custom entry itself leaves the fields untouched.
    content.format.preset_selected(0);
    assert_eq!(content.format(), format(4096, 2160, 24, 1));

    // Editing any field snaps the preset back to custom.
    content.format.preset.set_selected(Some(6));
    content.format.width_changed(1280);
    assert_eq!(content.format.preset.selected(), Some(0));
    content.format.height_changed(720);
    content.format.rate.set_selected(Some(7));
    content.format.rate_selected();
    assert_eq!(content.format(), format(1280, 720, 60, 1));
    assert_eq!(content.format.preset.selected(), Some(0));

    // The interlaced box is request-only: the host accepts the state back.
    content.format.interlaced_toggled(CheckState::Checked);
    assert!(content.format.interlaced());
    assert!(content.interlaced());

    content.name.set_value("Opening");
    assert_eq!(content.name(), "Opening");

    let result = content.commit(Err("no project".to_string()));
    assert!(result.is_err());
    content.set_error(Some("boom".to_string()));
    assert_eq!(content.error().cloned(), Some("boom".to_string()));
    content.set_error(None);
    assert!(content.error().is_none());
}

#[test]
fn new_sequence_and_properties_commit_paths() {
    let seed = SequenceFormatSeed::from_format(&format(512, 512, 1234, 100), true);
    let mut seeded = NewSequenceContent::new_seeded("Sequence 1", seed, &labels());
    // A rate that is not on offer falls back to 25.
    assert_eq!(seeded.format(), format(512, 512, 25, 1));
    assert!(seeded.interlaced());
    assert!(seeded.commit(Err("no project".to_string())).is_err());

    let fresh = NewSequenceContent::new("Sequence 1", &labels());
    assert_eq!(fresh.format(), format(1920, 1080, 25, 1));

    // A missing sequence falls back to the custom HD seed with a blank name.
    let mut props = SequencePropertiesContent::new(42, None, &labels());
    assert!(props.name().is_empty());
    assert_eq!(props.format(), format(1920, 1080, 25, 1));
    assert!(!props.interlaced());
    assert!(props.commit(Err("no such sequence".to_string())).is_err());
    props.set_error(Some("boom".to_string()));
    assert!(props.error().is_some());
}

#[test]
fn an_accepted_commit_clears_the_error() {
    let mut content = NewSequenceContent::new("Sequence 1", &labels());
    content.set_error(Some("boom".to_string()));
    assert_eq!(content.commit(Ok(())), Ok(()));
    assert!(content.error().is_none());
}

#[test]
fn properties_show_the_stored_sequence() {
    let stored = SequenceRequest {
        name: "Main".to_string(),
        format: format(4096, 2160, 24, 1),
        interlaced: true,
    };
    let props = SequencePropertiesContent::new(7, Some(&stored), &labels());
    assert_eq!(props.sequence_id, 7);
    assert_eq!(props.format.preset.selected(), Some(6));
    let request = props.request();
    assert_eq!(request.name, "Main");
    assert_eq!(request.format, stored.format);
    assert!(request.interlaced);
}

#[test]
fn new_project_dialog_edits_and_renders() {
    let mut content = NewProjectContent::new("Project 1", &labels());
    assert!(!content.name().is_empty());
    assert_eq!(content.format(), format(1920, 1080, 25, 1));
    assert!(!content.interlaced());

    content.format.preset_selected(5);
    assert_eq!(content.format(), format(3840, 2160, 25, 1));
    content.name.set_value("My Project");
    assert_eq!(content.name(), "My Project");
}

#[test]
fn multicam_wizard_selection_and_render() {
    let footage = vec![
        WizardFootage { id: 11, name: "cam_a.mov".to_string() },
        WizardFootage { id: 12, name: "intro.mov".to_string() },
    ];
    let sync: Vec<String> = wizard_sync_keys();
    let mut wizard = MulticamWizardContent::new("Multicam", sync, footage);

    assert!(wizard.has_rows());
    assert_eq!(wizard.sync_mode(), 0);
    assert!(!wizard.name().is_empty());
    assert!(wizard.selection().is_empty());

    // Toggling a row that is not there is nothing; a row toggles both ways.
    wizard.toggle_row(99);
    assert!(wizard.selection().is_empty());
    wizard.toggle_row(1);
    let selection = wizard.selection();
    assert_eq!(selection.len(), 1);
    assert_eq!((selection[0].id, selection[0].name.as_str()), (12, "intro.mov"));
    wizard.toggle_row(1);
    assert!(wizard.selection().is_empty());

    wizard.sync.set_selected(Some(2));
    assert_eq!(wizard.sync_mode(), 2);

    wizard.rows.clear();
    assert!(!wizard.has_rows());
}

#[test]
fn lightweight_dialog_contents_render() {
    let mut export = ExportProjectDialogContent::new("Format");
    assert_eq!(export.format(), PROJECT_FORMAT_OTIO);
    assert_eq!(export.extension(), "otio");
    export.format.set_selected(Some(1));
    assert_eq!(export.format(), PROJECT_FORMAT_OVE);
    assert_eq!(export.extension(), "ove");
    export.format.set_selected(Some(2));
    assert_eq!(export.format(), PROJECT_FORMAT_FCPXML);
    assert_eq!(export.extension(), "fcpxml");
    export.format.set_selected(Some(99));
    assert_eq!(export.format(), PROJECT_FORMAT_OTIO);
    assert_eq!(export.extension(), "otio");

    let probed = ProbedVideo {
        width: 1920,
        height: 1080,
        rate: FrameRate { num: 30000, den: 1001 },
        interlaced: true,
    };
    let choice = DropSequenceChoiceContent::new(Some(probed));
    assert_eq!(choice.probed(), Some(probed));
    let audio_only = DropSequenceChoiceContent::new(None);
    assert!(audio_only.probed().is_none());

    let rename = RenameContent::new("Old Name");
    assert_eq!(rename.value(), "Old Name");
}

#[test]
fn a_drop_describes_the_probed_video() {
    let probed = ProbedVideo {
        width: 1280,
        height: 720,
        rate: FrameRate { num: 25, den: 1 },
        interlaced: false,
    };
    let choice = DropSequenceChoiceContent::new(Some(probed));
    let body = choice.body("25.00", "Interlaced", "No video");
    assert_eq!(body, "1280 × 720, 25.00");
    let both = ProbedVideo { interlaced: true, ..probed };
    assert_eq!(
        DropSequenceChoiceContent::new(Some(both)).body("25.00", "Interlaced", "No video"),
        "1280 × 720, 25.00 · Interlaced"
    );
    assert_eq!(
        DropSequenceChoiceContent::new(None).body("25.00", "Interlaced", "No video"),
        "No video"
    );
    assert_eq!(choice.seed().preset, 0);
    assert_eq!((choice.seed().width, choice.seed().height), (1280, 720));
    assert_eq!(DropSequenceChoiceContent::new(None).seed(), SequenceFormatSeed::hd_1080p25());
}

#[test]
fn the_update_dialog_fills_its_pattern() {
    let dialog = UpdateDialogContent::new("2.0.0", "", "No notes");
    assert_eq!(dialog.notes, "No notes");
    let text = dialog.available("{version} replaces {current}", "1.0.0");
    assert_eq!(text, "2.0.0 replaces 1.0.0");
    let noted = UpdateDialogContent::new("2.0.0", "Faster.", "No notes");
    assert_eq!(noted.notes, "Faster.");
}

#[test]
fn integer_fields_clamp_and_settle_on_their_steps() {
    let mut field = IntField { control: 4, min: 120, max: 2160, step: 8, value: 180 };
    assert_eq!(field.value, 180);
    field.set_value(1000);
    assert_eq!(field.value, 1000);
    field.set_value(100);
    assert_eq!(field.value, 120, "clamps to the minimum");
    field.set_value(5000);
    assert_eq!(field.value, 2160, "clamps to the maximum");
    field.set_value(180);
    assert_eq!(field.value, 184, "half a step goes up");
    field.set_value(179);
    assert_eq!(field.value, 176);
    let mut wide = IntField { control: 4, min: i64::MIN, max: i64::MAX, step: 3, value: 0 };
    wide.set_value(i64::MAX);
    assert_eq!(wide.value, i64::MAX);
    wide.set_value(i64::MIN);
    assert_eq!(wide.value, i64::MIN);
    let mut stuck = IntField { control: 4, min: 0, max: 9, step: 0, value: 0 };
    stuck.set_value(7);
    assert_eq!(stuck.value, 7);
}

#[test]
fn lookups_find_the_first_entry() {
    let list = vec!["a".to_string(), "B".to_string(), "b".to_string()];
    assert_eq!(text_position(&list, "b"), Some(2));
    assert_eq!(text_position_ignoring_case(&list, "b"), Some(1));
    assert_eq!(text_position(&list, "c"), None);
    assert_eq!(number_position(&vec![4, 5, 5], 5), Some(1));
    assert_eq!(number_position(&vec![4, 5, 5], 6), None);
    assert_eq!(clamp(5, 0, 3), 3);
    assert_eq!(clamp(-5, 0, 3), 0);
    assert_eq!(clamp(2, 0, 3), 2);
    let mut text = TextValue::new("a");
    text.set_value("b");
    assert_eq!(text.value(), "b");
}

#[test]
fn the_about_title_names_the_version() {
    assert_eq!(AboutContent::new().title("0.3.1"), "Oak Video Editor 0.3.1");
}
