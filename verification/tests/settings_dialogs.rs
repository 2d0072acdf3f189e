//! The preferences, the export, proxy and project dialogs.

use oak_app::checkbox::CheckState;
use oak_app::displaycolor::{OutputGamut, OutputTransfer};
use oak_app::export_dialog::{
    initial_format, offered_formats, ContainerCodecs, ExportDialogContent, ExportFormat,
    ExportLabels, NamedCodec, SequenceEntry,
};
use oak_app::forms::ConfigValue;
use oak_app::keyboard_tab::{ActionPath, KeyboardEvent, KeyboardTabContent};
use oak_app::preferences::{
    device_combo, forwarded_general, forwarded_keyboard, tab_label, Language, PreferenceLabels,
    PreferenceLists, PreferencesContent, PreferencesDialogContent, PreferencesEvent,
    PreferencesTab, Setting, SettingWrite, StoredPreferences,
};
use oak_app::project_properties::{
    ColorSettings, ProjectLabels, ProjectPropertiesContent, ProjectState, WorkingColorSpace,
};
use oak_app::proxy_dialog::{
    proxy_presets, ProxyAction, ProxyDialogContent, ProxyFootageRow, ProxyLabels, ProxyMediaState,
    ProxyParamsUi, ProxySeed,
};

fn owned(list: &[&str]) -> Vec<String> {
    list.iter().map(|s| s.to_string()).collect()
}

const MP4: i32 = 2;

fn formats() -> Vec<ExportFormat> {
    vec![
        ExportFormat { id: 1, name: "Matroska".to_string(), extension: "mkv".to_string() },
        ExportFormat { id: MP4, name: "MPEG-4".to_string(), extension: "mp4".to_string() },
        ExportFormat { id: 6, name: "QuickTime".to_string(), extension: "mov".to_string() },
    ]
}

fn codec(code: i32, name: &str) -> NamedCodec {
    NamedCodec { code, name: name.to_string() }
}

fn mp4_codecs() -> ContainerCodecs {
    ContainerCodecs {
        video: vec![codec(1, "H.264"), codec(3, "H.265")],
        audio: vec![codec(12, "AAC")],
    }
}

fn mov_codecs() -> ContainerCodecs {
    ContainerCodecs { video: vec![codec(5, "ProRes")], audio: vec![codec(14, "PCM")] }
}

fn export_labels() -> ExportLabels {
    ExportLabels {
        format: "Format".to_string(),
        video_codec: "Video".to_string(),
        audio_codec: "Audio".to_string(),
        color: "Color".to_string(),
        sdr: "SDR".to_string(),
        hdr: "HDR".to_string(),
        range: "Range".to_string(),
        range_all: "All".to_string(),
        range_in_out: "In/Out".to_string(),
        sequence: "Sequence".to_string(),
    }
}

#[test]
fn export_dialog_format_extension_and_settings() {
    let mut content = ExportDialogContent::new(formats(), MP4, &mp4_codecs(), &export_labels());

    assert_eq!(content.format(), MP4);
    assert_eq!(content.extension(), "mp4");

    for (index, entry) in formats().iter().enumerate() {
        content.format.set_selected(Some(index));
        assert_eq!(content.format(), entry.id);
        assert_eq!(content.extension(), entry.extension);
        assert_eq!(content.format_at(index), entry.id);
    }

    // No selection and a stale selection both fall back to MP4.
    content.format.set_selected(None);
    assert_eq!(content.format(), MP4);
    assert_eq!(content.extension(), "mp4");
    content.format.set_selected(Some(99));
    assert_eq!(content.format(), MP4);
    assert_eq!(content.extension(), "mp4");

    // Rebuilding for another container selects its first codecs.
    let other = 6;
    content.apply_format(other, &mov_codecs());
    assert_eq!(content.active_format, other);
    assert_eq!(content.video_codec.selected(), Some(0));
    assert_eq!(content.audio_codec.selected(), Some(0));

    content.resolution_w.set_value(1920);
    content.resolution_h.set_value(1080);
    content.bitrate.set_value(8_000_000);
    let settings = content.settings();
    assert_eq!(settings.format, other);
    assert_eq!(settings.size, (1920, 1080));
    assert_eq!(settings.video_bitrate, 8_000_000);
    assert_eq!(settings.bit_depth, 8);
    assert!(!settings.in_out);
    assert_eq!(settings.video_codec, 5);
    assert_eq!(settings.audio_codec, 14);

    // HDR and the in/out range flip the color and range fields.
    content.color.set_selected(Some(1));
    content.range.set_selected(Some(1));
    let settings = content.settings();
    assert_eq!(settings.bit_depth, 10);
    assert_eq!(settings.color_primaries, 9);
    assert_eq!(settings.color_transfer, 16);
    assert_eq!(settings.color_space, 9);
    assert!(settings.in_out);

    // A zero side keeps the sequence size; an unselected codec is the first.
    content.resolution_w.set_value(0);
    content.video_codec.set_selected(None);
    content.audio_codec.set_selected(None);
    let settings = content.settings();
    assert_eq!(settings.size, (0, 0));
    assert_eq!(settings.video_codec, 5);
    assert_eq!(settings.audio_codec, 14);

    // A stale codec selection falls back to H.264 / AAC.
    content.video_codec.set_selected(Some(99));
    content.audio_codec.set_selected(Some(99));
    let settings = content.settings();
    assert_eq!(settings.video_codec, 1);
    assert_eq!(settings.audio_codec, 12);
}

#[test]
fn export_dialog_sequence_picker() {
    let mut content = ExportDialogContent::new(formats(), MP4, &mp4_codecs(), &export_labels());
    let sequences = vec![
        SequenceEntry { id: 7, name: "Opening".to_string() },
        SequenceEntry { id: 9, name: "Finale".to_string() },
    ];
    content.set_sequences(&sequences, Some(9));
    assert_eq!(content.selected_sequence(), Some(9), "the known preselection wins");
    content.set_sequences(&sequences, Some(42));
    assert_eq!(
        content.selected_sequence(),
        Some(7),
        "an unknown preselection falls back to the first entry"
    );
    content.set_sequences(&Vec::new(), None);
    assert_eq!(content.selected_sequence(), None, "an empty project leaves nothing to export");
}

#[test]
fn export_path_and_formats() {
    let mut content = ExportDialogContent::new(formats(), MP4, &mp4_codecs(), &export_labels());
    content.set_path("/tmp/out.mp4");
    assert_eq!(content.path(), "/tmp/out.mp4");
    assert_eq!(initial_format(&formats(), MP4), MP4);
    assert_eq!(initial_format(&formats(), 77), 1);
    assert_eq!(initial_format(&Vec::new(), MP4), MP4);
    assert_eq!(offered_formats(formats()).len(), 3);
}

fn stored() -> StoredPreferences {
    StoredPreferences {
        backend: "opengl".to_string(),
        bit_depth: "10".to_string(),
        language: "en-US".to_string(),
        dark: true,
        check_updates: true,
        cache_dir: String::new(),
        cache_ahead: 120,
        use_proxy: true,
        divider: 1,
        hw_decode: true,
        color_mode: "icc".to_string(),
        custom_icc: String::new(),
        snapshot_interval: 60,
        output_device: String::new(),
        input_device: String::new(),
        storage_backend: "sqlite".to_string(),
        pg_url: String::new(),
    }
}

fn lists() -> PreferenceLists {
    PreferenceLists {
        backends: owned(&["opengl", "metal", "vulkan", "none"]),
        languages: vec![
            Language { code: "en-US".to_string(), name: "English".to_string() },
            Language { code: "zh-CN".to_string(), name: "中文".to_string() },
        ],
        dividers: vec![1, 2, 4, 8],
        output_devices: owned(&["Speakers", "Headphones"]),
        input_devices: owned(&["Microphone"]),
    }
}

fn preference_labels() -> PreferenceLabels {
    PreferenceLabels {
        backend: "Backend".to_string(),
        ten_bit: "10 bit".to_string(),
        eight_bit: "8 bit".to_string(),
        language: "Language".to_string(),
        dark: "Dark".to_string(),
        light: "Light".to_string(),
        check_updates: "Check".to_string(),
        use_proxy: "Proxy".to_string(),
        dividers: owned(&["Full", "1/2", "1/4", "1/8"]),
        hw_decode: "Hardware".to_string(),
        display_icc: "ICC".to_string(),
        default_device: "Default".to_string(),
        output: "Output".to_string(),
        input: "Input".to_string(),
    }
}

fn text_of(write: &SettingWrite, setting: Setting) -> String {
    assert_eq!(write.setting, setting);
    match &write.value {
        ConfigValue::Text(t) => t.clone(),
        other => panic!("{other:?}"),
    }
}

fn number_of(write: &SettingWrite, setting: Setting) -> i64 {
    assert_eq!(write.setting, setting);
    match &write.value {
        ConfigValue::Number(n) => *n,
        other => panic!("{other:?}"),
    }
}

fn flag_of(write: &SettingWrite, setting: Setting) -> bool {
    assert_eq!(write.setting, setting);
    match &write.value {
        ConfigValue::Flag(b) => *b,
        other => panic!("{other:?}"),
    }
}

#[test]
fn preferences_general_rows_write_the_config() {
    let mut p = PreferencesContent::new(&stored(), lists(), &preference_labels());

    assert_eq!(text_of(&p.backend_selected(2).unwrap(), Setting::RendererBackend), "vulkan");
    assert_eq!(text_of(&p.backend_selected(3).unwrap(), Setting::RendererBackend), "none");
    assert!(p.backend_selected(42).is_none());

    assert_eq!(text_of(&p.bit_depth_selected(1), Setting::DisplayBitDepth), "8");
    assert_eq!(text_of(&p.bit_depth_selected(0), Setting::DisplayBitDepth), "10");

    let (write, event) = p.language_selected(0).unwrap();
    assert_eq!(text_of(&write, Setting::Language), "en-US");
    assert_eq!(event, PreferencesEvent::LanguageChanged);
    assert!(p.language_selected(2).is_none());

    let (write, event) = p.theme_selected(1);
    assert!(!flag_of(&write, Setting::DarkTheme));
    assert_eq!(event, PreferencesEvent::ThemeChanged(false));
    assert!(flag_of(&p.theme_selected(0).0, Setting::DarkTheme));

    assert_eq!(number_of(&p.cache_ahead_changed(300), Setting::CacheAheadFrames), 300);
    assert_eq!(number_of(&p.cache_ahead_changed(400), Setting::CacheAheadFrames), 400);

    let write = p.use_proxy_toggled(CheckState::Unchecked);
    assert!(!flag_of(&write, Setting::UseProxyMedia));
    assert_eq!(p.use_proxy.state(), CheckState::Unchecked);
    assert!(flag_of(&p.use_proxy_toggled(CheckState::Checked), Setting::UseProxyMedia));
    assert!(!flag_of(&p.hw_decode_toggled(CheckState::Unchecked), Setting::HardwareDecoding));
    assert!(!flag_of(&p.check_updates_toggled(CheckState::Unchecked), Setting::CheckForUpdates));
    assert!(flag_of(&p.check_updates_toggled(CheckState::Checked), Setting::CheckForUpdates));

    assert_eq!(number_of(&p.divider_selected(3).unwrap(), Setting::ProxyDivider), 8);
    assert!(p.divider_selected(4).is_none());

    let (write, event) = p.display_icc_toggled(CheckState::Unchecked);
    assert_eq!(text_of(&write, Setting::DisplayColorMode), "off");
    assert_eq!(event, PreferencesEvent::DisplayColorChanged);
    let (write, _) = p.display_icc_toggled(CheckState::Checked);
    assert_eq!(text_of(&write, Setting::DisplayColorMode), "icc");

    assert_eq!(number_of(&p.snapshot_interval_changed(300), Setting::SnapshotInterval), 300);

    // The first entry is the system default, an empty name.
    assert_eq!(text_of(&p.audio_output_selected(0), Setting::AudioOutput), "");
    assert_eq!(text_of(&p.audio_output_selected(1), Setting::AudioOutput), "Speakers");
    assert_eq!(text_of(&p.audio_input_selected(0), Setting::AudioInput), "");
    assert_eq!(text_of(&p.audio_input_selected(1), Setting::AudioInput), "Microphone");
    assert_eq!(text_of(&p.audio_input_selected(2), Setting::AudioInput), "");

    assert_eq!(text_of(&p.storage_backend_selected(1), Setting::StorageBackend), "pg");
    assert!(p.storage_is_pg);
    assert_eq!(text_of(&p.storage_backend_selected(0), Setting::StorageBackend), "sqlite");
    assert!(!p.storage_is_pg);
}

#[test]
fn preferences_seed_from_non_default_config() {
    let other = StoredPreferences {
        backend: "vaporware".to_string(),
        bit_depth: "8".to_string(),
        use_proxy: false,
        hw_decode: false,
        color_mode: "off".to_string(),
        storage_backend: "pg".to_string(),
        divider: 3,
        cache_dir: "/tmp/oak-seeded-cache".to_string(),
        custom_icc: "/tmp/oak-seeded.icc".to_string(),
        pg_url: "user@db/oak".to_string(),
        cache_ahead: 4,
        ..stored()
    };
    let p = PreferencesContent::new(&other, lists(), &preference_labels());
    assert_eq!(p.backend.selected(), Some(0));
    assert_eq!(p.display_bit_depth.selected(), Some(1));
    assert_eq!(p.use_proxy.state(), CheckState::Unchecked);
    assert_eq!(p.hw_decode.state(), CheckState::Unchecked);
    assert_eq!(p.display_icc.state(), CheckState::Unchecked);
    assert_eq!(p.storage_backend.selected(), Some(1));
    assert!(p.storage_is_pg);
    assert_eq!(p.proxy_divider.selected(), Some(0));
    assert_eq!(p.cache_dir(), "/tmp/oak-seeded-cache");
    assert_eq!(p.display_icc_path.path(), "/tmp/oak-seeded.icc");
    assert_eq!(p.storage_pg_url.path(), "user@db/oak");
    assert_eq!(p.cache_ahead.value, 8);

    let known = StoredPreferences {
        backend: "metal".to_string(),
        bit_depth: "10".to_string(),
        divider: 4,
        storage_backend: "sqlite".to_string(),
        cache_ahead: 5000,
        ..stored()
    };
    let p = PreferencesContent::new(&known, lists(), &preference_labels());
    assert_eq!(p.backend.selected(), Some(1));
    assert_eq!(p.display_bit_depth.selected(), Some(0));
    assert_eq!(p.proxy_divider.selected(), Some(2));
    assert_eq!(p.storage_backend.selected(), Some(0));
    assert_eq!(p.cache_ahead.value, 1200);
}

#[test]
fn preferences_commit_fields_and_browse_paths() {
    let mut general = PreferencesContent::new(&stored(), lists(), &preference_labels());
    general.cache_dir.set_path("  /tmp/oak-cache  ");
    general.display_icc_path.set_path("  /tmp/oak.icc  ");
    general.storage_pg_url.set_path("  user:pass@localhost/oak  ");
    let dialog =
        PreferencesDialogContent::new(general, KeyboardTabContent::new(Vec::new()));
    let (a, b, c) = dialog.commit_cache_dir();
    let texts: Vec<(Setting, String)> = [a, b, c]
        .iter()
        .map(|w| (w.setting, text_of(w, w.setting)))
        .collect();
    assert!(texts.contains(&(Setting::DiskCachePath, "/tmp/oak-cache".to_string())));
    assert!(texts.contains(&(Setting::DisplayColorCustomIcc, "/tmp/oak.icc".to_string())));
    assert!(texts.contains(&(Setting::StoragePgUrl, "user:pass@localhost/oak".to_string())));
    assert_eq!(dialog.general.cache_dir(), "  /tmp/oak-cache  ");
}

#[test]
fn preferences_dialog_tabs_and_event_forwarding() {
    for event in [
        PreferencesEvent::ThemeChanged(false),
        PreferencesEvent::DisplayColorChanged,
        PreferencesEvent::LanguageChanged,
    ] {
        assert_eq!(forwarded_general(event), Some(event));
    }
    assert_eq!(forwarded_general(PreferencesEvent::ShortcutsChanged), None);
    assert_eq!(forwarded_keyboard(KeyboardEvent::Changed), PreferencesEvent::ShortcutsChanged);

    let general = PreferencesContent::new(&stored(), lists(), &preference_labels());
    let actions = vec![ActionPath { action: 1, path: "File > Save".to_string() }];
    let mut dialog = PreferencesDialogContent::new(general, KeyboardTabContent::new(actions));
    assert!(dialog.keyboard_tab_row_count() > 0);
    dialog.select_tab(PreferencesTab::Keyboard);
    assert_eq!(dialog.active, PreferencesTab::Keyboard);
    dialog.select_tab(PreferencesTab::General);
    assert_eq!(dialog.active, PreferencesTab::General);
    assert_ne!(tab_label(PreferencesTab::General), tab_label(PreferencesTab::Keyboard));
}

#[test]
fn devices_select_the_stored_one() {
    let devices = owned(&["Speakers", "Headphones"]);
    assert_eq!(device_combo(1, &devices, "Headphones", "Default", "").selected(), Some(2));
    assert_eq!(device_combo(1, &devices, "", "Default", "").selected(), Some(0));
    assert_eq!(device_combo(1, &devices, "gone", "Default", "").selected(), Some(0));
    assert_eq!(device_combo(1, &devices, "", "Default", "").options[0].label, "Default");
}

fn proxy_rows() -> Vec<ProxyFootageRow> {
    vec![
        ProxyFootageRow {
            id: 1,
            has_custom: false,
            can_generate: true,
            enabled: false,
            state: ProxyMediaState::Missing,
        },
        ProxyFootageRow {
            id: 2,
            has_custom: false,
            can_generate: false,
            enabled: false,
            state: ProxyMediaState::Missing,
        },
    ]
}

#[test]
fn proxy_dialog_edits_generates_deletes_and_applies() {
    let seed = ProxySeed {
        params: ProxyParamsUi {
            width: 640,
            height: 360,
            divider: 3,
            crf: 30,
            preset: "turbo".to_string(),
            include_audio: false,
        },
        max_concurrent: 4,
        ffmpeg_path: "/usr/bin/ffmpeg".to_string(),
    };
    let labels = ProxyLabels {
        dividers: owned(&["Full", "1/2", "1/4", "1/8"]),
        include_audio: "Audio".to_string(),
        custom: "Custom".to_string(),
    };
    let mut content = ProxyDialogContent::new(&seed, proxy_rows(), &labels);

    let params = content.current_params();
    assert_eq!(params.width, 640);
    assert_eq!(params.height, 360);
    assert_eq!(params.divider, 1, "an unknown divider falls back to full");
    assert_eq!(params.crf, 30);
    assert_eq!(params.preset, "veryfast");
    assert!(!params.include_audio);

    content.divider.set_selected(Some(3));
    content.preset.set_selected(Some(8));
    content.width.set_value(320);
    content.height.set_value(180);
    content.crf.set_value(18);
    content.include_audio.set_state(CheckState::Checked);
    content.max_concurrent.set_value(8);
    content.ffmpeg_path.set_path("  /opt/ffmpeg  ");
    let params = content.current_params();
    assert_eq!(params.divider, 8);
    assert_eq!(params.width, 320);
    // The height settles on its 8px grid from the 120 minimum: 180 → 184.
    assert_eq!(params.height, 184);
    assert_eq!(params.crf, 18);
    assert_eq!(params.preset, "veryslow");
    assert!(params.include_audio);

    let (writes, ffmpeg) = content.save_global_settings();
    let stored: Vec<String> = writes
        .iter()
        .map(|w| match &w.value {
            ConfigValue::Text(t) => format!("{}={t}", w.key),
            ConfigValue::Number(n) => format!("{}={n}", w.key),
            ConfigValue::Flag(b) => format!("{}={b}", w.key),
        })
        .collect();
    assert_eq!(
        stored,
        vec![
            "ProxyWidth=320",
            "ProxyHeight=184",
            "ProxyDivider=8",
            "ProxyCRF=18",
            "ProxyPreset=veryslow",
            "ProxyIncludeAudio=true",
            "ProxyMaxConcurrent=8",
        ]
    );
    assert_eq!(ffmpeg, "/opt/ffmpeg");

    // With the custom box, every footage that can gets the parameters first.
    content.custom_params.set_state(CheckState::Checked);
    assert_eq!(content.generate(), vec![ProxyAction::SetCustom(1), ProxyAction::Generate(1)]);
    assert_eq!(content.delete(), vec![ProxyAction::Delete(1), ProxyAction::Delete(2)]);

    content.custom_params.set_state(CheckState::Unchecked);
    assert_eq!(content.generate(), vec![ProxyAction::Generate(1)]);
    assert_eq!(content.accept(), vec![ProxyAction::ClearCustom(1), ProxyAction::ClearCustom(2)]);
    content.custom_params.set_state(CheckState::Checked);
    assert_eq!(content.accept(), vec![ProxyAction::SetCustom(1), ProxyAction::SetCustom(2)]);

    content.divider.set_selected(None);
    content.preset.set_selected(None);
    let params = content.current_params();
    assert_eq!(params.divider, 1);
    assert_eq!(params.preset, "veryfast");

    content.refresh(Vec::new());
    assert!(content.generate().is_empty());
    assert_eq!(proxy_presets().len(), 9);
}

#[test]
fn proxy_rows_say_what_is_in_use() {
    let ready = ProxyFootageRow {
        id: 1,
        has_custom: true,
        can_generate: true,
        enabled: true,
        state: ProxyMediaState::Ready,
    };
    assert!(ready.in_use());
    assert!(!ProxyFootageRow { enabled: false, ..ready }.in_use());
    assert!(!ProxyFootageRow { state: ProxyMediaState::Failed, ..ready }.in_use());
    assert_eq!(ready.state_text("Ready", " (custom)"), "Ready (custom)");
    assert_eq!(
        ProxyFootageRow { has_custom: false, ..ready }.state_text("Ready", " (custom)"),
        "Ready"
    );
}

fn project_state() -> ProjectState {
    ProjectState {
        ocio_config: String::new(),
        cache_setting: 0,
        cache_path: String::new(),
        color: ColorSettings {
            working: WorkingColorSpace::AcesCg,
            gamut: OutputGamut::Srgb,
            transfer: OutputTransfer::Srgb,
        },
    }
}

fn project_labels() -> ProjectLabels {
    ProjectLabels {
        cache: owned(&["Default", "Alongside", "Custom"]),
        working: owned(&["ACEScg", "sRGB"]),
        gamut: owned(&["sRGB", "P3", "BT.2020"]),
        transfer: owned(&["sRGB", "2.2", "PQ", "HLG"]),
    }
}

#[test]
fn project_properties_commit_and_color_settings() {
    let mut dialog = ProjectPropertiesContent::new(&project_state(), &project_labels());
    assert!(dialog.ocio_config_path().is_empty());
    assert!(dialog.custom_cache_path().is_empty());
    assert_eq!(dialog.cache_setting, 0);

    dialog.cache_location_selected(2);
    assert_eq!(dialog.cache_setting, 2);
    assert!(dialog.custom_cache_path.enabled);

    dialog.select_cache_setting(7);
    assert_eq!(dialog.cache_setting, 2);
    dialog.select_cache_setting(1);
    assert!(!dialog.custom_cache_path.enabled);

    // A refused configuration stores nothing.
    dialog.set_ocio_config_path("/nonexistent/oak-dialogs.ocio");
    assert!(dialog.commit(Err("no such file".to_string())).is_err());

    dialog.set_ocio_config_path("");
    dialog.select_cache_setting(2);
    dialog.set_custom_cache_path("  /tmp/oak-proj-cache  ");
    dialog.working_space.set_selected(Some(1));
    dialog.output_gamut.set_selected(Some(2));
    dialog.output_transfer.set_selected(Some(3));
    let writes = dialog.commit(Ok(())).unwrap();
    assert!(dialog.error().is_none());
    assert_eq!(writes.cache_setting, 2);
    assert_eq!(writes.cache_path.trim(), "/tmp/oak-proj-cache");
    assert_eq!(
        writes.color,
        ColorSettings {
            working: WorkingColorSpace::SrgbLegacy,
            gamut: OutputGamut::Bt2020,
            transfer: OutputTransfer::Hlg,
        }
    );

    for (index, expected) in [(0, WorkingColorSpace::AcesCg), (1, WorkingColorSpace::SrgbLegacy)] {
        dialog.working_space.set_selected(Some(index));
        assert_eq!(dialog.color_settings().working, expected);
    }
    for (index, expected) in
        [(0, OutputGamut::Srgb), (1, OutputGamut::DisplayP3), (2, OutputGamut::Bt2020)]
    {
        dialog.output_gamut.set_selected(Some(index));
        assert_eq!(dialog.color_settings().gamut, expected);
    }
    for (index, expected) in [
        (0, OutputTransfer::Srgb),
        (1, OutputTransfer::Gamma22),
        (2, OutputTransfer::Pq),
        (3, OutputTransfer::Hlg),
    ] {
        dialog.output_transfer.set_selected(Some(index));
        assert_eq!(dialog.color_settings().transfer, expected);
    }
    dialog.working_space.set_selected(None);
    dialog.output_gamut.set_selected(None);
    dialog.output_transfer.set_selected(None);
    assert_eq!(dialog.color_settings(), project_state().color);

    dialog.set_error(Some("bad config".to_string()));
    assert_eq!(dialog.error().cloned(), Some("bad config".to_string()));
}

#[test]
fn preferences_show_again_what_they_stored() {
    let shown = |s: &StoredPreferences| PreferencesContent::new(s, lists(), &preference_labels());
    let mut p = shown(&stored());
    for entry in 0..2 {
        let mut s = stored();
        s.bit_depth = text_of(&p.bit_depth_selected(entry), Setting::DisplayBitDepth).to_string();
        s.dark = flag_of(&p.theme_selected(entry).0, Setting::DarkTheme);
        s.storage_backend =
            text_of(&p.storage_backend_selected(entry), Setting::StorageBackend).to_string();
        s.language = text_of(&p.language_selected(entry).unwrap().0, Setting::Language).to_string();
        s.output_device =
            text_of(&p.audio_output_selected(entry + 1), Setting::AudioOutput).to_string();
        s.backend =
            text_of(&p.backend_selected(entry + 2).unwrap(), Setting::RendererBackend).to_string();
        let again = shown(&s);
        assert_eq!(again.display_bit_depth.selected(), Some(entry));
        assert_eq!(again.theme.selected(), Some(entry));
        assert_eq!(again.storage_backend.selected(), Some(entry));
        assert_eq!(again.storage_is_pg, entry == 1);
        assert_eq!(again.language.selected(), Some(entry));
        assert_eq!(again.audio_output.selected(), Some(entry + 1));
        assert_eq!(again.backend.selected(), Some(entry + 2));
    }
    let mut s = stored();
    s.color_mode = text_of(
        &p.display_icc_toggled(CheckState::Unchecked).0,
        Setting::DisplayColorMode,
    )
    .to_string();
    s.use_proxy = flag_of(&p.use_proxy_toggled(CheckState::Unchecked), Setting::UseProxyMedia);
    let again = shown(&s);
    assert_eq!(again.display_icc.state(), CheckState::Unchecked);
    assert_eq!(again.use_proxy.state(), CheckState::Unchecked);
    assert_eq!(again.hw_decode.state(), CheckState::Checked);
}
