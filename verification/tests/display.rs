//! The display colour state.

use oak_app::displaycolor::{
    apply_bgra8, apply_f32_rgba, apply_to_window, chain_build, configured_mode,
    content_colorspace, current, current_key, display_policy, generation, install, invalidate,
    is_active, note_monitor, poll_monitor, probed_monitor, profile_source, Chains,
    ContentPrimaries, ContentTransfer, Current, Display, DisplayKey, DisplayPolicy,
    DisplaySettings, OutputGamut, OutputSpec, OutputTransfer, Platform, ProfileSource, SampleStep,
    MONITOR_PROBE_INTERVAL,
};

fn srgb() -> OutputSpec {
    OutputSpec {
        gamut: OutputGamut::Srgb,
        transfer: OutputTransfer::Srgb,
        gamut_name: "srgb".to_string(),
        transfer_name: "srgb".to_string(),
    }
}

fn settings(content_space: &str) -> DisplaySettings {
    DisplaySettings {
        policy: DisplayPolicy::SelfManaged,
        mode: Some("icc".to_string()),
        custom_icc: String::new(),
        content_space: content_space.to_string(),
        output: srgb(),
    }
}

fn chains(handle: u64) -> Chains {
    Chains { named: Some(handle), xyz: None, bgra: Some(handle + 1) }
}

/// Reads the state, building it with `handle` where it is missing.
fn read(display: &mut Display, settings: &DisplaySettings, handle: u64) -> Chains {
    match current(display, settings) {
        Current::Ready(c) => c,
        Current::Build(key) => {
            install(display, key, chains(handle));
            match current(display, settings) {
                Current::Ready(c) => c,
                Current::Build(_) => panic!("the state was just built"),
            }
        }
    }
}

#[test]
fn key_tracks_monitor_and_content_override() {
    let mut display = Display::new();
    note_monitor(&mut display, Some("x11:TEST-1".to_string()));
    let key = current_key(&display, &settings(""));
    assert_eq!(key.policy, DisplayPolicy::SelfManaged);
    assert_eq!(key.mode, configured_mode(Some("icc")));
    assert_eq!(key.monitor, "x11:TEST-1");
    assert!(!key.space.is_empty());
    assert!(!key.space.starts_with("override:"), "no override installed by default");

    let key = current_key(&display, &settings("ACEScg"));
    assert_eq!(key.space, "override:ACEScg");

    note_monitor(&mut display, None);
    let key = current_key(&display, &settings(""));
    assert_eq!(key.monitor, "");
    assert_eq!(key.space, "srgb:srgb");
}

#[test]
fn current_caches_per_key() {
    let mut display = Display::new();
    let s = settings("");
    note_monitor(&mut display, None);
    invalidate(&mut display);
    let first = read(&mut display, &s, 10);
    let first_key = current_key(&display, &s);
    let generation_after_first = generation(&display);

    let cached = read(&mut display, &s, 20);
    assert_eq!(generation(&display), generation_after_first, "a same-key read does not rebuild");
    assert_eq!(cached, first, "the cached state shares the chains");

    note_monitor(&mut display, Some("x11:OTHER".to_string()));
    let rekeyed = read(&mut display, &s, 30);
    assert_eq!(
        generation(&display),
        generation_after_first + 1,
        "a key change bumps the generation exactly once"
    );
    let rekeyed_key = current_key(&display, &s);
    assert!(!rekeyed_key.same(&first_key), "the key followed the monitor");
    assert_eq!(rekeyed_key.monitor, "x11:OTHER");
    assert_ne!(rekeyed, first, "a key change rebuilds the chain");

    let _ = read(&mut display, &s, 40);
    assert_eq!(generation(&display), generation_after_first + 1, "the rebuilt key is cached");

    note_monitor(&mut display, None);
    let _ = read(&mut display, &s, 50);
    assert_eq!(
        generation(&display),
        generation_after_first + 2,
        "each key change bumps exactly once"
    );

    invalidate(&mut display);
    let _ = read(&mut display, &s, 60);
    assert_eq!(
        generation(&display),
        generation_after_first + 2,
        "a first build after invalidate does not bump"
    );
}

#[test]
fn clone_state_preserves_the_chain_slots() {
    let mut display = Display::new();
    let s = settings("");
    let built = read(&mut display, &s, 10);
    let again = read(&mut display, &s, 20);
    let key = current_key(&display, &s);
    assert!(key.copied().same(&key));
    assert_eq!(again.named.is_some(), built.named.is_some());
    assert_eq!(again.xyz.is_some(), built.xyz.is_some());
    assert_eq!(again.bgra.is_some(), built.bgra.is_some());
}

#[test]
fn monitor_profiles_resolve_or_degrade() {
    let mut display = Display::new();
    let s = settings("");
    for fingerprint in ["", "x11:NO-SUCH-OUTPUT", "garbage", "mac:1", "win:X"] {
        note_monitor(&mut display, Some(fingerprint.to_string()));
        let key = current_key(&display, &s);
        assert_eq!(key.monitor, fingerprint, "the effective key follows the noted fingerprint");
        // A fingerprint that is not known falls back to the main display.
        assert_eq!(profile_source(&key, false), ProfileSource::MainDisplay);
    }
    note_monitor(&mut display, None);
    assert_eq!(current_key(&display, &s).monitor, "");
}

#[test]
fn empty_conversions_are_safe() {
    let none = Chains::none();
    assert_eq!(apply_f32_rgba(&none), SampleStep::Nothing);
    assert_eq!(apply_bgra8(&none), None);
    assert!(!is_active(DisplayPolicy::SelfManaged, &none));
    let content = content_colorspace(&srgb());
    assert_eq!(content.primaries, ContentPrimaries::Srgb);
    assert_eq!(content.transfer, ContentTransfer::Srgb);
}

#[test]
fn chains_say_how_samples_are_converted() {
    let named = Chains { named: Some(7), xyz: None, bgra: Some(8) };
    assert_eq!(apply_f32_rgba(&named), SampleStep::Convert(7));
    assert_eq!(apply_bgra8(&named), Some(8));
    let xyz = Chains { named: None, xyz: Some(9), bgra: None };
    assert_eq!(apply_f32_rgba(&xyz), SampleStep::ThroughXyz(9));
    assert!(is_active(DisplayPolicy::SelfManaged, &named));
    assert!(!is_active(DisplayPolicy::OsManaged, &named));
}

#[test]
fn the_policy_follows_the_platform_and_the_mode() {
    assert_eq!(display_policy(Some("OS"), Platform::X11, None), DisplayPolicy::OsManaged);
    assert_eq!(display_policy(Some("self"), Platform::Wayland, None), DisplayPolicy::SelfManaged);
    assert_eq!(display_policy(Some("other"), Platform::Wayland, None), DisplayPolicy::OsManaged);
    assert_eq!(display_policy(None, Platform::MacOs, Some("icc")), DisplayPolicy::SelfManaged);
    assert_eq!(display_policy(None, Platform::X11, Some("off")), DisplayPolicy::OsManaged);
    assert_eq!(display_policy(None, Platform::Other, None), DisplayPolicy::SelfManaged);
    assert_eq!(display_policy(None, Platform::Wayland, None), DisplayPolicy::OsManaged);
    assert_eq!(display_policy(None, Platform::MacOs, None), DisplayPolicy::OsManaged);
    assert_eq!(display_policy(None, Platform::X11, None), DisplayPolicy::SelfManaged);
    assert_eq!(
        display_policy(None, Platform::Windows { auto_color: true }, None),
        DisplayPolicy::OsManaged
    );
    assert_eq!(
        display_policy(None, Platform::Windows { auto_color: false }, None),
        DisplayPolicy::SelfManaged
    );
    assert_eq!(configured_mode(None), "icc");
    assert_eq!(configured_mode(Some("off")), "off");
}

#[test]
fn the_os_gets_the_content_space_only_when_it_manages() {
    let p3 = OutputSpec {
        gamut: OutputGamut::DisplayP3,
        transfer: OutputTransfer::Pq,
        gamut_name: "p3".to_string(),
        transfer_name: "pq".to_string(),
    };
    assert!(!p3.is_default());
    assert!(srgb().is_default());
    let own = apply_to_window(DisplayPolicy::SelfManaged, &chains(1), &p3);
    assert_eq!(own.mode, DisplayPolicy::SelfManaged);
    assert!(own.content.is_none());
    let os = apply_to_window(DisplayPolicy::OsManaged, &Chains::none(), &p3);
    assert_eq!(os.mode, DisplayPolicy::OsManaged);
    let content = os.content.unwrap();
    assert_eq!(content.primaries, ContentPrimaries::DisplayP3);
    assert_eq!(content.transfer, ContentTransfer::Pq);
}

#[test]
fn the_monitor_is_probed_now_and_then() {
    let mut display = Display::new();
    assert!(poll_monitor(&mut display, DisplayPolicy::SelfManaged, 0));
    assert!(!poll_monitor(&mut display, DisplayPolicy::SelfManaged, MONITOR_PROBE_INTERVAL - 1));
    assert!(poll_monitor(&mut display, DisplayPolicy::SelfManaged, MONITOR_PROBE_INTERVAL));
    assert!(!poll_monitor(&mut display, DisplayPolicy::OsManaged, 10 * MONITOR_PROBE_INTERVAL));
    probed_monitor(&mut display, Some("x11:DP-1".to_string()));
    assert_eq!(current_key(&display, &settings("")).monitor, "x11:DP-1");
}

#[test]
fn a_chain_is_built_from_a_profile() {
    let key = DisplayKey {
        policy: DisplayPolicy::SelfManaged,
        mode: "icc".to_string(),
        custom_icc: String::new(),
        space: "override:ACEScg".to_string(),
        monitor: String::new(),
    };
    let build = chain_build(&key, Some("/tmp/a.icc".to_string()), true).unwrap();
    assert_eq!(build.profile, "/tmp/a.icc");
    assert_eq!(build.content, "ACEScg");
    assert!(chain_build(&key, None, true).is_none());
    let custom = DisplayKey { custom_icc: "/tmp/b.icc".to_string(), ..key };
    assert_eq!(profile_source(&custom, true), ProfileSource::Custom);
}

#[test]
fn a_named_content_space_is_the_start_of_the_chain() {
    let display = Display::new();
    for name in ["ACEScg", "override:x"] {
        let key = current_key(&display, &settings(name));
        let build = chain_build(&key, Some("/tmp/a.icc".to_string()), false).unwrap();
        assert_eq!(build.content, name);
        assert!(!build.xyz);
    }
    let key = current_key(&display, &settings(""));
    let build = chain_build(&key, Some("/tmp/a.icc".to_string()), false).unwrap();
    assert_eq!(build.content, "sRGB Encoded Rec.709 (sRGB)");
    assert!(build.xyz);
    assert!(!chain_build(&key, Some("/tmp/a.icc".to_string()), true).unwrap().xyz);
}
