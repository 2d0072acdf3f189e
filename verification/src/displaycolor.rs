//! Who maps viewer frames to the physical display, and with which chain.
//!
//! The mapping happens exactly once: either the system does it, or the
//! application does through the display's ICC profile. [`display_policy`]
//! makes that choice. A chain of colour processors is built for a
//! [`DisplayKey`] and kept until the key changes; the frame caches compare
//! [`generation`] and drop images made with another chain.

use crate::text::{begins_with, joined, same_ignoring_case, same_text, strip_head};
use vstd::prelude::*;

verus! {

/// Config key: the display colour mode ("icc" or "off").
pub const CONFIG_KEY_COLOR_MODE: &'static str = "DisplayColorMode";

/// Config key: a custom ICC profile path; empty for the display's own.
pub const CONFIG_KEY_CUSTOM_ICC: &'static str = "DisplayColorCustomIcc";

/// Config key: the colour space the chain starts from; empty to follow the
/// project's output.
pub const CONFIG_KEY_CONTENT_SPACE: &'static str = "DisplayColorContentSpace";

/// The content space of ordinary output.
pub const DEFAULT_CONTENT_SPACE: &'static str = "sRGB Encoded Rec.709 (sRGB)";

/// What precedes a content space that a preference names.
pub const OVERRIDE_PREFIX: &'static str = "override:";

/// Least time between two monitor probes, in milliseconds.
pub const MONITOR_PROBE_INTERVAL: u64 = 2000;

/// Who performs the final mapping to the physical display.
#[derive(Clone, Copy, Debug, PartialEq, Eq, Structural)]
pub enum DisplayPolicy {
    /// The application applies the display transform.
    SelfManaged,
    /// The system maps the content; the application applies nothing.
    OsManaged,
}

/// The window system, with what it says of its own colour management.
#[derive(Clone, Copy, Debug, PartialEq, Eq, Structural)]
pub enum Platform {
    /// A Wayland session.
    Wayland,
    /// Linux or a BSD without Wayland.
    X11,
    /// Windows; `auto_color` when Auto Color Management is active.
    Windows { auto_color: bool },
    /// macOS.
    MacOs,
    /// Anything else.
    Other,
}

/// The platform's own choice, under the mode preference.
pub open spec fn platform_policy(platform: Platform, mode: Option<Seq<char>>) -> DisplayPolicy {
    match platform {
        Platform::Wayland => DisplayPolicy::OsManaged,
        Platform::Windows { auto_color: true } => DisplayPolicy::OsManaged,
        Platform::MacOs => if mode == Some("icc"@) {
            DisplayPolicy::SelfManaged
        } else {
            DisplayPolicy::OsManaged
        },
        _ => if mode == Some("off"@) {
            DisplayPolicy::OsManaged
        } else {
            DisplayPolicy::SelfManaged
        },
    }
}

/// The policy in force: a recognized override, else the platform's choice.
pub open spec fn policy_of(
    forced: Option<Seq<char>>,
    platform: Platform,
    mode: Option<Seq<char>>,
) -> DisplayPolicy {
    if forced is Some && crate::text::same_but_for_case(forced.unwrap(), "os"@) {
        DisplayPolicy::OsManaged
    } else if forced is Some && crate::text::same_but_for_case(forced.unwrap(), "self"@) {
        DisplayPolicy::SelfManaged
    } else {
        platform_policy(platform, mode)
    }
}

/// What an optional text holds.
pub open spec fn option_text(s: Option<&str>) -> Option<Seq<char>> {
    match s {
        Some(t) => Some(t@),
        None => None,
    }
}

/// Who maps to the display. `forced` is the debugging override, `mode` the
/// stored preference.
pub fn display_policy(forced: Option<&str>, platform: Platform, mode: Option<&str>) -> (r:
    DisplayPolicy)
    ensures
        r == policy_of(option_text(forced), platform, option_text(mode)),
{
    if let Some(f) = forced {
        if same_ignoring_case(f, "os") {
            return DisplayPolicy::OsManaged;
        }
        if same_ignoring_case(f, "self") {
            return DisplayPolicy::SelfManaged;
        }
    }
    match platform {
        Platform::Wayland => DisplayPolicy::OsManaged,
        Platform::Windows { auto_color: true } => DisplayPolicy::OsManaged,
        Platform::MacOs => match mode {
            Some(m) => if same_text(m, "icc") {
                DisplayPolicy::SelfManaged
            } else {
                DisplayPolicy::OsManaged
            },
            None => DisplayPolicy::OsManaged,
        },
        _ => match mode {
            Some(m) => if same_text(m, "off") {
                DisplayPolicy::OsManaged
            } else {
                DisplayPolicy::SelfManaged
            },
            None => DisplayPolicy::SelfManaged,
        },
    }
}

/// The mode preference; "icc" when none is stored.
pub fn configured_mode(mode: Option<&str>) -> (r: String)
    ensures
        r@ == (match mode {
            Some(m) => m@,
            None => "icc"@,
        }),
{
    match mode {
        Some(m) => m.to_owned(),
        None => "icc".to_owned(),
    }
}

/// The project's output gamut.
#[derive(Clone, Copy, Debug, PartialEq, Eq, Structural)]
pub enum OutputGamut {
    Srgb,
    DisplayP3,
    Bt2020,
}

/// The project's output transfer.
#[derive(Clone, Copy, Debug, PartialEq, Eq, Structural)]
pub enum OutputTransfer {
    Srgb,
    Gamma22,
    Pq,
    Hlg,
}

/// The project's output: its gamut and transfer, and what settings call
/// them.
#[derive(Debug)]
pub struct OutputSpec {
    pub gamut: OutputGamut,
    pub transfer: OutputTransfer,
    pub gamut_name: String,
    pub transfer_name: String,
}

impl OutputSpec {
    /// Whether the output is ordinary sRGB.
    pub open spec fn ordinary(&self) -> bool {
        self.gamut == OutputGamut::Srgb && self.transfer == OutputTransfer::Srgb
    }

    /// Whether the output is ordinary sRGB.
    pub fn is_default(&self) -> (r: bool)
        ensures
            r == self.ordinary(),
    {
        self.gamut == OutputGamut::Srgb && self.transfer == OutputTransfer::Srgb
    }
}

/// What the chain is built for.
#[derive(Debug)]
pub struct DisplayKey {
    pub policy: DisplayPolicy,
    pub mode: String,
    pub custom_icc: String,
    pub space: String,
    pub monitor: String,
}

/// What a [`DisplayKey`] holds.
#[verifier::ext_equal]
pub struct KeyModel {
    pub policy: DisplayPolicy,
    pub mode: Seq<char>,
    pub custom_icc: Seq<char>,
    pub space: Seq<char>,
    pub monitor: Seq<char>,
}

impl View for DisplayKey {
    type V = KeyModel;

    open spec fn view(&self) -> KeyModel {
        KeyModel {
            policy: self.policy,
            mode: self.mode@,
            custom_icc: self.custom_icc@,
            space: self.space@,
            monitor: self.monitor@,
        }
    }
}

impl DisplayKey {
    /// Whether two keys ask for the same chain.
    pub fn same(&self, other: &DisplayKey) -> (r: bool)
        ensures
            r == (self@ == other@),
    {
        self.policy == other.policy && same_text(self.mode.as_str(), other.mode.as_str())
            && same_text(self.custom_icc.as_str(), other.custom_icc.as_str()) && same_text(
            self.space.as_str(),
            other.space.as_str(),
        ) && same_text(self.monitor.as_str(), other.monitor.as_str())
    }

    /// Another key for the same chain.
    pub fn copied(&self) -> (r: DisplayKey)
        ensures
            r@ == self@,
    {
        DisplayKey {
            policy: self.policy,
            mode: self.mode.clone(),
            custom_icc: self.custom_icc.clone(),
            space: self.space.clone(),
            monitor: self.monitor.clone(),
        }
    }
}

/// The preferences and project settings a key is made of.
#[derive(Debug)]
pub struct DisplaySettings {
    pub policy: DisplayPolicy,
    /// The stored mode, if any.
    pub mode: Option<String>,
    /// The custom profile path; empty for none.
    pub custom_icc: String,
    /// The content space override; empty for none.
    pub content_space: String,
    pub output: OutputSpec,
}

/// The key's content space: the override, else the output's two names.
pub open spec fn space_of(s: &DisplaySettings) -> Seq<char> {
    if s.content_space@.len() == 0 {
        s.output.gamut_name@ + ":"@ + s.output.transfer_name@
    } else {
        OVERRIDE_PREFIX@ + s.content_space@
    }
}

/// The key in force.
pub open spec fn key_of(s: &DisplaySettings, monitor: Option<String>) -> KeyModel {
    KeyModel {
        policy: s.policy,
        mode: match s.mode {
            Some(m) => m@,
            None => "icc"@,
        },
        custom_icc: s.custom_icc@,
        space: space_of(s),
        monitor: match monitor {
            Some(m) => m@,
            None => Seq::empty(),
        },
    }
}

/// The processors of a chain, by handle: the named chain for float samples,
/// the XYZ chain for other than sRGB output, and the 8-bit chain.
#[derive(Clone, Copy, Debug, PartialEq, Eq, Structural)]
pub struct Chains {
    pub named: Option<u64>,
    pub xyz: Option<u64>,
    pub bgra: Option<u64>,
}

impl Chains {
    /// No processor at all.
    pub open spec fn nothing() -> Chains {
        Chains { named: None, xyz: None, bgra: None }
    }

    /// Whether there is a processor.
    pub open spec fn any(&self) -> bool {
        self.named is Some || self.xyz is Some || self.bgra is Some
    }

    /// No processor at all.
    pub fn none() -> (r: Chains)
        ensures
            r == Chains::nothing(),
    {
        Chains { named: None, xyz: None, bgra: None }
    }
}

/// A chain with the key it was built for.
#[derive(Debug)]
pub struct State {
    pub key: DisplayKey,
    pub chains: Chains,
}

/// The display colour state of a session.
#[derive(Debug)]
pub struct Display {
    pub state: Option<State>,
    pub generation: u64,
    pub monitor: Option<String>,
    pub last_probe: Option<u64>,
}

/// What a [`Display`] holds.
#[verifier::ext_equal]
pub struct DisplayModel {
    pub state: Option<(KeyModel, Chains)>,
    pub generation: u64,
    pub monitor: Option<Seq<char>>,
    pub last_probe: Option<u64>,
}

impl View for Display {
    type V = DisplayModel;

    open spec fn view(&self) -> DisplayModel {
        DisplayModel {
            state: match self.state {
                Some(s) => Some((s.key@, s.chains)),
                None => None,
            },
            generation: self.generation,
            monitor: match self.monitor {
                Some(m) => Some(m@),
                None => None,
            },
            last_probe: self.last_probe,
        }
    }
}

impl Display {
    /// A session that has built nothing and knows no monitor.
    pub fn new() -> (r: Display)
        ensures
            r@ == (DisplayModel { state: None, generation: 0, monitor: None, last_probe: None }),
    {
        Display { state: None, generation: 0, monitor: None, last_probe: None }
    }
}

/// The current transform generation.
pub fn generation(display: &Display) -> (r: u64)
    ensures
        r == display@.generation,
{
    display.generation
}

/// Drops the chain.
pub fn invalidate(display: &mut Display)
    ensures
        final(display)@ == (DisplayModel { state: None, ..old(display)@ }),
{
    display.state = None;
}

/// Records the window's monitor; `None` goes back to the main display.
pub fn note_monitor(display: &mut Display, id: Option<String>)
    ensures
        final(display)@ == (DisplayModel {
            monitor: match id {
                Some(m) => Some(m@),
                None => None,
            },
            ..old(display)@
        }),
{
    display.monitor = id;
}

/// Whether a probe is due at `now`.
pub open spec fn probe_due(last: Option<u64>, now: u64) -> bool {
    match last {
        Some(stamp) => now - stamp >= MONITOR_PROBE_INTERVAL,
        None => true,
    }
}

/// Whether to probe the monitor now. A probe is recorded; a system that maps
/// by itself is never probed for.
pub fn poll_monitor(display: &mut Display, policy: DisplayPolicy, now: u64) -> (r: bool)
    ensures
        r == (policy == DisplayPolicy::SelfManaged && probe_due(old(display)@.last_probe, now)),
        final(display)@ == if r {
            DisplayModel { last_probe: Some(now), ..old(display)@ }
        } else {
            old(display)@
        },
{
    if policy != DisplayPolicy::SelfManaged {
        return false;
    }
    if let Some(stamp) = display.last_probe {
        if now < stamp || now - stamp < MONITOR_PROBE_INTERVAL {
            return false;
        }
    }
    display.last_probe = Some(now);
    true
}

/// Records what a probe found; one that failed keeps the known monitor.
pub fn probed_monitor(display: &mut Display, found: Option<String>)
    ensures
        final(display)@ == (match found {
            Some(m) => DisplayModel { monitor: Some(m@), ..old(display)@ },
            None => old(display)@,
        }),
{
    if found.is_some() {
        note_monitor(display, found);
    }
}

/// The key in force.
pub fn current_key(display: &Display, settings: &DisplaySettings) -> (r: DisplayKey)
    ensures
        r@ == key_of(settings, display.monitor),
{
    let space: String = if settings.content_space.as_str().is_empty() {
        joined(
            joined(settings.output.gamut_name.as_str(), ":").as_str(),
            settings.output.transfer_name.as_str(),
        )
    } else {
        joined(OVERRIDE_PREFIX, settings.content_space.as_str())
    };
    let monitor: String = match &display.monitor {
        Some(m) => m.clone(),
        None => String::new(),
    };
    let mode: String = match &settings.mode {
        Some(m) => m.clone(),
        None => "icc".to_owned(),
    };
    DisplayKey {
        policy: settings.policy,
        mode,
        custom_icc: settings.custom_icc.clone(),
        space,
        monitor,
    }
}

/// The chain in force, or the key to build one for.
#[derive(Debug)]
pub enum Current {
    /// The chain is there.
    Ready(Chains),
    /// The chain of this key has to be built, and handed to [`install`].
    Build(DisplayKey),
}

/// Whether a key has no chain whatever the profile: the system maps, or the
/// mode is not "icc".
pub open spec fn passes_through(key: KeyModel) -> bool {
    key.policy == DisplayPolicy::OsManaged || key.mode != "icc"@
}

/// The session after the chain of `key` was put in place: a chain that
/// replaces another one makes every image of the other stale.
pub open spec fn installed(before: DisplayModel, key: KeyModel, chains: Chains) -> DisplayModel {
    DisplayModel {
        state: Some((key, chains)),
        generation: if before.state is Some {
            if before.generation == u64::MAX {
                0
            } else {
                (before.generation + 1) as u64
            }
        } else {
            before.generation
        },
        ..before
    }
}

/// Puts the chain of `key` in place.
pub fn install(display: &mut Display, key: DisplayKey, chains: Chains)
    ensures
        final(display)@ == installed(old(display)@, key@, chains),
{
    if display.state.is_some() {
        display.generation = if display.generation == u64::MAX {
            0
        } else {
            display.generation + 1
        };
    }
    display.state = Some(State { key, chains });
}

/// The chain in force: the one that was kept, when its key is still in
/// force.
pub fn current(display: &mut Display, settings: &DisplaySettings) -> (r: Current)
    ensures
        ({
            let key = key_of(settings, old(display).monitor);
            match old(display)@.state {
                Some((k, chains)) if k == key => r == Current::Ready(chains)
                    && final(display)@ == old(display)@,
                _ => if passes_through(key) {
                    &&& r == Current::Ready(Chains::nothing())
                    &&& final(display)@ == installed(old(display)@, key, Chains::nothing())
                } else {
                    &&& r matches Current::Build(k) && k@ == key
                    &&& final(display)@ == old(display)@
                },
            }
        }),
        consistent(old(display)@) ==> consistent(final(display)@),
        consistent(old(display)@) && passes_through(key_of(settings, old(display).monitor)) ==> r
            == Current::Ready(Chains::nothing()),
{
    let key: DisplayKey = current_key(display, settings);
    if let Some(state) = &display.state {
        if state.key.same(&key) {
            return Current::Ready(state.chains);
        }
    }
    if key.policy == DisplayPolicy::OsManaged || !same_text(key.mode.as_str(), "icc") {
        install(display, key, Chains::none());
        return Current::Ready(Chains::none());
    }
    Current::Build(key)
}

/// Where the display's profile comes from.
#[derive(Clone, Copy, Debug, PartialEq, Eq, Structural)]
pub enum ProfileSource {
    /// The custom path of the key.
    Custom,
    /// The monitor of the key.
    Monitor,
    /// The main display.
    MainDisplay,
}

/// Which profile a key asks for. `known` says whether the monitor of the key
/// is one that the system can look up.
pub fn profile_source(key: &DisplayKey, known: bool) -> (r: ProfileSource)
    ensures
        r == if key@.custom_icc.len() != 0 {
            ProfileSource::Custom
        } else if known {
            ProfileSource::Monitor
        } else {
            ProfileSource::MainDisplay
        },
{
    if !key.custom_icc.as_str().is_empty() {
        ProfileSource::Custom
    } else if known {
        ProfileSource::Monitor
    } else {
        ProfileSource::MainDisplay
    }
}

/// Which processors to build through a profile: the content space of the
/// named chains, and whether an XYZ chain is wanted.
#[derive(Debug)]
pub struct ChainBuild {
    pub profile: String,
    pub content: String,
    pub xyz: bool,
}

/// Whether a key's content space is one that a preference names.
pub open spec fn named_by_preference(space: Seq<char>) -> bool {
    crate::text::starts_with(space, OVERRIDE_PREFIX@)
}

/// The space that the chains of a key start from.
pub open spec fn content_of(space: Seq<char>) -> Seq<char> {
    if named_by_preference(space) {
        crate::text::without_head(space, OVERRIDE_PREFIX@)
    } else {
        DEFAULT_CONTENT_SPACE@
    }
}

/// What to build for a key: nothing without a profile. A content space that
/// a preference names is the start of the whole chain; otherwise ordinary
/// output starts from [`DEFAULT_CONTENT_SPACE`] and other output goes through
/// XYZ.
pub fn chain_build(key: &DisplayKey, profile: Option<String>, ordinary: bool) -> (r: Option<
    ChainBuild,
>)
    ensures
        match profile {
            None => r is None,
            Some(p) => {
                &&& r is Some
                &&& r.unwrap().profile@ == p@
                &&& r.unwrap().content@ == content_of(key@.space)
                &&& r.unwrap().xyz == (!ordinary && !named_by_preference(key@.space))
            },
        },
{
    match profile {
        None => None,
        Some(profile) => if begins_with(key.space.as_str(), OVERRIDE_PREFIX) {
            Some(
                ChainBuild {
                    profile,
                    content: strip_head(key.space.as_str(), OVERRIDE_PREFIX),
                    xyz: false,
                },
            )
        } else {
            Some(
                ChainBuild { profile, content: DEFAULT_CONTENT_SPACE.to_owned(), xyz: !ordinary },
            )
        },
    }
}

/// Whether the application is applying a display transform: it does the
/// mapping, and its chain has a processor.
pub fn is_active(policy: DisplayPolicy, chains: &Chains) -> (r: bool)
    ensures
        r == (policy == DisplayPolicy::SelfManaged && chains.any()),
{
    policy == DisplayPolicy::SelfManaged && (chains.named.is_some() || chains.xyz.is_some()
        || chains.bgra.is_some())
}

/// The content's primaries, as the window declares them.
#[derive(Clone, Copy, Debug, PartialEq, Eq, Structural)]
pub enum ContentPrimaries {
    Srgb,
    DisplayP3,
    Bt2020,
}

/// The content's transfer, as the window declares it.
#[derive(Clone, Copy, Debug, PartialEq, Eq, Structural)]
pub enum ContentTransfer {
    Srgb,
    Gamma22,
    Pq,
    Hlg,
}

/// The content colour space that a window declares.
#[derive(Clone, Copy, Debug, PartialEq, Eq, Structural)]
pub struct ContentColorspace {
    pub primaries: ContentPrimaries,
    pub transfer: ContentTransfer,
}

/// The declaration for an output.
pub open spec fn declared(gamut: OutputGamut, transfer: OutputTransfer) -> ContentColorspace {
    ContentColorspace {
        primaries: match gamut {
            OutputGamut::Srgb => ContentPrimaries::Srgb,
            OutputGamut::DisplayP3 => ContentPrimaries::DisplayP3,
            OutputGamut::Bt2020 => ContentPrimaries::Bt2020,
        },
        transfer: match transfer {
            OutputTransfer::Srgb => ContentTransfer::Srgb,
            OutputTransfer::Gamma22 => ContentTransfer::Gamma22,
            OutputTransfer::Pq => ContentTransfer::Pq,
            OutputTransfer::Hlg => ContentTransfer::Hlg,
        },
    }
}

/// The content colour space of the project's output.
pub fn content_colorspace(output: &OutputSpec) -> (r: ContentColorspace)
    ensures
        r == declared(output.gamut, output.transfer),
{
    ContentColorspace {
        primaries: match output.gamut {
            OutputGamut::Srgb => ContentPrimaries::Srgb,
            OutputGamut::DisplayP3 => ContentPrimaries::DisplayP3,
            OutputGamut::Bt2020 => ContentPrimaries::Bt2020,
        },
        transfer: match output.transfer {
            OutputTransfer::Srgb => ContentTransfer::Srgb,
            OutputTransfer::Gamma22 => ContentTransfer::Gamma22,
            OutputTransfer::Pq => ContentTransfer::Pq,
            OutputTransfer::Hlg => ContentTransfer::Hlg,
        },
    }
}

/// What a window's layer is told: who maps, and the content colour space
/// when the system does.
#[derive(Clone, Copy, Debug, PartialEq, Eq, Structural)]
pub struct LayerDeclaration {
    pub mode: DisplayPolicy,
    pub content: Option<ContentColorspace>,
}

/// What to tell the window's layer.
pub open spec fn declaration(
    policy: DisplayPolicy,
    chains: Chains,
    output: &OutputSpec,
) -> LayerDeclaration {
    if policy == DisplayPolicy::SelfManaged && chains.any() {
        LayerDeclaration { mode: DisplayPolicy::SelfManaged, content: None }
    } else {
        LayerDeclaration {
            mode: DisplayPolicy::OsManaged,
            content: Some(declared(output.gamut, output.transfer)),
        }
    }
}

/// What to tell the window's layer.
pub fn apply_to_window(policy: DisplayPolicy, chains: &Chains, output: &OutputSpec) -> (r:
    LayerDeclaration)
    ensures
        r == declaration(policy, *chains, output),
{
    if is_active(policy, chains) {
        LayerDeclaration { mode: DisplayPolicy::SelfManaged, content: None }
    } else {
        LayerDeclaration {
            mode: DisplayPolicy::OsManaged,
            content: Some(content_colorspace(output)),
        }
    }
}

/// What to do to float samples.
#[derive(Clone, Copy, Debug, PartialEq, Eq, Structural)]
pub enum SampleStep {
    /// Leave them.
    Nothing,
    /// Take them from the output's encoding to XYZ, then run the processor.
    ThroughXyz(u64),
    /// Run the processor.
    Convert(u64),
}

/// The step for float samples: the XYZ chain before the named one.
pub fn apply_f32_rgba(chains: &Chains) -> (r: SampleStep)
    ensures
        r == (match chains.xyz {
            Some(h) => SampleStep::ThroughXyz(h),
            None => match chains.named {
                Some(h) => SampleStep::Convert(h),
                None => SampleStep::Nothing,
            },
        }),
{
    match chains.xyz {
        Some(h) => SampleStep::ThroughXyz(h),
        None => match chains.named {
            Some(h) => SampleStep::Convert(h),
            None => SampleStep::Nothing,
        },
    }
}

/// The processor for 8-bit data, if any.
pub fn apply_bgra8(chains: &Chains) -> (r: Option<u64>)
    ensures
        r == chains.bgra,
{
    chains.bgra
}

/// The mapping happens exactly once: the layer is told that the application
/// maps exactly when the application maps and has a transform to apply, and
/// the content is declared to the system exactly when the system maps.
pub proof fn lemma_single_mapping(policy: DisplayPolicy, chains: Chains, output: OutputSpec)
    ensures
        declaration(policy, chains, &output).mode == DisplayPolicy::SelfManaged <==> policy
            == DisplayPolicy::SelfManaged && chains.any(),
        declaration(policy, chains, &output).content is Some <==> declaration(
            policy,
            chains,
            &output,
        ).mode == DisplayPolicy::OsManaged,
{
}

/// A system that maps by itself leaves the application without a chain: the
/// two never both map.
pub open spec fn consistent(d: DisplayModel) -> bool {
    d.state matches Some((key, chains)) ==> passes_through(key) ==> chains == Chains::nothing()
}

/// A session that starts consistent stays so, when only keys that do not
/// pass through are given a chain from outside.
pub proof fn lemma_consistent(d: DisplayModel, key: KeyModel, chains: Chains)
    requires
        consistent(d),
        passes_through(key) ==> chains == Chains::nothing(),
    ensures
        consistent(installed(d, key, chains)),
        consistent(DisplayModel { state: None, ..d }),
{
}

/// A chain stands until the key changes: the key that was put in place is
/// found, and finding it changes nothing.
pub proof fn lemma_installed_is_found(d: DisplayModel, key: KeyModel, chains: Chains)
    ensures
        installed(d, key, chains).state == Some((key, chains)),
        installed(d, key, chains).monitor == d.monitor,
{
}

/// The generation moves by one when a chain replaces another, and stands
/// still on a first build, also the one after [`invalidate`].
pub proof fn lemma_generation(d: DisplayModel, key: KeyModel, chains: Chains)
    ensures
        d.state is Some && d.generation < u64::MAX ==> installed(d, key, chains).generation
            == d.generation + 1,
        d.state is None ==> installed(d, key, chains).generation == d.generation,
        installed(DisplayModel { state: None, ..d }, key, chains).generation == d.generation,
{
}

/// A content space that a preference names is the start of the whole chain,
/// whatever its name.
pub proof fn lemma_named_space_is_the_start(s: DisplaySettings, monitor: Option<String>)
    requires
        s.content_space@.len() > 0,
    ensures
        named_by_preference(key_of(&s, monitor).space),
        content_of(key_of(&s, monitor).space) == s.content_space@,
{
    let space = space_of(&s);
    assert(space.take(OVERRIDE_PREFIX@.len() as int) =~= OVERRIDE_PREFIX@);
    assert(space.skip(OVERRIDE_PREFIX@.len() as int) =~= s.content_space@);
}

/// Two monitors never share a key.
pub proof fn lemma_key_follows_monitor(s: DisplaySettings, a: String, b: String)
    requires
        a@ != b@,
    ensures
        key_of(&s, Some(a)) != key_of(&s, Some(b)),
{
}

} // verus!
