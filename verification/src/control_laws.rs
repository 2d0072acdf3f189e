//! What keys, boxes and the display policy do, case by case.

use crate::checkbox::CheckState;
use crate::combobox::{ComboBoxEvent, ComboModel, Direction};
use crate::displaycolor::{
    Chains, ContentPrimaries, ContentTransfer, DisplayModel, DisplayPolicy, DisplaySettings,
    KeyModel, OutputGamut, OutputSpec, OutputTransfer, Platform,
};
use crate::value_controls::ModelStep;
use vstd::prelude::*;

verus! {

/// A recognized override decides who maps, however it is spelled.
pub proof fn lemma_forced_policy(forced: Seq<char>, platform: Platform, mode: Option<Seq<char>>)
    ensures
        crate::text::same_but_for_case(forced, "os"@) ==> crate::displaycolor::policy_of(
            Some(forced),
            platform,
            mode,
        ) == DisplayPolicy::OsManaged,
        crate::text::same_but_for_case(forced, "self"@) ==> crate::displaycolor::policy_of(
            Some(forced),
            platform,
            mode,
        ) == DisplayPolicy::SelfManaged,
        !crate::text::same_but_for_case(forced, "os"@) && !crate::text::same_but_for_case(
            forced,
            "self"@,
        ) ==> crate::displaycolor::policy_of(Some(forced), platform, mode)
            == crate::displaycolor::policy_of(None, platform, mode),
{
    reveal_strlit("os");
    reveal_strlit("self");
}

/// Without an override: a Wayland session and Windows with its automatic
/// colour management map by themselves; macOS does unless the mode is "icc";
/// elsewhere the application maps unless the mode is "off".
pub proof fn lemma_platform_policy(platform: Platform, mode: Option<Seq<char>>)
    ensures
        ({
            let os = crate::displaycolor::policy_of(None, platform, mode)
                == DisplayPolicy::OsManaged;
            match platform {
                Platform::Wayland => os,
                Platform::Windows { auto_color } => os <==> auto_color || mode == Some("off"@),
                Platform::MacOs => os <==> mode != Some("icc"@),
                Platform::X11 => os <==> mode == Some("off"@),
                Platform::Other => os <==> mode == Some("off"@),
            }
        }),
{
}

/// A key holds each of the settings it is made of; a mode that is not stored
/// is "icc", and without an override the content is named by the output.
pub proof fn lemma_key_settings(s: DisplaySettings, monitor: Option<String>)
    ensures
        ({
            let key = crate::displaycolor::key_of(&s, monitor);
            &&& key.policy == s.policy
            &&& s.mode matches Some(m) ==> key.mode == m@
            &&& s.mode is None ==> key.mode == "icc"@
            &&& key.custom_icc == s.custom_icc@
            &&& monitor matches Some(m) ==> key.monitor == m@
            &&& monitor is None ==> key.monitor.len() == 0
            &&& s.content_space@.len() == 0 ==> key.space == s.output.gamut_name@ + ":"@
                + s.output.transfer_name@
            &&& s.content_space@.len() > 0 ==> key.space == "override:"@ + s.content_space@
        }),
{
}

/// A space that no preference names starts from ordinary output.
pub proof fn lemma_unnamed_space(space: Seq<char>)
    requires
        !("override:"@.len() <= space.len() && space.take("override:"@.len() as int)
            == "override:"@),
    ensures
        !crate::displaycolor::named_by_preference(space),
        crate::displaycolor::content_of(space) == "sRGB Encoded Rec.709 (sRGB)"@,
{
}

/// A monitor is probed at once, and then at most every two seconds.
pub proof fn lemma_probe_interval(stamp: u64, now: u64)
    ensures
        crate::displaycolor::probe_due(None, now),
        crate::displaycolor::probe_due(Some(stamp), now) <==> now >= stamp + 2000,
{
}

/// A key is left without a chain when the system maps or the mode is not
/// "icc".
pub proof fn lemma_no_chain(key: KeyModel)
    ensures
        crate::displaycolor::passes_through(key) <==> !(key.policy == DisplayPolicy::SelfManaged
            && key.mode == "icc"@),
{
}

/// The declaration names the output's own primaries and transfer.
pub proof fn lemma_declared(gamut: OutputGamut, transfer: OutputTransfer)
    ensures
        ({
            let c = crate::displaycolor::declared(gamut, transfer);
            &&& c.primaries == ContentPrimaries::Srgb <==> gamut == OutputGamut::Srgb
            &&& c.primaries == ContentPrimaries::DisplayP3 <==> gamut == OutputGamut::DisplayP3
            &&& c.primaries == ContentPrimaries::Bt2020 <==> gamut == OutputGamut::Bt2020
            &&& c.transfer == ContentTransfer::Srgb <==> transfer == OutputTransfer::Srgb
            &&& c.transfer == ContentTransfer::Gamma22 <==> transfer == OutputTransfer::Gamma22
            &&& c.transfer == ContentTransfer::Pq <==> transfer == OutputTransfer::Pq
            &&& c.transfer == ContentTransfer::Hlg <==> transfer == OutputTransfer::Hlg
        }),
{
}

/// A layer that the system maps is told the output's own space.
pub proof fn lemma_declared_content(policy: DisplayPolicy, chains: Chains, output: OutputSpec)
    ensures
        ({
            let d = crate::displaycolor::declaration(policy, chains, &output);
            let maps = policy == DisplayPolicy::SelfManaged && (chains.named is Some
                || chains.xyz is Some || chains.bgra is Some);
            &&& maps ==> d.mode == DisplayPolicy::SelfManaged && d.content is None
            &&& !maps ==> d.mode == DisplayPolicy::OsManaged && d.content == Some(
                crate::displaycolor::declared(output.gamut, output.transfer),
            )
        }),
        output.ordinary() <==> output.gamut == OutputGamut::Srgb && output.transfer
            == OutputTransfer::Srgb,
{
}

/// Putting a chain in place keeps what is known of the monitor, and the
/// generation starts over behind its last value.
pub proof fn lemma_install_keeps(d: DisplayModel, key: KeyModel, chains: Chains)
    ensures
        ({
            let now = crate::displaycolor::installed(d, key, chains);
            &&& now.state == Some((key, chains))
            &&& now.monitor == d.monitor
            &&& now.last_probe == d.last_probe
            &&& d.state is Some && d.generation == u64::MAX ==> now.generation == 0
        }),
{
}

/// A toggle empties a full box and fills any other.
pub proof fn lemma_toggled(state: CheckState)
    ensures
        state == CheckState::Checked ==> crate::checkbox::toggled(state) == CheckState::Unchecked,
        state != CheckState::Checked ==> crate::checkbox::toggled(state) == CheckState::Checked,
        crate::checkbox::state_of(true) == CheckState::Checked,
        crate::checkbox::state_of(false) == CheckState::Unchecked,
{
}

/// Space and Enter toggle a box, and no other key does.
pub proof fn lemma_toggle_keys(key: Seq<char>)
    ensures
        crate::checkbox::toggles(key) <==> key == "space"@ || key == "enter"@,
{
}

/// A move selects the option next to the selected one, around the ends, and
/// reports it; a box without a selection moves from its first option, and one
/// without options stays as it is.
pub proof fn lemma_combo_moves(c: ComboModel, at: usize)
    requires
        c.options.len() <= i32::MAX,
        at < c.options.len(),
        c.selected == Some(at) || (c.selected is None && at == 0),
    ensures
        ({
            let len = c.options.len();
            let down: int = if at + 1 == len {
                0
            } else {
                at + 1
            };
            let up: int = if at == 0 {
                len - 1
            } else {
                at - 1
            };
            &&& c.moved(Direction::Down).0.selected == Some(down as usize)
            &&& c.moved(Direction::Up).0.selected == Some(up as usize)
            &&& c.moved(Direction::Down).1 == Some(
                ComboBoxEvent::Selected { value: down as usize },
            )
            &&& c.moved(Direction::Up).1 == Some(ComboBoxEvent::Selected { value: up as usize })
            &&& !c.moved(Direction::Down).0.open
            &&& !c.moved(Direction::Up).0.open
            &&& c.moved(Direction::Down).0.options == c.options
            &&& c.moved(Direction::Up).0.options == c.options
        }),
{
    crate::combobox::lemma_step(at as int, Direction::Down, c.options.len() as int);
    crate::combobox::lemma_step(at as int, Direction::Up, c.options.len() as int);
}

/// What the keys of a box do: closed, an arrow moves the selection and Enter
/// or Space opens the list at it; open, an arrow moves the highlight alone,
/// Enter or Space selects what is highlighted, and Escape closes the list.
/// Any other key is left to others.
pub proof fn lemma_combo_keys(c: ComboModel, key: Seq<char>)
    ensures
        ({
            let (now, effect) = c.keyed(key);
            let arrow = key == "down"@ || key == "up"@;
            let commit = key == "enter"@ || key == "space"@;
            &&& effect.taken <==> arrow || commit || key == "escape"@
            &&& !effect.taken ==> now == c && effect.event is None
            &&& now.options == c.options
            &&& key == "escape"@ ==> !now.open && now.selected == c.selected && effect.event is None
            &&& commit && !c.open ==> now.open && now.selected == c.selected
                && effect.event is None && (c.selected matches Some(i) ==> now.highlight == i) && (
            c.selected is None ==> now.highlight == 0)
            &&& commit && c.open && c.highlight < c.options.len() ==> now.selected == Some(
                c.options[c.highlight as int].index,
            ) && !now.open && effect.event == Some(
                ComboBoxEvent::Selected { value: c.options[c.highlight as int].index },
            )
            &&& commit && c.open && c.highlight >= c.options.len() ==> now == c
                && effect.event is None
            &&& arrow && c.open ==> now.open && now.selected == c.selected && effect.event is None
            &&& key == "down"@ && !c.open ==> now == c.moved(Direction::Down).0 && effect.event
                == c.moved(Direction::Down).1
            &&& key == "up"@ && !c.open ==> now == c.moved(Direction::Up).0 && effect.event
                == c.moved(Direction::Up).1
            &&& c.options.len() == 0 && arrow ==> now == c && effect.event is None
        }),
{
    lemma_key_names();
}

/// The highlight of an open list moves to the next option, around the ends.
pub proof fn lemma_combo_highlight(c: ComboModel, at: usize)
    requires
        c.open,
        c.options.len() <= i32::MAX,
        at < c.options.len(),
        c.highlight == at,
    ensures
        c.keyed("down"@).0.highlight == (if at + 1 == c.options.len() {
            0
        } else {
            at + 1
        }),
        c.keyed("up"@).0.highlight == (if at == 0 {
            c.options.len() - 1
        } else {
            at - 1
        }),
{
    lemma_key_names();
    crate::combobox::lemma_step(at as int, Direction::Down, c.options.len() as int);
    crate::combobox::lemma_step(at as int, Direction::Up, c.options.len() as int);
}

/// A box shows the label of the option that is selected, and its placeholder
/// when none is.
pub proof fn lemma_combo_label(c: ComboModel)
    ensures
        c.selected matches Some(i) ==> i < c.options.len() ==> c.label()
            == c.options[i as int].label,
        c.selected matches Some(i) ==> i >= c.options.len() ==> c.label() == c.placeholder,
        c.selected is None ==> c.label() == c.placeholder,
{
}

/// The keys that step a slider and a spin box: an arrow by a step, Home to the
/// start, End to the end. The slider takes the level arrows, the spin box the
/// upright ones.
pub proof fn lemma_step_keys(fine: bool)
    ensures
        crate::value_controls::slider_step("left"@, fine) == Some(
            ModelStep::Step { up: false, fine },
        ),
        crate::value_controls::slider_step("right"@, fine) == Some(
            ModelStep::Step { up: true, fine },
        ),
        crate::value_controls::slider_step("home"@, fine) == Some(ModelStep::ToStart),
        crate::value_controls::slider_step("end"@, fine) == Some(ModelStep::ToEnd),
        crate::value_controls::spin_step("up"@, fine) == Some(ModelStep::Step { up: true, fine }),
        crate::value_controls::spin_step("down"@, fine) == Some(
            ModelStep::Step { up: false, fine },
        ),
        crate::value_controls::spin_step("home"@, fine) == Some(ModelStep::ToStart),
        crate::value_controls::spin_step("end"@, fine) == Some(ModelStep::ToEnd),
        forall|key: Seq<char>|
            key != "left"@ && key != "right"@ && key != "home"@ && key != "end"@
                ==> #[trigger] crate::value_controls::slider_step(key, fine) is None,
        forall|key: Seq<char>|
            key != "up"@ && key != "down"@ && key != "home"@ && key != "end"@
                ==> #[trigger] crate::value_controls::spin_step(key, fine) is None,
{
    lemma_key_names();
}

/// The names of the keys differ.
proof fn lemma_key_names()
    ensures
        "left"@ != "right"@,
        "left"@ != "home"@,
        "left"@ != "end"@,
        "right"@ != "home"@,
        "right"@ != "end"@,
        "home"@ != "end"@,
        "up"@ != "down"@,
        "up"@ != "home"@,
        "up"@ != "end"@,
        "down"@ != "home"@,
        "down"@ != "end"@,
        "down"@ != "enter"@,
        "down"@ != "space"@,
        "down"@ != "escape"@,
        "up"@ != "enter"@,
        "up"@ != "space"@,
        "up"@ != "escape"@,
        "enter"@ != "escape"@,
        "space"@ != "escape"@,
{
    reveal_strlit("left");
    reveal_strlit("right");
    reveal_strlit("home");
    reveal_strlit("end");
    reveal_strlit("up");
    reveal_strlit("down");
    reveal_strlit("enter");
    reveal_strlit("space");
    reveal_strlit("escape");
    assert("left"@[0] == 'l' && "right"@[0] == 'r' && "home"@[0] == 'h' && "end"@[0] == 'e');
    assert("up"@[0] == 'u' && "down"@[0] == 'd' && "enter"@[0] == 'e' && "space"@[0] == 's'
        && "escape"@[0] == 'e');
    assert("enter"@.len() == 5 && "escape"@.len() == 6);
}

/// A key starts a number when it is one digit, a minus sign or a point.
pub proof fn lemma_number_keys(c: char)
    ensures
        crate::value_controls::starts_number(seq![c]) <==> ('0' <= c <= '9' || c == '-' || c
            == '.'),
        forall|key: Seq<char>|
            key.len() != 1 ==> !#[trigger] crate::value_controls::starts_number(key),
{
}

/// The end of a drag reports the value and the end, and leaves the slider at
/// rest; without a drag there is nothing to report.
pub proof fn lemma_drag_ends(
    s: crate::value_controls::Slider,
    value: crate::value_controls::SliderValue,
)
    ensures
        ({
            let (now, events) = crate::value_controls::drag_finished(s, value);
            &&& now.control == s.control
            &&& !now.dragging
            &&& s.dragging ==> !now.jumped && events == Some(
                (
                    crate::value_controls::SliderEvent::ValueChanged { control: s.control, value },
                    crate::value_controls::SliderEvent::DragFinished { control: s.control },
                ),
            )
            &&& !s.dragging ==> now == s && events is None
        }),
        crate::value_controls::pressed(s, true).jumped,
        !crate::value_controls::pressed(s, false).jumped,
        crate::value_controls::report(s, value)
            == (crate::value_controls::SliderEvent::ValueChanged { control: s.control, value }),
{
}

} // verus!
