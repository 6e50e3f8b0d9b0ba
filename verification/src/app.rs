//! The program's decisions between events: what a knob command does, when the
//! hook is armed, what the status line and the tooltip say, and how the form
//! is written back into the settings.

use vstd::prelude::*;
use crate::config::{
    clamp_step, knob_at, knob_index, knows, next_of, opposite_of, press_at, remembered, texts,
    KnobKey, PressAction, Settings, SettingsView, STEP_MAX, STEP_MIN,
};
use crate::hook::{route, Command, Interception, Shared};
use crate::names::{merge, merged};
use crate::text::{joined, decimal, decimal_i32, decimal_usize, push_str};
use crate::ui::{ID_LOWER, ID_PRESS, ID_RAISE, ID_REFRESH, ID_SAVE, ID_STARTUP, ID_TARGET};

verus! {

/// How often the target is re-checked for live audio sessions, in
/// milliseconds.
pub const TICK_MS: u32 = 2000;

/// What a knob command asks of the mixer.
#[derive(Debug, Clone, Copy, PartialEq, Eq, Structural)]
pub enum Effect {
    /// Move the target's volume up by one step.
    Raise,
    /// Move the target's volume down by one step.
    Lower,
    ToggleMute,
    /// Switch to the next remembered target.
    CycleTarget,
    Nothing,
}

/// Turning the knob moves the target's volume and pressing it does what the
/// press action says; without a target there is no volume to move or mute.
pub open spec fn effect_of(command: Command, press: PressAction, target: Seq<char>) -> Effect {
    match command {
        Command::Raise => if target.len() == 0 {
            Effect::Nothing
        } else {
            Effect::Raise
        },
        Command::Lower => if target.len() == 0 {
            Effect::Nothing
        } else {
            Effect::Lower
        },
        Command::Press => match press {
            PressAction::MuteToggle => if target.len() == 0 {
                Effect::Nothing
            } else {
                Effect::ToggleMute
            },
            PressAction::NextTarget => Effect::CycleTarget,
            _ => Effect::Nothing,
        },
    }
}

/// The hook is armed while the target has a live audio session and
/// interception is not suspended.
pub open spec fn armed_for(target: Seq<char>, suspended: bool, has_level: bool) -> bool {
    target.len() > 0 && has_level && !suspended
}

/// A tick writes the status line only when its conclusion differs from the
/// last one, or when there was none.
pub open spec fn speaks(previous: Option<bool>, armed: bool) -> bool {
    previous != Some(armed)
}

/// The status line describing what the knob is doing.
pub open spec fn state_text(target: Seq<char>, suspended: bool, armed: bool) -> Seq<char> {
    if suspended {
        "interception suspended"@
    } else if target.len() == 0 {
        "no target selected, the knob still controls system volume"@
    } else if armed {
        "driving "@ + target
    } else {
        target + " is not playing, the knob falls back to system volume"@
    }
}

/// The tray tooltip; `level` is the target's volume in percent, when it has
/// a session.
pub open spec fn tooltip_text(target: Seq<char>, suspended: bool, level: Option<i32>) -> Seq<char> {
    if suspended {
        "knob - suspended"@
    } else if target.len() == 0 {
        "knob - no target"@
    } else {
        match level {
            Some(percent) => "knob - "@ + target + " "@ + decimal(percent as int) + "%"@,
            None => "knob - "@ + target + " (silent)"@,
        }
    }
}

/// The outcome of a tick.
pub struct Tick {
    /// Whether the hook should be armed.
    pub armed: bool,
    /// The new status line, when what the knob does has changed.
    pub status: Option<String>,
}

/// What the window knows between events.
pub struct AppState {
    pub settings: Settings,
    /// What the last tick concluded, so the polling loop only writes the
    /// status line when something actually changed and does not wipe out
    /// what the user was just told.
    pub armed: Option<bool>,
}

/// The settings after the form was saved: the typed target becomes the
/// target and is remembered, the dropdown positions pick the keys and the
/// press action, and the slider is clamped into range.
pub open spec fn form_applied(
    before: SettingsView,
    target: Seq<char>,
    raise_index: i32,
    press_index: i32,
    step: i32,
    startup: bool,
) -> SettingsView {
    SettingsView {
        target,
        targets: remembered(before.targets, target),
        raise_key: knob_at(raise_index),
        press_action: press_at(press_index),
        step_percent: (if step < STEP_MIN {
            STEP_MIN as int
        } else if step > STEP_MAX {
            STEP_MAX as int
        } else {
            step as int
        }) as u8,
        launch_on_startup: startup,
    }
}

impl AppState {
    /// The state right after start-up: nothing concluded yet.
    pub fn new(settings: Settings) -> (res: AppState)
        ensures
            res.settings@ == settings@,
            res.armed is None,
    {
        AppState { settings, armed: None }
    }

    /// What a knob command does.
    pub fn on_knob(&self, command: Command) -> (res: Effect)
        ensures
            res == effect_of(command, self.settings.press_action, self.settings@.target),
    {
        let empty: bool = self.settings.target.as_str().is_empty();
        match command {
            Command::Raise => if empty {
                Effect::Nothing
            } else {
                Effect::Raise
            },
            Command::Lower => if empty {
                Effect::Nothing
            } else {
                Effect::Lower
            },
            Command::Press => match self.settings.press_action {
                PressAction::MuteToggle => if empty {
                    Effect::Nothing
                } else {
                    Effect::ToggleMute
                },
                PressAction::NextTarget => Effect::CycleTarget,
                PressAction::PassThrough => Effect::Nothing,
                PressAction::Disabled => Effect::Nothing,
            },
        }
    }

    /// When the target is not playing anything the keys are handed back to
    /// Windows, so closing the player turns the knob into a system volume
    /// knob again instead of making it dead. The status line is only
    /// written on a transition.
    pub fn tick(&mut self, suspended: bool, has_level: bool) -> (res: Tick)
        ensures
            res.armed == armed_for(old(self).settings@.target, suspended, has_level),
            final(self).settings@ == old(self).settings@,
            final(self).armed == Some(res.armed),
            res.status is Some <==> speaks(old(self).armed, res.armed),
            res.status is Some <==> old(self).armed != Some(res.armed),
            old(self).armed == Some(!res.armed) ==> res.status is Some,
            res.armed <==> (old(self).settings@.target.len() > 0 && has_level && !suspended),
            match res.status {
                Some(text) => res.armed ==> text@ == "driving "@ + old(self).settings@.target,
                None => true,
            },
            match res.status {
                Some(text) => text@ == state_text(old(self).settings@.target, suspended, res.armed),
                None => true,
            },
    {
        let live: bool = !self.settings.target.as_str().is_empty() && has_level;
        let armed: bool = live && !suspended;
        let changed: bool = match self.armed {
            Some(previous) => previous != armed,
            None => true,
        };
        if changed {
            self.armed = Some(armed);
            let text: String = self.state_line(suspended, armed);
            Tick { armed, status: Some(text) }
        } else {
            Tick { armed, status: None }
        }
    }

    /// The status line for the current target.
    pub fn state_line(&self, suspended: bool, armed: bool) -> (res: String)
        ensures
            res@ == state_text(self.settings@.target, suspended, armed),
    {
        if suspended {
            return "interception suspended".to_owned();
        }
        if self.settings.target.as_str().is_empty() {
            return "no target selected, the knob still controls system volume".to_owned();
        }
        let target: &str = self.settings.target.as_str();
        if armed {
            joined("driving ", target)
        } else {
            joined(target, " is not playing, the knob falls back to system volume")
        }
    }

    /// The tray tooltip; `level` is the target's volume in percent, rounded,
    /// when it has a session.
    pub fn tooltip(&self, suspended: bool, level: Option<i32>) -> (res: String)
        ensures
            res@ == tooltip_text(self.settings@.target, suspended, level),
    {
        if suspended {
            return "knob - suspended".to_owned();
        }
        if self.settings.target.as_str().is_empty() {
            return "knob - no target".to_owned();
        }
        let mut res: String = joined("knob - ", self.settings.target.as_str());
        match level {
            Some(percent) => {
                push_str(&mut res, " ");
                let digits: String = decimal_i32(percent);
                push_str(&mut res, digits.as_str());
                push_str(&mut res, "%");
            },
            None => {
                push_str(&mut res, " (silent)");
            },
        }
        res
    }

    /// Forces the next tick to restate what the knob is doing.
    pub fn forget_state(&mut self)
        ensures
            final(self).armed is None,
            final(self).settings@ == old(self).settings@,
    {
        self.armed = None;
    }

    /// Switches to the next remembered target, if there is one, and returns
    /// it; the next tick then restates what the knob does.
    pub fn cycle_target(&mut self) -> (res: Option<String>)
        ensures
            match res {
                Some(next) => {
                    &&& next_of(old(self).settings@.target, old(self).settings@.targets) == Some(
                        next@,
                    )
                    &&& final(self).settings@ == (SettingsView {
                        target: next@,
                        ..old(self).settings@
                    })
                    &&& final(self).armed is None
                },
                None => {
                    &&& next_of(old(self).settings@.target, old(self).settings@.targets) is None
                    &&& final(self).settings@ == old(self).settings@
                    &&& final(self).armed == old(self).armed
                },
            },
    {
        let next: String = match self.settings.next_target() {
            Some(name) => name.to_owned(),
            None => {
                return None;
            },
        };
        self.settings.target = next.clone();
        self.armed = None;
        Some(next)
    }

    /// Writes the form back into the settings.
    pub fn apply_form(
        &mut self,
        target: String,
        raise_index: i32,
        press_index: i32,
        step: i32,
        startup: bool,
    )
        ensures
            final(self).settings@ == form_applied(
                old(self).settings@,
                target@,
                raise_index,
                press_index,
                step,
                startup,
            ),
            final(self).armed == old(self).armed,
    {
        let clamped: i32 = if step < STEP_MIN as i32 {
            STEP_MIN as i32
        } else if step > STEP_MAX as i32 {
            STEP_MAX as i32
        } else {
            step
        };
        self.settings.raise_key = KnobKey::from_index(raise_index);
        self.settings.press_action = PressAction::from_index(press_index);
        self.settings.step_percent = clamped as u8;
        self.settings.launch_on_startup = startup;
        self.settings.target = target.clone();
        self.settings.remember_target(target.as_str());
    }

    /// The remembered names plus whatever is currently making sound, when
    /// that could be found out.
    pub fn target_choices(&self, active: Option<Vec<String>>) -> (res: Vec<String>)
        ensures
            texts(res@) == match active {
                Some(extra) => merged(self.settings@.targets, texts(extra@)),
                None => self.settings@.targets,
            },
    {
        let mut names: Vec<String> = Vec::new();
        let n: usize = self.settings.targets.len();
        for i in 0..n
            invariant
                n == self.settings.targets@.len(),
                texts(names@) == texts(self.settings.targets@).take(i as int),
        {
            let name: String = self.settings.targets[i].clone();
            let ghost before = texts(names@);
            names.push(name);
            assert(texts(names@) =~= before.push(self.settings.targets@[i as int]@));
            assert(texts(names@) =~= texts(self.settings.targets@).take(i + 1));
        }
        assert(texts(self.settings.targets@).take(n as int) =~= texts(self.settings.targets@));
        match active {
            Some(extra) => {
                merge(&mut names, extra);
            },
            None => {},
        }
        names
    }
}

/// The position the other key dropdown moves to when one of the two is
/// changed, so that the pair never names the same key twice.
pub fn mirrored_index(selection: i32) -> (res: i32)
    ensures
        res == knob_index(opposite_of(knob_at(selection))),
{
    KnobKey::from_index(selection).opposite().index()
}

/// The control notification of a button click.
pub const BN_CLICKED: u16 = 0;

/// The control notification of a changed combo box selection.
pub const CBN_SELCHANGE: u16 = 1;

/// What a control notification asks of the window.
#[derive(Debug, Clone, Copy, PartialEq, Eq, Structural)]
pub enum ControlAction {
    /// Re-read the applications holding audio sessions.
    Refresh,
    Save,
    /// The raise key changed: move the lower key to the other one.
    MirrorToLower,
    /// The lower key changed: move the raise key to the other one.
    MirrorToRaise,
    MarkUnsaved,
    Ignore,
}

/// The action each control notification stands for.
pub open spec fn control_action_of(control: i32, notification: u16) -> ControlAction {
    if control == ID_REFRESH && notification == BN_CLICKED {
        ControlAction::Refresh
    } else if control == ID_SAVE && notification == BN_CLICKED {
        ControlAction::Save
    } else if control == ID_RAISE && notification == CBN_SELCHANGE {
        ControlAction::MirrorToLower
    } else if control == ID_LOWER && notification == CBN_SELCHANGE {
        ControlAction::MirrorToRaise
    } else if ((control == ID_TARGET || control == ID_PRESS) && notification == CBN_SELCHANGE) || (
    control == ID_STARTUP && notification == BN_CLICKED) {
        ControlAction::MarkUnsaved
    } else {
        ControlAction::Ignore
    }
}

/// Routes a control notification.
pub fn control_action(control: i32, notification: u16) -> (res: ControlAction)
    ensures
        res == control_action_of(control, notification),
{
    if control == ID_REFRESH && notification == BN_CLICKED {
        ControlAction::Refresh
    } else if control == ID_SAVE && notification == BN_CLICKED {
        ControlAction::Save
    } else if control == ID_RAISE && notification == CBN_SELCHANGE {
        ControlAction::MirrorToLower
    } else if control == ID_LOWER && notification == CBN_SELCHANGE {
        ControlAction::MirrorToRaise
    } else if ((control == ID_TARGET || control == ID_PRESS) && notification == CBN_SELCHANGE) || (
    control == ID_STARTUP && notification == BN_CLICKED) {
        ControlAction::MarkUnsaved
    } else {
        ControlAction::Ignore
    }
}

/// The status after a volume step landed: `<target> - <percent>%`.
pub fn level_status(target: &str, percent: i32) -> (res: String)
    ensures
        res@ == target@ + " - "@ + decimal(percent as int) + "%"@,
{
    let mut res: String = joined(target, " - ");
    let digits: String = decimal_i32(percent);
    push_str(&mut res, digits.as_str());
    push_str(&mut res, "%");
    res
}

/// The status when nothing is playing under the target's name.
pub fn no_session_status(target: &str) -> (res: String)
    ensures
        res@ == target@ + " has no audio session"@,
{
    joined(target, " has no audio session")
}

/// The status after a mute toggle.
pub fn mute_status(target: &str, muted: bool) -> (res: String)
    ensures
        res@ == target@ + (if muted {
            " muted"@
        } else {
            " unmuted"@
        }),
{
    if muted {
        joined(target, " muted")
    } else {
        joined(target, " unmuted")
    }
}

/// The status after switching targets.
pub fn switched_status(next: &str) -> (res: String)
    ensures
        res@ == "switched to "@ + next@,
{
    joined("switched to ", next)
}

/// The status after the list of applications was refreshed.
pub fn choices_status(found: usize) -> (res: String)
    ensures
        res@ == decimal(found as int) + " applications to choose from"@,
{
    let mut res: String = decimal_usize(found);
    push_str(&mut res, " applications to choose from");
    res
}

/// The label above the step slider.
pub fn step_text(step: i32) -> (res: String)
    ensures
        res@ == "Volume step: "@ + decimal(step as int) + "% per detent"@,
{
    let mut res: String = "Volume step: ".to_owned();
    let digits: String = decimal_i32(step);
    push_str(&mut res, digits.as_str());
    push_str(&mut res, "% per detent");
    res
}

/// With a target, turning the knob one way raises the target's volume and
/// the other way lowers it, whatever the press action; pressing mutes only
/// when the press action says so, and cycles targets only when it says that.
/// Without a target nothing moves or mutes.
pub proof fn lemma_knob_effects(command: Command, press: PressAction, target: Seq<char>)
    ensures
        target.len() > 0 ==> effect_of(Command::Raise, press, target) == Effect::Raise,
        target.len() > 0 ==> effect_of(Command::Lower, press, target) == Effect::Lower,
        effect_of(command, press, target) == Effect::Raise ==> command == Command::Raise,
        effect_of(command, press, target) == Effect::Lower ==> command == Command::Lower,
        effect_of(command, press, target) == Effect::ToggleMute <==> (command == Command::Press
            && press == PressAction::MuteToggle && target.len() > 0),
        effect_of(command, press, target) == Effect::CycleTarget <==> (command == Command::Press
            && press == PressAction::NextTarget),
        target.len() == 0 ==> effect_of(command, press, target) == Effect::Nothing
            || effect_of(command, press, target) == Effect::CycleTarget,
{
}

/// The hook is armed exactly while there is a target, it has a live
/// session, and interception is not suspended; the status line then says
/// the knob drives the target.
pub proof fn lemma_armed_when_playing(target: Seq<char>, suspended: bool, has_level: bool)
    ensures
        armed_for(target, suspended, has_level) <==> (target.len() > 0 && has_level
            && !suspended),
        armed_for(target, suspended, has_level) ==> state_text(target, suspended, true)
            == "driving "@ + target,
        !suspended && target.len() > 0 ==> state_text(target, suspended, false) == target
            + " is not playing, the knob falls back to system volume"@,
{
}

/// A tick right after another that reached the same conclusion stays quiet,
/// and a tick after the state was forgotten always speaks.
pub proof fn lemma_tick_speaks_once(armed: bool)
    ensures
        !speaks(Some(armed), armed),
        speaks(None, armed),
{
}

/// A tick whose conclusion differs from the previous one always writes the
/// status line, in either direction: from disarmed to armed as well as from
/// armed to disarmed.
pub proof fn lemma_tick_speaks_on_change(previous: bool, armed: bool)
    ensures
        speaks(Some(previous), armed) <==> previous != armed,
        speaks(Some(false), true),
        speaks(Some(true), false),
{
}

/// Saving the form with a target leaves that target among the remembered
/// ones, and the step within range.
pub proof fn lemma_form_remembers_target(
    before: SettingsView,
    target: Seq<char>,
    raise_index: i32,
    press_index: i32,
    step: i32,
    startup: bool,
)
    requires
        target.len() > 0,
    ensures
        ({
            let after = form_applied(before, target, raise_index, press_index, step, startup);
            &&& knows(after.targets, after.target)
            &&& STEP_MIN <= after.step_percent <= STEP_MAX
        }),
{
    let after = form_applied(before, target, raise_index, press_index, step, startup);
    crate::text::lemma_eq_ignore_ascii_equivalence(target, target, target);
    if !knows(before.targets, target) {
        assert(after.targets[before.targets.len() as int] == target);
    }
}

/// While the target is not playing anything, or while interception is
/// suspended, the tick disarms the hook and every key falls through to
/// Windows, so the knob goes back to driving the system volume.
pub proof fn lemma_fallback_passes_through(
    state: Shared,
    target: Seq<char>,
    suspended: bool,
    has_level: bool,
    message: u32,
    key: u16,
)
    requires
        !has_level || suspended,
    ensures
        route(
            Shared { armed: armed_for(target, suspended, has_level), ..state },
            message,
            key,
        ) == (Interception { post: None, swallow: false }),
{
}

/// Changing either key dropdown leaves the two naming different keys.
pub proof fn lemma_mirror_differs(selection: i32)
    ensures
        knob_at(knob_index(opposite_of(knob_at(selection)))) != knob_at(selection),
{
}

} // verus!
