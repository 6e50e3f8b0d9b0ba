use knob::app::{
    choices_status, control_action, level_status, mirrored_index, mute_status,
    no_session_status, step_text, switched_status, AppState, ControlAction, Effect,
};
use knob::config::{KnobKey, PressAction, Settings};
use knob::hook::{intercepts, set_armed, set_binding, set_window, shared, Command, WM_KEYDOWN};

fn state(target: &str, targets: &[&str], press: PressAction) -> AppState {
    AppState::new(Settings {
        target: target.to_string(),
        targets: targets.iter().map(|name| name.to_string()).collect(),
        raise_key: KnobKey::VolumeUp,
        step_percent: 5,
        press_action: press,
        launch_on_startup: false,
    })
}

#[test]
fn knob_commands() {
    let s = state("vlc.exe", &[], PressAction::MuteToggle);
    assert_eq!(s.on_knob(Command::Raise), Effect::Raise);
    assert_eq!(s.on_knob(Command::Lower), Effect::Lower);
    assert_eq!(s.on_knob(Command::Press), Effect::ToggleMute);
    assert_eq!(state("vlc.exe", &[], PressAction::NextTarget).on_knob(Command::Press), Effect::CycleTarget);
    assert_eq!(state("vlc.exe", &[], PressAction::PassThrough).on_knob(Command::Press), Effect::Nothing);
    assert_eq!(state("vlc.exe", &[], PressAction::Disabled).on_knob(Command::Press), Effect::Nothing);
}

#[test]
fn knob_without_target_does_nothing_to_volume() {
    let s = state("", &[], PressAction::MuteToggle);
    assert_eq!(s.on_knob(Command::Raise), Effect::Nothing);
    assert_eq!(s.on_knob(Command::Lower), Effect::Nothing);
    assert_eq!(s.on_knob(Command::Press), Effect::Nothing);
    assert_eq!(state("", &[], PressAction::NextTarget).on_knob(Command::Press), Effect::CycleTarget);
}

#[test]
fn tick_speaks_only_on_transitions() {
    let mut s = state("vlc.exe", &[], PressAction::MuteToggle);
    let first = s.tick(false, true);
    assert!(first.armed);
    assert_eq!(first.status.as_deref(), Some("driving vlc.exe"));
    let second = s.tick(false, true);
    assert!(second.armed);
    assert_eq!(second.status, None);
    let third = s.tick(false, false);
    assert!(!third.armed);
    assert_eq!(
        third.status.as_deref(),
        Some("vlc.exe is not playing, the knob falls back to system volume")
    );
    s.forget_state();
    assert_eq!(
        s.tick(false, false).status.as_deref(),
        Some("vlc.exe is not playing, the knob falls back to system volume")
    );
}

#[test]
fn tick_when_suspended_or_without_target() {
    let mut s = state("vlc.exe", &[], PressAction::MuteToggle);
    let suspended = s.tick(true, true);
    assert!(!suspended.armed);
    assert_eq!(suspended.status.as_deref(), Some("interception suspended"));
    let mut empty = state("", &[], PressAction::MuteToggle);
    let tick = empty.tick(false, true);
    assert!(!tick.armed);
    assert_eq!(
        tick.status.as_deref(),
        Some("no target selected, the knob still controls system volume")
    );
}

#[test]
fn tooltips() {
    let s = state("vlc.exe", &[], PressAction::MuteToggle);
    assert_eq!(s.tooltip(false, Some(40)), "knob - vlc.exe 40%");
    assert_eq!(s.tooltip(false, None), "knob - vlc.exe (silent)");
    assert_eq!(s.tooltip(true, Some(40)), "knob - suspended");
    assert_eq!(state("", &[], PressAction::MuteToggle).tooltip(false, Some(3)), "knob - no target");
}

#[test]
fn cycle_target_moves_on_and_forgets() {
    let mut s = state("a.exe", &["a.exe", "b.exe"], PressAction::NextTarget);
    s.tick(false, true);
    assert_eq!(s.cycle_target().as_deref(), Some("b.exe"));
    assert_eq!(s.settings.target, "b.exe");
    assert_eq!(s.armed, None);
    assert_eq!(s.cycle_target().as_deref(), Some("a.exe"));
    let mut lone = state("a.exe", &["a.exe"], PressAction::NextTarget);
    lone.tick(false, true);
    assert_eq!(lone.cycle_target(), None);
    assert_eq!(lone.settings.target, "a.exe");
    assert_eq!(lone.armed, Some(true));
}

#[test]
fn apply_form_writes_settings() {
    let mut s = state("a.exe", &["a.exe"], PressAction::MuteToggle);
    s.apply_form("Spotify.exe".to_string(), 1, 2, 40, true);
    assert_eq!(s.settings.target, "Spotify.exe");
    assert_eq!(s.settings.targets, vec!["a.exe", "Spotify.exe"]);
    assert_eq!(s.settings.raise_key, KnobKey::VolumeDown);
    assert_eq!(s.settings.press_action, PressAction::PassThrough);
    assert_eq!(s.settings.step_percent, 25);
    assert!(s.settings.launch_on_startup);
    s.apply_form("spotify.EXE".to_string(), -1, -1, -5, false);
    assert_eq!(s.settings.targets, vec!["a.exe", "Spotify.exe"]);
    assert_eq!(s.settings.raise_key, KnobKey::VolumeUp);
    assert_eq!(s.settings.press_action, PressAction::MuteToggle);
    assert_eq!(s.settings.step_percent, 1);
    s.apply_form(String::new(), 0, 0, 12, false);
    assert_eq!(s.settings.target, "");
    assert_eq!(s.settings.step_percent, 12);
    assert_eq!(s.settings.targets.len(), 2);
}

#[test]
fn target_choices_merge_active() {
    let s = state("", &["spotify.exe", "vlc.exe"], PressAction::MuteToggle);
    let active = vec!["VLC.exe".to_string(), "chrome.exe".to_string()];
    assert_eq!(s.target_choices(Some(active)), vec!["spotify.exe", "vlc.exe", "chrome.exe"]);
    assert_eq!(s.target_choices(None), vec!["spotify.exe", "vlc.exe"]);
}

#[test]
fn mirrored_dropdowns() {
    assert_eq!(mirrored_index(0), 1);
    assert_eq!(mirrored_index(1), 0);
    assert_eq!(mirrored_index(-1), 1);
}

#[test]
fn control_actions() {
    assert_eq!(control_action(1002, 0), ControlAction::Refresh);
    assert_eq!(control_action(1008, 0), ControlAction::Save);
    assert_eq!(control_action(1003, 1), ControlAction::MirrorToLower);
    assert_eq!(control_action(1004, 1), ControlAction::MirrorToRaise);
    assert_eq!(control_action(1001, 1), ControlAction::MarkUnsaved);
    assert_eq!(control_action(1006, 1), ControlAction::MarkUnsaved);
    assert_eq!(control_action(1007, 0), ControlAction::MarkUnsaved);
    assert_eq!(control_action(1007, 1), ControlAction::Ignore);
    assert_eq!(control_action(1003, 0), ControlAction::Ignore);
    assert_eq!(control_action(1005, 0), ControlAction::Ignore);
}

#[test]
fn status_texts() {
    assert_eq!(level_status("vlc.exe", 45), "vlc.exe - 45%");
    assert_eq!(no_session_status("vlc.exe"), "vlc.exe has no audio session");
    assert_eq!(mute_status("vlc.exe", true), "vlc.exe muted");
    assert_eq!(mute_status("vlc.exe", false), "vlc.exe unmuted");
    assert_eq!(switched_status("b.exe"), "switched to b.exe");
    assert_eq!(choices_status(3), "3 applications to choose from");
    assert_eq!(step_text(5), "Volume step: 5% per detent");
}

#[test]
fn silent_target_hands_keys_back() {
    let mut s = state("vlc.exe", &[], PressAction::MuteToggle);
    let mut hook = shared();
    set_window(&mut hook, 7);
    set_binding(&mut hook, 0xAF, 0xAE, PressAction::MuteToggle);
    set_armed(&mut hook, s.tick(false, true).armed);
    assert!(intercepts(&hook, WM_KEYDOWN, 0xAF).swallow);
    set_armed(&mut hook, s.tick(false, false).armed);
    assert!(!intercepts(&hook, WM_KEYDOWN, 0xAF).swallow);
    set_armed(&mut hook, s.tick(true, true).armed);
    assert!(!intercepts(&hook, WM_KEYDOWN, 0xAF).swallow);
}

#[test]
fn cycling_visits_every_target() {
    let mut s = state("b.exe", &["a.exe", "b.exe", "c.exe"], PressAction::NextTarget);
    let mut seen = Vec::new();
    for _ in 0..3 {
        seen.push(s.cycle_target().unwrap());
    }
    assert_eq!(seen, vec!["c.exe", "a.exe", "b.exe"]);
    assert_eq!(s.settings.target, "b.exe");
}
