use knob::config::PressAction;
use knob::hook::{
    classify, intercepts, set_armed, set_binding, set_window, shared, Command, Interception,
    WM_KEYDOWN, WM_KEYUP, WM_SYSKEYDOWN, WM_SYSKEYUP,
};

const UP: u16 = 0xAF;
const DOWN: u16 = 0xAE;
const PLAY: u16 = 0xB3;

#[test]
fn command_codes_round_trip() {
    for command in [Command::Raise, Command::Lower, Command::Press] {
        assert_eq!(Command::from_code(command.code()), Some(command));
    }
    assert_eq!(Command::Raise.code(), 1);
    assert_eq!(Command::Lower.code(), 2);
    assert_eq!(Command::Press.code(), 3);
    assert_eq!(Command::from_code(0), None);
    assert_eq!(Command::from_code(4), None);
}

#[test]
fn shared_starts_empty() {
    let state = shared();
    assert_eq!(state.window, 0);
    assert!(!state.armed);
    assert!(!state.intercept_press);
}

#[test]
fn binding_sets_keys() {
    let mut state = shared();
    set_binding(&mut state, DOWN, UP, PressAction::MuteToggle);
    assert_eq!(state.raise, DOWN);
    assert_eq!(state.lower, UP);
    assert_eq!(state.press, PLAY);
    assert!(state.intercept_press);
    set_binding(&mut state, UP, DOWN, PressAction::PassThrough);
    assert!(!state.intercept_press);
    set_binding(&mut state, UP, DOWN, PressAction::Disabled);
    assert!(state.intercept_press);
}

#[test]
fn classify_keys() {
    let mut state = shared();
    set_binding(&mut state, UP, DOWN, PressAction::NextTarget);
    assert_eq!(classify(&state, UP), Some(Command::Raise));
    assert_eq!(classify(&state, DOWN), Some(Command::Lower));
    assert_eq!(classify(&state, PLAY), Some(Command::Press));
    assert_eq!(classify(&state, 0x41), None);
    set_binding(&mut state, UP, DOWN, PressAction::PassThrough);
    assert_eq!(classify(&state, PLAY), None);
}

fn armed_state() -> knob::hook::Shared {
    let mut state = shared();
    set_window(&mut state, 42);
    set_binding(&mut state, UP, DOWN, PressAction::MuteToggle);
    set_armed(&mut state, true);
    state
}

#[test]
fn armed_keys_are_swallowed_and_posted_on_press() {
    let state = armed_state();
    assert_eq!(
        intercepts(&state, WM_KEYDOWN, UP),
        Interception { post: Some(Command::Raise), swallow: true }
    );
    assert_eq!(
        intercepts(&state, WM_SYSKEYDOWN, DOWN),
        Interception { post: Some(Command::Lower), swallow: true }
    );
    assert_eq!(intercepts(&state, WM_KEYUP, UP), Interception { post: None, swallow: true });
    assert_eq!(intercepts(&state, WM_SYSKEYUP, PLAY), Interception { post: None, swallow: true });
}

#[test]
fn release_follows_press() {
    let state = armed_state();
    for key in [UP, DOWN, PLAY, 0x41] {
        assert_eq!(
            intercepts(&state, WM_KEYDOWN, key).swallow,
            intercepts(&state, WM_KEYUP, key).swallow
        );
    }
}

#[test]
fn other_messages_pass() {
    let state = armed_state();
    assert_eq!(intercepts(&state, 0x0102, UP), Interception { post: None, swallow: false });
}

#[test]
fn disarmed_or_windowless_passes_through() {
    let mut state = armed_state();
    set_armed(&mut state, false);
    assert_eq!(intercepts(&state, WM_KEYDOWN, UP), Interception { post: None, swallow: false });
    let mut state = armed_state();
    set_window(&mut state, 0);
    assert_eq!(intercepts(&state, WM_KEYDOWN, UP), Interception { post: None, swallow: false });
}

#[test]
fn pass_through_press_reaches_player() {
    let mut state = armed_state();
    set_binding(&mut state, UP, DOWN, PressAction::PassThrough);
    assert_eq!(intercepts(&state, WM_KEYDOWN, PLAY), Interception { post: None, swallow: false });
    assert_eq!(intercepts(&state, WM_KEYUP, PLAY), Interception { post: None, swallow: false });
}

#[test]
fn unbound_key_passes() {
    let state = armed_state();
    assert_eq!(intercepts(&state, WM_KEYDOWN, 0x41), Interception { post: None, swallow: false });
}
