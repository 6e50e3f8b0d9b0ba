use knob::config::{KnobKey, PressAction, Settings, STEP_MAX, STEP_MIN};

fn settings(target: &str, targets: &[&str], step: u8) -> Settings {
    Settings {
        target: target.to_string(),
        targets: targets.iter().map(|name| name.to_string()).collect(),
        raise_key: KnobKey::VolumeUp,
        step_percent: step,
        press_action: PressAction::MuteToggle,
        launch_on_startup: false,
    }
}

#[test]
fn opposite_flips_and_flips_back() {
    assert_eq!(KnobKey::VolumeUp.opposite(), KnobKey::VolumeDown);
    assert_eq!(KnobKey::VolumeDown.opposite(), KnobKey::VolumeUp);
    assert_eq!(KnobKey::VolumeUp.opposite().opposite(), KnobKey::VolumeUp);
}

#[test]
fn knob_key_virtual_keys() {
    assert_eq!(KnobKey::VolumeUp.virtual_key(), 0xAF);
    assert_eq!(KnobKey::VolumeDown.virtual_key(), 0xAE);
    assert_eq!(PressAction::virtual_key(), 0xB3);
}

#[test]
fn knob_key_index_round_trip() {
    for key in [KnobKey::VolumeUp, KnobKey::VolumeDown] {
        assert_eq!(KnobKey::from_index(key.index()), key);
    }
    assert_eq!(KnobKey::VolumeUp.index(), 0);
    assert_eq!(KnobKey::VolumeDown.index(), 1);
}

#[test]
fn knob_key_unknown_index_is_volume_up() {
    assert_eq!(KnobKey::from_index(-1), KnobKey::VolumeUp);
    assert_eq!(KnobKey::from_index(7), KnobKey::VolumeUp);
}

#[test]
fn press_action_index_round_trip() {
    let all = [
        PressAction::MuteToggle,
        PressAction::NextTarget,
        PressAction::PassThrough,
        PressAction::Disabled,
    ];
    for (position, action) in all.iter().enumerate() {
        assert_eq!(action.index(), position as i32);
        assert_eq!(PressAction::from_index(action.index()), *action);
    }
    assert_eq!(PressAction::from_index(-1), PressAction::MuteToggle);
    assert_eq!(PressAction::from_index(4), PressAction::MuteToggle);
}

#[test]
fn default_settings() {
    let defaults = Settings::default();
    assert_eq!(defaults.target, "");
    assert!(defaults.targets.is_empty());
    assert_eq!(defaults.raise_key, KnobKey::VolumeUp);
    assert_eq!(defaults.step_percent, 5);
    assert_eq!(defaults.press_action, PressAction::MuteToggle);
    assert!(!defaults.launch_on_startup);
}

#[test]
fn lower_key_is_the_other_key() {
    let mut s = Settings::default();
    assert_eq!(s.lower_key(), KnobKey::VolumeDown);
    s.raise_key = KnobKey::VolumeDown;
    assert_eq!(s.lower_key(), KnobKey::VolumeUp);
}

#[test]
fn next_target_needs_two() {
    assert_eq!(settings("a.exe", &[], 5).next_target(), None);
    assert_eq!(settings("a.exe", &["a.exe"], 5).next_target(), None);
}

#[test]
fn next_target_follows_and_wraps() {
    let list = ["spotify.exe", "discord.exe", "firefox.exe"];
    assert_eq!(settings("spotify.exe", &list, 5).next_target(), Some("discord.exe"));
    assert_eq!(settings("discord.exe", &list, 5).next_target(), Some("firefox.exe"));
    assert_eq!(settings("firefox.exe", &list, 5).next_target(), Some("spotify.exe"));
}

#[test]
fn next_target_unknown_starts_at_first() {
    let list = ["spotify.exe", "discord.exe"];
    assert_eq!(settings("vlc.exe", &list, 5).next_target(), Some("spotify.exe"));
}

#[test]
fn next_target_matches_current_exactly() {
    let list = ["Spotify.exe", "discord.exe", "firefox.exe"];
    // another case is not the current target, so the cycle starts over
    assert_eq!(settings("spotify.exe", &list, 5).next_target(), Some("Spotify.exe"));
    assert_eq!(settings("DISCORD.EXE", &list, 5).next_target(), Some("Spotify.exe"));
    assert_eq!(settings("discord.exe", &list, 5).next_target(), Some("firefox.exe"));
}

#[test]
fn next_target_tells_case_variants_apart() {
    let list = ["a", "A"];
    assert_eq!(settings("A", &list, 5).next_target(), Some("a"));
    assert_eq!(settings("a", &list, 5).next_target(), Some("A"));
}

#[test]
fn next_target_uses_first_occurrence() {
    let list = ["a.exe", "b.exe", "a.exe"];
    assert_eq!(settings("a.exe", &list, 5).next_target(), Some("b.exe"));
}

#[test]
fn remember_target_adds_new_names() {
    let mut s = settings("", &["spotify.exe"], 5);
    s.remember_target("discord.exe");
    assert_eq!(s.targets, vec!["spotify.exe", "discord.exe"]);
}

#[test]
fn remember_target_ignores_known_names_in_any_ascii_case() {
    let mut s = settings("", &["spotify.exe"], 5);
    s.remember_target("Spotify.EXE");
    assert_eq!(s.targets, vec!["spotify.exe"]);
}

#[test]
fn remember_target_ignores_empty() {
    let mut s = settings("", &["spotify.exe"], 5);
    s.remember_target("");
    assert_eq!(s.targets, vec!["spotify.exe"]);
}

#[test]
fn remember_target_twice_is_once() {
    let mut s = settings("", &[], 5);
    s.remember_target("vlc.exe");
    s.remember_target("vlc.exe");
    assert_eq!(s.targets, vec!["vlc.exe"]);
}

#[test]
fn remember_target_non_ascii_case_differs() {
    let mut s = settings("", &["é.exe"], 5);
    s.remember_target("É.exe");
    assert_eq!(s.targets, vec!["é.exe", "É.exe"]);
}

#[test]
fn normalized_clamps_step() {
    assert_eq!(settings("", &[], 0).normalized().step_percent, STEP_MIN);
    assert_eq!(settings("", &[], 200).normalized().step_percent, STEP_MAX);
    assert_eq!(settings("", &[], 25).normalized().step_percent, 25);
    assert_eq!(settings("", &[], 1).normalized().step_percent, 1);
    assert_eq!(settings("", &[], 26).normalized().step_percent, 25);
}

#[test]
fn normalized_drops_empty_names_and_remembers_target() {
    let n = settings("vlc.exe", &["", "spotify.exe", ""], 5).normalized();
    assert_eq!(n.targets, vec!["spotify.exe", "vlc.exe"]);
    assert_eq!(n.target, "vlc.exe");
}

#[test]
fn normalized_is_idempotent() {
    let once = settings("VLC.exe", &["", "vlc.exe", "a"], 99).normalized();
    let targets = once.targets.clone();
    let step = once.step_percent;
    let twice = once.normalized();
    assert_eq!(twice.targets, targets);
    assert_eq!(twice.step_percent, step);
    assert_eq!(twice.targets, vec!["vlc.exe", "a"]);
}

#[test]
fn normalized_keeps_other_fields() {
    let mut s = settings("", &[], 5);
    s.raise_key = KnobKey::VolumeDown;
    s.press_action = PressAction::Disabled;
    s.launch_on_startup = true;
    let n = s.normalized();
    assert_eq!(n.raise_key, KnobKey::VolumeDown);
    assert_eq!(n.press_action, PressAction::Disabled);
    assert!(n.launch_on_startup);
    assert!(n.targets.is_empty());
}

#[test]
fn cycling_distinct_names_visits_each_once() {
    let list = ["a", "A", "b"];
    let mut s = settings("A", &list, 5);
    let mut seen = Vec::new();
    for _ in 0..3 {
        let next = s.next_target().unwrap().to_owned();
        s.target = next.clone();
        seen.push(next);
    }
    assert_eq!(seen, vec!["b", "a", "A"]);
}
