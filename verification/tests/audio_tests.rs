use knob::audio::{cache_fresh, matching_sessions, mute_choice, mute_outcome, CACHE_TTL_MS};

#[test]
fn cache_is_fresh_for_same_target_within_ttl() {
    assert!(cache_fresh(Some("Spotify.exe"), "spotify.exe", 0));
    assert!(cache_fresh(Some("spotify.exe"), "spotify.exe", 1499));
    assert!(!cache_fresh(Some("spotify.exe"), "spotify.exe", CACHE_TTL_MS));
    assert!(!cache_fresh(Some("vlc.exe"), "spotify.exe", 10));
    assert!(!cache_fresh(None, "spotify.exe", 0));
}

#[test]
fn matching_sessions_by_process_name() {
    let names = vec![
        Some("chrome.exe".to_string()),
        None,
        Some("Chrome.EXE".to_string()),
        Some("spotify.exe".to_string()),
        Some("chrome.exe".to_string()),
    ];
    assert_eq!(matching_sessions("chrome.exe", &names), vec![0, 2, 4]);
    assert_eq!(matching_sessions("spotify.exe", &names), vec![3]);
    assert_eq!(matching_sessions("vlc.exe", &names), Vec::<usize>::new());
    assert_eq!(matching_sessions("", &vec![Some(String::new())]), Vec::<usize>::new());
}

#[test]
fn mute_choice_forces_mute_when_any_unmuted() {
    assert!(mute_choice(&vec![Some(true), Some(false)]));
    assert!(!mute_choice(&vec![Some(true), Some(true)]));
    assert!(!mute_choice(&vec![None, Some(true)]));
    assert!(!mute_choice(&vec![]));
    assert!(mute_choice(&vec![None, Some(false)]));
}

#[test]
fn mute_outcome_reports_applied_state() {
    assert_eq!(mute_outcome(true, &vec![false, true]), Some(true));
    assert_eq!(mute_outcome(false, &vec![true]), Some(false));
    assert_eq!(mute_outcome(true, &vec![false, false]), None);
    assert_eq!(mute_outcome(true, &vec![]), None);
}
