use knob::names::{active_names, merge, sort_by_lowercase};

fn strings(names: &[&str]) -> Vec<String> {
    names.iter().map(|name| name.to_string()).collect()
}

#[test]
fn merge_appends_unknown_names() {
    let mut names = strings(&["spotify.exe"]);
    merge(&mut names, strings(&["Spotify.exe", "discord.exe", "DISCORD.EXE", "vlc.exe"]));
    assert_eq!(names, strings(&["spotify.exe", "discord.exe", "vlc.exe"]));
}

#[test]
fn merge_twice_is_once() {
    let extra = strings(&["a", "B", "b", "c"]);
    let mut once = strings(&["x"]);
    merge(&mut once, extra.clone());
    let mut twice = once.clone();
    merge(&mut twice, extra);
    assert_eq!(once, twice);
    assert_eq!(once, strings(&["x", "a", "B", "c"]));
}

#[test]
fn merge_into_empty_and_from_empty() {
    let mut names = Vec::new();
    merge(&mut names, strings(&[]));
    assert!(names.is_empty());
    merge(&mut names, strings(&["", ""]));
    assert_eq!(names, strings(&[""]));
}

#[test]
fn sort_by_lowercase_orders_names() {
    let sorted = sort_by_lowercase(strings(&["vlc.exe", "Discord.exe", "chrome.exe", "Spotify.exe"]));
    assert_eq!(sorted, strings(&["chrome.exe", "Discord.exe", "Spotify.exe", "vlc.exe"]));
}

#[test]
fn sort_by_lowercase_matches_std_key_order() {
    let input = strings(&["b", "Ä", "a", "z", "ä1", "A2", "é", "E"]);
    let sorted = sort_by_lowercase(input.clone());
    let mut expected = input;
    expected.sort_by_key(|name| name.to_lowercase());
    assert_eq!(sorted, expected);
}

#[test]
fn active_names_deduplicates_and_sorts() {
    let names = active_names(strings(&["Zoom.exe", "discord.exe", "zoom.EXE", "Discord.exe", "chrome.exe"]));
    assert_eq!(names, strings(&["chrome.exe", "discord.exe", "Zoom.exe"]));
}

#[test]
fn active_names_of_nothing() {
    assert!(active_names(Vec::new()).is_empty());
}
