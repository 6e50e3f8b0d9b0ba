use knob::text::{chars_of, joined, decimal_i32, decimal_usize, eq_ignore_ascii_case, string_of, trim_chars};
use knob::win::{from_wide, instance_name, wide};

#[test]
fn wide_appends_terminator() {
    assert_eq!(wide("ab"), vec![0x61, 0x62, 0]);
    assert_eq!(wide(""), vec![0]);
}

#[test]
fn wide_encodes_surrogate_pairs() {
    assert_eq!(wide("🎵"), vec![0xD83C, 0xDFB5, 0]);
    assert_eq!(wide("é"), vec![0xE9, 0]);
}

#[test]
fn wide_round_trip() {
    for text in ["", "spotify.exe", "C:\\Program Files\\é\\🎵.exe", "日本語"] {
        assert_eq!(from_wide(&wide(text)), text);
    }
}

#[test]
fn from_wide_stops_at_nul() {
    assert_eq!(from_wide(&[0x61, 0x62, 0, 0x63]), "ab");
    assert_eq!(from_wide(&[0, 0x61]), "");
}

#[test]
fn from_wide_without_nul_reads_everything() {
    assert_eq!(from_wide(&[0x61, 0x62]), "ab");
    assert_eq!(from_wide(&[]), "");
}

#[test]
fn from_wide_replaces_unpaired_surrogates() {
    assert_eq!(from_wide(&[0xD800, 0x61]), "\u{FFFD}a");
    assert_eq!(from_wide(&[0xDC00]), "\u{FFFD}");
    assert_eq!(from_wide(&[0xD83C, 0xD83C, 0xDFB5]), "\u{FFFD}🎵");
    assert_eq!(from_wide(&[0xD83C, 0xDFB5]), "🎵");
    let lossy = String::from_utf16_lossy(&[0xD800, 0x61, 0xDC00, 0xD83C, 0xDFB5]);
    assert_eq!(from_wide(&[0xD800, 0x61, 0xDC00, 0xD83C, 0xDFB5]), lossy);
}

#[test]
fn instance_name_is_session_local() {
    assert_eq!(instance_name("knob"), "Local\\knob");
}

#[test]
fn eq_ignore_ascii_case_matches_std() {
    let pairs = [
        ("Spotify.exe", "spotify.EXE"),
        ("a", "b"),
        ("É", "é"),
        ("abc", "ab"),
        ("", ""),
    ];
    for (a, b) in pairs {
        assert_eq!(eq_ignore_ascii_case(a, b), a.eq_ignore_ascii_case(b), "{a} {b}");
    }
}

#[test]
fn trim_matches_std() {
    for text in ["  spotify.exe \t", "\u{3000}x\u{2028}", "   ", "", "a b", "\u{85}y\u{A0}"] {
        let trimmed: String = trim_chars(&chars_of(text)).into_iter().collect();
        assert_eq!(trimmed, text.trim());
    }
}

#[test]
fn decimal_rendering() {
    assert_eq!(decimal_usize(0), "0");
    assert_eq!(decimal_usize(12), "12");
    assert_eq!(decimal_usize(1005), "1005");
    assert_eq!(decimal_i32(-7), "-7");
    assert_eq!(decimal_i32(i32::MIN), i32::MIN.to_string());
    assert_eq!(decimal_i32(100), "100");
}

#[test]
fn string_building() {
    assert_eq!(string_of(&vec!['a', 'é', '🎵']), "aé🎵");
    assert_eq!(joined("driving ", "vlc.exe"), "driving vlc.exe");
}
