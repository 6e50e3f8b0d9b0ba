use knob::media::{pick_session, serve_report, stem, Report, Skip};
use knob::path::file_name;

#[test]
fn report_codes_round_trip() {
    let all = [
        Report::Skipped(Skip::Next),
        Report::Skipped(Skip::Previous),
        Report::NoSession,
        Report::Refused,
    ];
    for (position, report) in all.iter().enumerate() {
        assert_eq!(report.code(), position + 1);
        assert_eq!(Report::from_code(report.code()), Some(*report));
    }
    assert_eq!(Report::from_code(0), None);
    assert_eq!(Report::from_code(5), None);
}

#[test]
fn stem_of_paths_and_names() {
    assert_eq!(stem("C:\\Program Files\\Spotify\\Spotify.exe"), "spotify");
    assert_eq!(stem("spotify.exe"), "spotify");
    assert_eq!(stem("Spotify"), "spotify");
    assert_eq!(stem("C:/tools/VLC.EXE"), "vlc");
    assert_eq!(stem("C:player.exe"), "player");
    assert_eq!(stem("archive.tar.gz"), "archive.tar");
    assert_eq!(stem(".hidden"), ".hidden");
    assert_eq!(stem("name."), "name");
    assert_eq!(stem("dir\\sub\\"), "sub");
    assert_eq!(stem("dir\\.\\x.exe\\."), "x");
    assert_eq!(stem("dir\\.."), "");
    assert_eq!(stem(""), "");
    assert_eq!(stem("C:\\"), "");
    assert_eq!(stem("."), "");
}

#[test]
fn stem_lowercases_unicode() {
    assert_eq!(stem("ÉCOUTE.exe"), "écoute");
}

#[test]
fn file_names() {
    assert_eq!(file_name("C:\\Program Files\\Discord\\Discord.exe").as_deref(), Some("Discord.exe"));
    assert_eq!(file_name("firefox.exe").as_deref(), Some("firefox.exe"));
    assert_eq!(file_name("C:\\Windows\\"), Some("Windows".to_string()));
    assert_eq!(file_name("a/.."), None);
    assert_eq!(file_name(""), None);
    assert_eq!(file_name("D:"), None);
}

#[test]
fn file_names_after_unc_and_device_prefixes() {
    assert_eq!(file_name("\\\\a\\b"), None);
    assert_eq!(file_name("\\\\server\\share"), None);
    assert_eq!(file_name("\\\\server\\share\\"), None);
    assert_eq!(file_name("\\\\server\\share\\x.exe").as_deref(), Some("x.exe"));
    assert_eq!(file_name("//server/share/z").as_deref(), Some("z"));
    assert_eq!(file_name("\\\\server").as_deref(), Some("server"));
    assert_eq!(file_name("\\\\.\\COM42"), None);
    assert_eq!(file_name("\\\\.\\COM42\\port").as_deref(), Some("port"));
}

#[test]
fn file_names_after_verbatim_prefixes() {
    assert_eq!(file_name("\\\\?\\C:\\Program Files\\a.exe").as_deref(), Some("a.exe"));
    assert_eq!(file_name("\\\\?\\C:"), None);
    assert_eq!(file_name("\\\\?\\C:\\"), None);
    assert_eq!(file_name("\\\\?\\UNC\\srv\\share\\b.exe").as_deref(), Some("b.exe"));
    assert_eq!(file_name("\\\\?\\UNC\\srv\\share"), None);
    assert_eq!(file_name("\\\\?\\pics"), None);
    assert_eq!(file_name("\\\\?\\pics\\cat.png").as_deref(), Some("cat.png"));
    // only a backslash separates in a verbatim path, and `.` stays a component
    assert_eq!(file_name("\\\\?\\dir\\x/y").as_deref(), Some("x/y"));
    assert_eq!(file_name("\\\\?\\dir\\a\\."), None);
    // a forward slash in the first four characters makes it no verbatim path
    assert_eq!(file_name("//?/dir/a/.").as_deref(), Some("a"));
}

#[test]
fn stem_after_prefixes() {
    assert_eq!(stem("\\\\?\\C:\\Apps\\Spotify.exe"), "spotify");
    assert_eq!(stem("\\\\host\\apps\\VLC.exe"), "vlc");
    assert_eq!(stem("\\\\host\\apps"), "");
}

#[test]
fn pick_session_by_stem() {
    let ids = vec![
        Some("Microsoft.ZuneMusic_8wekyb3d8bbwe!Microsoft.ZuneMusic".to_string()),
        None,
        Some("C:\\Apps\\Spotify.exe".to_string()),
        Some("spotify".to_string()),
    ];
    assert_eq!(pick_session("spotify.exe", &ids), Some(2));
    assert_eq!(pick_session("vlc.exe", &ids), None);
    assert_eq!(pick_session("", &ids), None);
    assert_eq!(pick_session("spotify.exe", &vec![]), None);
}

#[test]
fn serve_reports() {
    assert_eq!(serve_report(Skip::Next, false, Some(true)), Report::NoSession);
    assert_eq!(serve_report(Skip::Next, true, Some(true)), Report::Skipped(Skip::Next));
    assert_eq!(serve_report(Skip::Previous, true, Some(true)), Report::Skipped(Skip::Previous));
    assert_eq!(serve_report(Skip::Next, true, Some(false)), Report::Refused);
    assert_eq!(serve_report(Skip::Next, true, None), Report::Refused);
}
