use knob::autostart::{erase_succeeded, reg_sz_bytes, run_command};
use knob::win::wide;

#[test]
fn run_command_quotes_path() {
    assert_eq!(
        run_command("C:\\Program Files\\knob\\knob.exe"),
        "\"C:\\Program Files\\knob\\knob.exe\" --hidden"
    );
}

#[test]
fn reg_sz_bytes_are_little_endian() {
    assert_eq!(reg_sz_bytes(&wide("a")), vec![0x61, 0, 0, 0]);
    assert_eq!(reg_sz_bytes(&vec![0x1234, 0xD83C]), vec![0x34, 0x12, 0x3C, 0xD8]);
    let encoded = wide("é🎵");
    let expected: Vec<u8> = encoded.iter().flat_map(|unit| unit.to_le_bytes()).collect();
    assert_eq!(reg_sz_bytes(&encoded), expected);
}

#[test]
fn erase_statuses() {
    assert!(erase_succeeded(0));
    assert!(erase_succeeded(2));
    assert!(!erase_succeeded(5));
}
