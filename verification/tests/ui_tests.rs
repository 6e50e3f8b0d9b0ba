use knob::ui::{
    client_size, command_parts, layout, scale, tip_units, tray_action, tray_event, trackbar_range,
    MenuChoice, Rect, TrayAction, TIP_CAPACITY, WM_LBUTTONDBLCLK, WM_LBUTTONUP, WM_RBUTTONUP,
};
use knob::win::from_wide;

#[test]
fn scale_at_common_dpis() {
    assert_eq!(scale(400, 96), 400);
    assert_eq!(scale(400, 144), 600);
    assert_eq!(scale(322, 120), 402);
    assert_eq!(scale(0, 144), 0);
    assert_eq!(scale(7, 0), 0);
}

#[test]
fn scale_matches_integer_arithmetic() {
    for (value, dpi) in [(-100, 96u32), (-1, 95), (-50, 144), (1, 3_000_000_000), (7, 97)] {
        assert_eq!(scale(value, dpi), value * dpi as i32 / 96);
    }
    assert_eq!(scale(-1, 95), 0);
    assert_eq!(scale(-100, 96), -100);
}

#[test]
fn client_size_scales() {
    assert_eq!(client_size(96), (400, 322));
    assert_eq!(client_size(192), (800, 644));
}

#[test]
fn layout_at_96_and_144() {
    let at96 = layout(96);
    assert_eq!(at96.save, Rect { x: 274, y: 276, width: 110, height: 30 });
    assert_eq!(at96.lower_label, Rect { x: 205, y: 68, width: 179, height: 18 });
    let at144 = layout(144);
    assert_eq!(at144.refresh, Rect { x: 432, y: 48, width: 144, height: 36 });
    assert_eq!(at144.target, Rect { x: 24, y: 48, width: 393, height: 330 });
}

#[test]
fn trackbar_range_packs_words() {
    assert_eq!(trackbar_range(1, 25), (25 << 16) | 1);
    assert_eq!(trackbar_range(0, 0), 0);
}

#[test]
fn trackbar_range_wraps_as_i32() {
    for (min, max) in [(-1, 25), (1, 0x8000), (0x12345, 3), (5, -2), (i32::MIN, i32::MAX)] {
        assert_eq!(trackbar_range(min, max), ((max << 16) | min) as isize);
    }
    assert_eq!(trackbar_range(-1, 25), -1);
}

#[test]
fn tray_event_takes_low_word() {
    assert_eq!(tray_event(0x0001_0202), 0x0202);
    assert_eq!(tray_event(-1), 0xFFFF);
}

#[test]
fn command_parts_split_wparam() {
    assert_eq!(command_parts((1 << 16) | 1003), (1003, 1));
    assert_eq!(command_parts(1008), (1008, 0));
}

#[test]
fn menu_choice_ids() {
    for choice in [MenuChoice::Open, MenuChoice::ToggleSuspend, MenuChoice::Exit] {
        assert_eq!(MenuChoice::from_id(choice.id()), Some(choice));
    }
    assert_eq!(MenuChoice::from_id(0), None);
    assert_eq!(MenuChoice::from_id(4), None);
}

#[test]
fn tray_actions() {
    assert_eq!(tray_action(WM_LBUTTONUP), TrayAction::Show);
    assert_eq!(tray_action(WM_LBUTTONDBLCLK), TrayAction::Show);
    assert_eq!(tray_action(WM_RBUTTONUP), TrayAction::Menu);
    assert_eq!(tray_action(0x0200), TrayAction::Ignore);
}

#[test]
fn tip_fits() {
    let tip = tip_units("knob - vlc.exe 40%", TIP_CAPACITY);
    assert_eq!(tip.len(), TIP_CAPACITY);
    assert_eq!(from_wide(&tip), "knob - vlc.exe 40%");
    assert!(tip[18..].iter().all(|&unit| unit == 0));
}

#[test]
fn tip_is_cut_and_terminated() {
    let tip = tip_units("abcdef", 4);
    assert_eq!(tip, vec![0x61, 0x62, 0x63, 0]);
    assert_eq!(from_wide(&tip), "abc");
    assert_eq!(tip_units("", 3), vec![0, 0, 0]);
    assert_eq!(tip_units("abc", 0), Vec::<u16>::new());
}
