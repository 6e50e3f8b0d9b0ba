//! The window's geometry and the values its controls and the tray trade in.

use vstd::prelude::*;
use crate::text::{chars_of, string_of, trim_chars, trimmed};
use crate::win::{
    from_wide, lemma_encode_no_zero, lemma_nul_end_push, lemma_wide_round_trip, no_nul, nul_end,
    utf16_decode, utf16_encode, wide,
};

verus! {

/// Control identifiers, arriving in the low word of `wparam` on `WM_COMMAND`.
pub const ID_TARGET: i32 = 1001;

pub const ID_REFRESH: i32 = 1002;

pub const ID_RAISE: i32 = 1003;

pub const ID_LOWER: i32 = 1004;

pub const ID_STEP: i32 = 1005;

pub const ID_PRESS: i32 = 1006;

pub const ID_STARTUP: i32 = 1007;

pub const ID_SAVE: i32 = 1008;

/// Client area at 96 dpi, in device independent pixels.
pub const CLIENT_WIDTH: i32 = 400;

pub const CLIENT_HEIGHT: i32 = 322;

/// For a combo box this is the height of the dropped-down list, not of the
/// field.
pub const LIST_HEIGHT: i32 = 220;

/// The largest coordinate or extent the layout places a control with.
pub const LAYOUT_EXTENT: i32 = 368;

/// The tray tooltip's buffer, in UTF-16 units.
pub const TIP_CAPACITY: usize = 128;

/// A length at 96 dpi brought to `dpi`, the quotient truncated toward zero
/// as integer division does.
pub open spec fn scaled(value: int, dpi: int) -> int {
    let product = value * dpi;
    if product >= 0 {
        product / 96
    } else {
        -((-product) / 96)
    }
}

/// Coordinates are written for 96 dpi and scaled to the window's dpi. The
/// dpi is taken as an `i32`, as the cast `dpi as i32` reads it, and the
/// product must fit in an `i32`.
pub fn scale(value: i32, dpi: u32) -> (res: i32)
    requires
        i32::MIN <= value * (dpi as i32) <= i32::MAX,
    ensures
        res == scaled(value as int, (dpi as i32) as int),
{
    let d: i32 = dpi as i32;
    let product: i32 = value * d;
    product / 96
}

/// A control's place in the client area.
#[derive(Debug, Clone, Copy, PartialEq, Eq, Structural)]
pub struct Rect {
    pub x: i32,
    pub y: i32,
    pub width: i32,
    pub height: i32,
}

/// A rectangle laid out at 96 dpi, scaled to `dpi`.
pub open spec fn scaled_rect(x: int, y: int, width: int, height: int, dpi: int) -> Rect {
    Rect {
        x: scaled(x, dpi) as i32,
        y: scaled(y, dpi) as i32,
        width: scaled(width, dpi) as i32,
        height: scaled(height, dpi) as i32,
    }
}

fn place(x: i32, y: i32, width: i32, height: i32, dpi: u32) -> (res: Rect)
    requires
        0 <= x <= LAYOUT_EXTENT,
        0 <= y <= LAYOUT_EXTENT,
        0 <= width <= LAYOUT_EXTENT,
        0 <= height <= LAYOUT_EXTENT,
        LAYOUT_EXTENT * dpi <= i32::MAX,
    ensures
        res == scaled_rect(x as int, y as int, width as int, height as int, dpi as int),
{
    assert(x * dpi <= LAYOUT_EXTENT * dpi && y * dpi <= LAYOUT_EXTENT * dpi && width * dpi
        <= LAYOUT_EXTENT * dpi && height * dpi <= LAYOUT_EXTENT * dpi) by (nonlinear_arith)
        requires
            0 <= x <= LAYOUT_EXTENT,
            0 <= y <= LAYOUT_EXTENT,
            0 <= width <= LAYOUT_EXTENT,
            0 <= height <= LAYOUT_EXTENT,
    ;
    Rect {
        x: scale(x, dpi),
        y: scale(y, dpi),
        width: scale(width, dpi),
        height: scale(height, dpi),
    }
}

/// Where every control goes.
#[derive(Debug, Clone, Copy, PartialEq, Eq, Structural)]
pub struct Layout {
    pub target_label: Rect,
    pub raise_label: Rect,
    pub lower_label: Rect,
    pub press_label: Rect,
    pub target: Rect,
    pub refresh: Rect,
    pub raise: Rect,
    pub lower: Rect,
    pub step_label: Rect,
    pub step: Rect,
    pub press: Rect,
    pub startup: Rect,
    pub status: Rect,
    pub save: Rect,
}

/// The layout at 96 dpi, scaled to `dpi`.
pub open spec fn layout_at(dpi: int) -> Layout {
    Layout {
        target_label: scaled_rect(16, 12, 368, 18, dpi),
        raise_label: scaled_rect(16, 68, 179, 18, dpi),
        lower_label: scaled_rect(205, 68, 179, 18, dpi),
        press_label: scaled_rect(16, 186, 368, 18, dpi),
        target: scaled_rect(16, 32, 262, 220, dpi),
        refresh: scaled_rect(288, 32, 96, 24, dpi),
        raise: scaled_rect(16, 88, 179, 220, dpi),
        lower: scaled_rect(205, 88, 179, 220, dpi),
        step_label: scaled_rect(16, 124, 368, 18, dpi),
        step: scaled_rect(16, 144, 368, 32, dpi),
        press: scaled_rect(16, 206, 368, 220, dpi),
        startup: scaled_rect(16, 244, 368, 22, dpi),
        status: scaled_rect(16, 282, 240, 20, dpi),
        save: scaled_rect(274, 276, 110, 30, dpi),
    }
}

/// Where every control goes at `dpi`. Coordinates are written for 96 dpi and
/// scaled here, which is also what makes a dpi change a matter of relaying
/// out rather than rebuilding the window.
pub fn layout(dpi: u32) -> (res: Layout)
    requires
        LAYOUT_EXTENT * dpi <= i32::MAX,
    ensures
        res == layout_at(dpi as int),
        res.raise.x == res.raise_label.x,
        res.raise.width == res.raise_label.width,
        res.lower.x == res.lower_label.x,
        res.lower.width == res.lower_label.width,
        res.target.x == res.target_label.x,
        res.press.x == res.press_label.x,
        res.step.x == res.step_label.x,
        res.raise.y >= res.raise_label.y + res.raise_label.height,
        res.lower.y >= res.lower_label.y + res.lower_label.height,
        dpi > 0 ==> res.raise.x < res.lower.x,
        dpi > 0 ==> res.raise_label.x < res.lower_label.x,
{
    proof {
        lemma_dropdowns_under_labels(dpi as int);
    }
    let full: i32 = 368;
    let half: i32 = 179;
    let right: i32 = 205;
    Layout {
        target_label: place(16, 12, full, 18, dpi),
        raise_label: place(16, 68, half, 18, dpi),
        lower_label: place(right, 68, half, 18, dpi),
        press_label: place(16, 186, full, 18, dpi),
        target: place(16, 32, 262, LIST_HEIGHT, dpi),
        refresh: place(288, 32, 96, 24, dpi),
        raise: place(16, 88, half, LIST_HEIGHT, dpi),
        lower: place(right, 88, half, LIST_HEIGHT, dpi),
        step_label: place(16, 124, full, 18, dpi),
        step: place(16, 144, full, 32, dpi),
        press: place(16, 206, full, LIST_HEIGHT, dpi),
        startup: place(16, 244, full, 22, dpi),
        status: place(16, 282, 240, 20, dpi),
        save: place(274, 276, 110, 30, dpi),
    }
}

/// The client area's width and height at `dpi`, which the frame is sized
/// around.
pub fn client_size(dpi: u32) -> (res: (i32, i32))
    requires
        CLIENT_WIDTH * dpi <= i32::MAX,
    ensures
        res.0 == scaled(CLIENT_WIDTH as int, dpi as int),
        res.1 == scaled(CLIENT_HEIGHT as int, dpi as int),
{
    assert(CLIENT_HEIGHT * dpi <= CLIENT_WIDTH * dpi) by (nonlinear_arith);
    (scale(CLIENT_WIDTH, dpi), scale(CLIENT_HEIGHT, dpi))
}

/// At every dpi each key dropdown lies under its own label: the raise list
/// starts where the "raise" label starts and is as wide, the lower list
/// likewise under the "lower" label, each list below its label, and the
/// raise column left of the lower column. The target, step and press
/// controls line up with their labels too.
pub proof fn lemma_dropdowns_under_labels(dpi: int)
    requires
        0 <= dpi,
        LAYOUT_EXTENT * dpi <= i32::MAX,
    ensures
        ({
            let l = layout_at(dpi);
            &&& l.raise.x == l.raise_label.x
            &&& l.raise.width == l.raise_label.width
            &&& l.lower.x == l.lower_label.x
            &&& l.lower.width == l.lower_label.width
            &&& l.target.x == l.target_label.x
            &&& l.press.x == l.press_label.x
            &&& l.step.x == l.step_label.x
            &&& l.raise.y >= l.raise_label.y + l.raise_label.height
            &&& l.lower.y >= l.lower_label.y + l.lower_label.height
            &&& dpi > 0 ==> l.raise.x < l.lower.x
            &&& dpi > 0 ==> l.raise_label.x < l.lower_label.x
        }),
{
    let l = layout_at(dpi);
    assert(0 <= 16 * dpi && 205 * dpi <= LAYOUT_EXTENT * dpi && 88 * dpi <= LAYOUT_EXTENT * dpi
        && 68 * dpi + 18 * dpi <= 88 * dpi) by (nonlinear_arith)
        requires
            0 <= dpi,
    ;
    assert(dpi > 0 ==> 16 * dpi + 96 <= 205 * dpi) by (nonlinear_arith)
        requires
            0 <= dpi,
    ;
    assert(l.raise.y >= l.raise_label.y + l.raise_label.height);
    assert(l.lower.y >= l.lower_label.y + l.lower_label.height);
}

/// At 96 dpi, the reference the layout is written for, scaling changes
/// nothing.
pub proof fn lemma_scale_identity(value: int)
    ensures
        scaled(value, 96) == value,
{
}

/// Scaling keeps the order of lengths at any dpi, so a control placed further
/// right or lower at 96 dpi stays so; at twice the reference dpi every
/// length doubles.
pub proof fn lemma_scale_monotone(a: int, b: int, dpi: int)
    requires
        0 <= dpi,
    ensures
        0 <= a <= b ==> scaled(a, dpi) <= scaled(b, dpi),
        0 <= a ==> 0 <= scaled(a, dpi),
        scaled(a, 192) == 2 * a,
{
    if 0 <= a <= b {
        assert(a * dpi <= b * dpi && 0 <= a * dpi) by (nonlinear_arith)
            requires
                0 <= a <= b,
                0 <= dpi,
        ;
        vstd::arithmetic::div_mod::lemma_div_is_ordered(a * dpi, b * dpi, 96);
    }
    if 0 <= a {
        assert(0 <= a * dpi) by (nonlinear_arith)
            requires
                0 <= a,
                0 <= dpi,
        ;
    }
}

/// The `lparam` of `TBM_SETRANGE`: the maximum in the high word, the minimum
/// in the low word, packed in an `i32` (bits shifted out of the maximum are
/// lost, and a negative minimum fills the high word) and widened.
pub fn trackbar_range(min: i32, max: i32) -> (res: isize)
    ensures
        res == ((max << 16i32) | min) as isize,
        0 <= min < 0x10000 && 0 <= max < 0x8000 ==> res == max * 0x10000 + min,
{
    let packed: i32 = (max << 16i32) | min;
    if 0 <= min && min < 0x10000 && 0 <= max && max < 0x8000 {
        assert(((max << 16i32) | min) == max * 0x10000 + min) by (bit_vector)
            requires
                0 <= min < 0x10000,
                0 <= max < 0x8000,
        ;
    }
    packed as isize
}

/// The `WM_*` mouse message a tray notification carries in the low word of
/// its `lparam`.
pub fn tray_event(lparam: isize) -> (res: u32)
    ensures
        res == (lparam as u32) % 0x10000,
{
    let low: u32 = lparam as u32;
    assert(low & 0xFFFF == low % 0x10000) by (bit_vector);
    low & 0xFFFF
}

/// The control a `WM_COMMAND` came from (the low word of `wparam`) and the
/// notification it carries (the high word).
pub fn command_parts(wparam: usize) -> (res: (i32, u16))
    ensures
        res.0 == wparam % 0x10000,
        res.1 == (wparam / 0x10000) % 0x10000,
{
    let control: usize = wparam & 0xFFFF;
    let notification: usize = (wparam >> 16) & 0xFFFF;
    assert(wparam & 0xFFFF == wparam % 0x10000) by (bit_vector);
    assert((wparam >> 16) & 0xFFFF == (wparam / 0x10000) % 0x10000) by (bit_vector);
    (control as i32, notification as u16)
}

/// The text of a control read into `buffer`, up to its NUL and without
/// surrounding white space; for an editable combo box this is what the user
/// typed.
pub fn control_text_of(buffer: &[u16]) -> (res: String)
    ensures
        res@ == trimmed(utf16_decode(buffer@.take(nul_end(buffer@) as int))),
{
    let text: String = from_wide(buffer);
    let chars: Vec<char> = chars_of(text.as_str());
    let kept: Vec<char> = trim_chars(&chars);
    string_of(&kept)
}

/// An entry of the tray menu.
#[derive(Debug, Clone, Copy, PartialEq, Eq, Structural)]
pub enum MenuChoice {
    Open,
    ToggleSuspend,
    Exit,
}

/// The command id of each tray menu entry.
pub open spec fn menu_id(choice: MenuChoice) -> usize {
    match choice {
        MenuChoice::Open => 1,
        MenuChoice::ToggleSuspend => 2,
        MenuChoice::Exit => 3,
    }
}

impl MenuChoice {
    /// The command id the menu entry is created with.
    pub fn id(self) -> (res: usize)
        ensures
            res == menu_id(self),
    {
        match self {
            MenuChoice::Open => 1,
            MenuChoice::ToggleSuspend => 2,
            MenuChoice::Exit => 3,
        }
    }

    /// The entry `TrackPopupMenu` returned, `None` when the menu was
    /// dismissed.
    pub fn from_id(chosen: usize) -> (res: Option<MenuChoice>)
        ensures
            match res {
                Some(choice) => menu_id(choice) == chosen,
                None => chosen != 1 && chosen != 2 && chosen != 3,
            },
    {
        match chosen {
            1 => Some(MenuChoice::Open),
            2 => Some(MenuChoice::ToggleSuspend),
            3 => Some(MenuChoice::Exit),
            _ => None,
        }
    }
}

/// The Win32 mouse messages the tray icon reports.
pub const WM_LBUTTONUP: u32 = 0x0202;

pub const WM_LBUTTONDBLCLK: u32 = 0x0203;

pub const WM_RBUTTONUP: u32 = 0x0205;

/// What a click on the tray icon asks for.
#[derive(Debug, Clone, Copy, PartialEq, Eq, Structural)]
pub enum TrayAction {
    /// Bring up the window.
    Show,
    /// Open the tray menu.
    Menu,
    Ignore,
}

/// A left click or double click shows the window, a right click opens the
/// menu, anything else is ignored.
pub fn tray_action(event: u32) -> (res: TrayAction)
    ensures
        res == (if event == WM_LBUTTONDBLCLK || event == WM_LBUTTONUP {
            TrayAction::Show
        } else if event == WM_RBUTTONUP {
            TrayAction::Menu
        } else {
            TrayAction::Ignore
        }),
{
    if event == WM_LBUTTONDBLCLK || event == WM_LBUTTONUP {
        TrayAction::Show
    } else if event == WM_RBUTTONUP {
        TrayAction::Menu
    } else {
        TrayAction::Ignore
    }
}

/// The tooltip buffer for `encoded`: its units copied in as far as they fit,
/// the rest zero, and the last copied unit zeroed so the buffer stays
/// terminated even when the text was cut.
pub open spec fn tip_of(encoded: Seq<u16>, capacity: int) -> Seq<u16> {
    let length = if encoded.len() < capacity {
        encoded.len() as int
    } else {
        capacity
    };
    Seq::new(
        capacity as nat,
        |i: int|
            if i < length - 1 {
                encoded[i]
            } else {
                0u16
            },
    )
}

/// Copies `text` into a fixed-size tooltip buffer of `capacity` units,
/// truncating if needed.
pub fn tip_units(text: &str, capacity: usize) -> (res: Vec<u16>)
    ensures
        res@ == tip_of(utf16_encode(text@).push(0), capacity as int),
{
    let encoded: Vec<u16> = wide(text);
    let length: usize = if encoded.len() < capacity {
        encoded.len()
    } else {
        capacity
    };
    let mut res: Vec<u16> = Vec::new();
    for i in 0..capacity
        invariant
            encoded@ == utf16_encode(text@).push(0),
            length == (if encoded@.len() < capacity {
                encoded@.len() as int
            } else {
                capacity as int
            }),
            res@ =~= tip_of(encoded@, capacity as int).take(i as int),
    {
        if i + 1 < length {
            res.push(encoded[i]);
        } else {
            res.push(0);
        }
    }
    assert(tip_of(encoded@, capacity as int).take(capacity as int) =~= tip_of(
        encoded@,
        capacity as int,
    ));
    res
}

/// The tooltip buffer always holds a NUL, and a text that fits (terminator
/// included) reads back unchanged.
pub proof fn lemma_tip_terminated(text: Seq<char>, capacity: int)
    requires
        capacity > 0,
    ensures
        ({
            let tip = tip_of(utf16_encode(text).push(0), capacity);
            &&& exists|i: int| 0 <= i < tip.len() && tip[i] == 0
            &&& no_nul(text) && utf16_encode(text).len() + 1 <= capacity ==> utf16_decode(
                tip.take(nul_end(tip) as int),
            ) == text
        }),
{
    let encoded = utf16_encode(text).push(0);
    let tip = tip_of(encoded, capacity);
    let length = if encoded.len() < capacity {
        encoded.len() as int
    } else {
        capacity
    };
    assert(tip[length - 1] == 0);
    if no_nul(text) && utf16_encode(text).len() + 1 <= capacity {
        lemma_wide_round_trip(text);
        lemma_encode_no_zero(text);
        lemma_nul_end_push(utf16_encode(text));
        let end = nul_end(encoded);
        assert(end == utf16_encode(text).len());
        assert forall|i: int| 0 <= i <= end implies encoded[i] == tip[i] by {
            if i < end {
                assert(tip[i] == encoded[i]);
            } else {
                assert(encoded[i] == 0);
            }
        }
        lemma_nul_end_prefix(encoded, tip);
        assert(tip.take(end as int) =~= encoded.take(end as int));
    }
}

/// Two unit sequences that agree up to and including the first NUL of the
/// first end their strings at the same place.
proof fn lemma_nul_end_prefix(a: Seq<u16>, b: Seq<u16>)
    requires
        nul_end(a) < a.len(),
        nul_end(a) < b.len(),
        forall|i: int| 0 <= i <= nul_end(a) ==> a[i] == b[i],
    ensures
        nul_end(b) == nul_end(a),
    decreases a.len(),
{
    if a[0] != 0 {
        assert(b[0] == a[0]);
        let ra = a.skip(1);
        let rb = b.skip(1);
        assert forall|i: int| 0 <= i <= nul_end(ra) implies ra[i] == rb[i] by {
            assert(a[i + 1] == b[i + 1]);
        }
        lemma_nul_end_prefix(ra, rb);
    } else {
        assert(b[0] == a[0]);
    }
}

} // verus!
