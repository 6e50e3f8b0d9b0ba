//! What the low-level keyboard hook does with a key: which knob command it
//! is, whether it is swallowed, and whether the window is told about it.

use vstd::prelude::*;
use crate::config::{PressAction, VK_MEDIA_PLAY_PAUSE, VK_VOLUME_DOWN, VK_VOLUME_UP};

verus! {

/// The Win32 message of a key going down.
pub const WM_KEYDOWN: u32 = 0x0100;

/// The Win32 message of a key coming up.
pub const WM_KEYUP: u32 = 0x0101;

/// The Win32 message of a key going down while Alt is held.
pub const WM_SYSKEYDOWN: u32 = 0x0104;

/// The Win32 message of a key coming up while Alt is held.
pub const WM_SYSKEYUP: u32 = 0x0105;

/// What a swallowed knob key asks the window to do.
#[derive(Debug, Clone, Copy, PartialEq, Eq, Structural)]
pub enum Command {
    Raise,
    Lower,
    Press,
}

/// The message parameter a command travels in.
pub open spec fn command_code(command: Command) -> usize {
    match command {
        Command::Raise => 1,
        Command::Lower => 2,
        Command::Press => 3,
    }
}

/// The command a message parameter stands for.
pub open spec fn command_of(code: usize) -> Option<Command> {
    if code == 1 {
        Some(Command::Raise)
    } else if code == 2 {
        Some(Command::Lower)
    } else if code == 3 {
        Some(Command::Press)
    } else {
        None
    }
}

impl Command {
    pub fn code(self) -> (res: usize)
        ensures
            res == command_code(self),
    {
        match self {
            Command::Raise => 1,
            Command::Lower => 2,
            Command::Press => 3,
        }
    }

    pub fn from_code(code: usize) -> (res: Option<Command>)
        ensures
            res == command_of(code),
    {
        match code {
            1 => Some(Command::Raise),
            2 => Some(Command::Lower),
            3 => Some(Command::Press),
            _ => None,
        }
    }
}

/// A command survives the trip through a message parameter, no two commands
/// share a code, and no command travels as zero.
pub proof fn lemma_command_round_trip(command: Command, other: Command)
    ensures
        command_of(command_code(command)) == Some(command),
        command_code(command) == command_code(other) ==> command == other,
        command_of(0) is None,
{
}

/// What the hook reads on every key. The callback must never block, so the
/// program keeps these in atomics and hands a snapshot to [`classify`] and
/// [`intercepts`].
#[derive(Debug, Clone, Copy, PartialEq, Eq, Structural)]
pub struct Shared {
    /// The window commands are posted to, zero before there is one.
    pub window: isize,
    pub raise: u16,
    pub lower: u16,
    pub press: u16,
    /// Whether the press key is ours at all, or belongs to the focused player.
    pub intercept_press: bool,
    /// Set while the configured target actually owns an audio session; when
    /// it is clear the keys fall through and Windows adjusts the system
    /// volume as usual.
    pub armed: bool,
}

/// The state before anything is configured: no window, no keys, disarmed.
pub fn shared() -> (res: Shared)
    ensures
        res == (Shared {
            window: 0,
            raise: 0,
            lower: 0,
            press: 0,
            intercept_press: false,
            armed: false,
        }),
{
    Shared { window: 0, raise: 0, lower: 0, press: 0, intercept_press: false, armed: false }
}

/// Records the window that commands are posted to.
pub fn set_window(state: &mut Shared, window: isize)
    ensures
        *final(state) == (Shared { window, ..*old(state) }),
{
    state.window = window;
}

/// Binds the raise and lower keys; the press key is always play / pause, and
/// it is intercepted unless the press action passes it through.
pub fn set_binding(state: &mut Shared, raise: u16, lower: u16, press: PressAction)
    ensures
        *final(state) == (Shared {
            raise,
            lower,
            press: VK_MEDIA_PLAY_PAUSE,
            intercept_press: press != PressAction::PassThrough,
            ..*old(state)
        }),
{
    state.raise = raise;
    state.lower = lower;
    state.press = PressAction::virtual_key();
    state.intercept_press = match press {
        PressAction::PassThrough => false,
        _ => true,
    };
}

/// Arms or disarms the hook.
pub fn set_armed(state: &mut Shared, armed: bool)
    ensures
        *final(state) == (Shared { armed, ..*old(state) }),
{
    state.armed = armed;
}

/// The command a key stands for: the raise key first, then the lower key,
/// then the press key when it is intercepted.
pub open spec fn command_for(state: Shared, key: u16) -> Option<Command> {
    if key == state.raise {
        Some(Command::Raise)
    } else if key == state.lower {
        Some(Command::Lower)
    } else if key == state.press && state.intercept_press {
        Some(Command::Press)
    } else {
        None
    }
}

pub fn classify(state: &Shared, key: u16) -> (res: Option<Command>)
    ensures
        res == command_for(*state, key),
        key == state.raise ==> res == Some(Command::Raise),
        key == state.lower && key != state.raise ==> res == Some(Command::Lower),
        res == Some(Command::Press) <==> (key != state.raise && key != state.lower && key
            == state.press && state.intercept_press),
        res is None <==> (key != state.raise && key != state.lower && !(key == state.press
            && state.intercept_press)),
{
    if key == state.raise {
        return Some(Command::Raise);
    }
    if key == state.lower {
        return Some(Command::Lower);
    }
    let press: bool = key == state.press;
    if press && state.intercept_press {
        return Some(Command::Press);
    }
    None
}

/// A key going down.
pub open spec fn is_down(message: u32) -> bool {
    message == WM_KEYDOWN || message == WM_SYSKEYDOWN
}

/// A key coming up.
pub open spec fn is_up(message: u32) -> bool {
    message == WM_KEYUP || message == WM_SYSKEYUP
}

/// The hook's verdict on one key event.
#[derive(Debug, Clone, Copy, PartialEq, Eq, Structural)]
pub struct Interception {
    /// The command to post to the window.
    pub post: Option<Command>,
    /// Whether the key is kept from the rest of the system.
    pub swallow: bool,
}

/// Nothing is ours while there is no window or the hook is disarmed, or for
/// a key that is not bound. Otherwise a key going down is posted and both
/// its going down and its coming up are swallowed: the key-up has to
/// disappear too, or the shell still sees a complete keystroke.
pub open spec fn route(state: Shared, message: u32, key: u16) -> Interception {
    let command = command_for(state, key);
    if state.window == 0 || !state.armed || command is None {
        Interception { post: None, swallow: false }
    } else {
        Interception {
            post: if is_down(message) {
                command
            } else {
                None
            },
            swallow: is_down(message) || is_up(message),
        }
    }
}

/// Decides what happens to a key event the hook was handed.
pub fn intercepts(state: &Shared, message: u32, key: u16) -> (res: Interception)
    ensures
        res == route(*state, message, key),
{
    let command: Option<Command> = classify(state, key);
    if state.window == 0 || !state.armed {
        return Interception { post: None, swallow: false };
    }
    let command: Command = match command {
        Some(command) => command,
        None => {
            return Interception { post: None, swallow: false };
        },
    };
    let pressed: bool = message == WM_KEYDOWN || message == WM_SYSKEYDOWN;
    let released: bool = message == WM_KEYUP || message == WM_SYSKEYUP;
    Interception {
        post: if pressed {
            Some(command)
        } else {
            None
        },
        swallow: pressed || released,
    }
}

/// A key's release is swallowed exactly when its press was, and only the
/// press is posted.
pub proof fn lemma_release_follows_press(state: Shared, down: u32, up: u32, key: u16)
    requires
        is_down(down),
        is_up(up),
    ensures
        route(state, down, key).swallow == route(state, up, key).swallow,
        route(state, up, key).post is None,
        route(state, down, key).post == (if route(state, down, key).swallow {
            command_for(state, key)
        } else {
            None
        }),
{
}

/// While disarmed, or before there is a window, every key passes through and
/// nothing is posted.
pub proof fn lemma_disarmed_passes_through(state: Shared, message: u32, key: u16)
    requires
        !state.armed || state.window == 0,
    ensures
        route(state, message, key) == (Interception { post: None, swallow: false }),
{
}

/// With the press action set to pass through, the knob press reaches the
/// focused player untouched, as long as it is not also bound as a volume key.
pub proof fn lemma_pass_through_press(state: Shared, raise: u16, lower: u16, message: u32)
    requires
        raise != VK_MEDIA_PLAY_PAUSE,
        lower != VK_MEDIA_PLAY_PAUSE,
    ensures
        ({
            let bound = Shared {
                raise,
                lower,
                press: VK_MEDIA_PLAY_PAUSE,
                intercept_press: false,
                ..state
            };
            route(bound, message, VK_MEDIA_PLAY_PAUSE) == (Interception {
                post: None,
                swallow: false,
            })
        }),
{
}

/// The direction follows the binding, whatever key codes it names: the raise
/// key always raises, the lower key lowers whenever it is not also the raise
/// key, and no other key turns the volume. The same holds of the state that
/// [`set_binding`] leaves, for any keys it is given.
pub proof fn lemma_binding_sets_direction(
    state: Shared,
    raise: u16,
    lower: u16,
    press: PressAction,
    key: u16,
)
    ensures
        command_for(state, state.raise) == Some(Command::Raise),
        state.raise != state.lower ==> command_for(state, state.lower) == Some(Command::Lower),
        command_for(state, key) == Some(Command::Raise) ==> key == state.raise,
        command_for(state, key) == Some(Command::Lower) ==> key == state.lower && key
            != state.raise,
        command_for(state, key) == Some(Command::Press) ==> key == state.press
            && state.intercept_press,
        ({
            let bound = Shared {
                raise,
                lower,
                press: VK_MEDIA_PLAY_PAUSE,
                intercept_press: press != PressAction::PassThrough,
                ..state
            };
            &&& command_for(bound, raise) == Some(Command::Raise)
            &&& raise != lower ==> command_for(bound, lower) == Some(Command::Lower)
        }),
{
}

/// Armed with a window, a bound volume key going down is posted as the
/// command its binding names, whichever key codes the binding uses.
pub proof fn lemma_armed_follows_binding(state: Shared, message: u32)
    requires
        state.window != 0,
        state.armed,
        state.raise != state.lower,
        is_down(message),
    ensures
        route(state, message, state.raise) == (Interception {
            post: Some(Command::Raise),
            swallow: true,
        }),
        route(state, message, state.lower) == (Interception {
            post: Some(Command::Lower),
            swallow: true,
        }),
{
}

/// Once armed with a window and the usual key binding, a volume key going
/// down is swallowed and posted as the matching command.
pub proof fn lemma_armed_volume_keys(state: Shared, message: u32)
    requires
        state.window != 0,
        state.armed,
        state.raise == VK_VOLUME_UP,
        state.lower == VK_VOLUME_DOWN,
        is_down(message),
    ensures
        route(state, message, VK_VOLUME_UP) == (Interception {
            post: Some(Command::Raise),
            swallow: true,
        }),
        route(state, message, VK_VOLUME_DOWN) == (Interception {
            post: Some(Command::Lower),
            swallow: true,
        }),
{
}

} // verus!
