use vstd::prelude::*;
use crate::keymap::KeyMap;
use crate::text::str_equals;

verus! {

/// Identifier under which every hotkey of the launcher is registered.
pub const HOTKEY_ID: i32 = 0xC025DE;

/// Modifier flags: Alt.
pub const MOD_ALT: u32 = 0x0001;

/// Modifier flags: Control.
pub const MOD_CONTROL: u32 = 0x0002;

/// Modifier flags: no auto-repeat.
pub const MOD_NOREPEAT: u32 = 0x4000;

/// Modifiers of every hotkey: Ctrl+Alt, without auto-repeat.
pub const HOTKEY_MODIFIERS: u32 = 0x4003;

/// Virtual-key code of F9, the reload key, which is always registered.
pub const VK_F9: u32 = 0x78;

/// The message that reports a pressed hotkey.
pub const WM_HOTKEY: u32 = 0x0312;

/// Key code that asks the command thread to stop (the bits of `u32::MAX`).
pub const EXIT_KEY_CODE: i32 = -1;

/// Notice sent after the configuration was reloaded.
pub const CONFIG_RELOADED: u32 = 1;

/// One hotkey to register with the system.
#[derive(Debug, Clone, Copy, PartialEq, Eq, Structural)]
pub struct HotkeyRegistration {
    pub id: i32,
    pub modifiers: u32,
    pub vk: u32,
}

pub open spec fn registration(vk: u32) -> HotkeyRegistration {
    HotkeyRegistration { id: HOTKEY_ID, modifiers: HOTKEY_MODIFIERS, vk }
}

/// What the command thread finds on its key channel.
#[derive(Debug, Clone, Copy, PartialEq, Eq, Structural)]
pub enum HotkeyEvent {
    /// Nothing is waiting.
    Empty,
    /// The sending side is gone.
    Disconnected,
    /// A pressed key code.
    Key(i32),
}

/// What the command thread does next.
#[derive(Debug, Clone, Copy, PartialEq, Eq, Structural)]
pub enum HandlerStep {
    /// Sleep briefly and poll again.
    Wait,
    /// Leave the loop.
    Stop,
    /// Reload the configuration first when `reload` is set (and announce it),
    /// then run the command bound to `code`, if there is one.
    Dispatch { reload: bool, code: u32 },
}

/// The decision of the command thread for one poll of its key channel. The
/// reload key is F9 as the key table defines it.
pub fn hotkey_handler_step(event: HotkeyEvent, key_map: &KeyMap) -> (r: HandlerStep)
    requires
        (event matches HotkeyEvent::Key(k) && k != EXIT_KEY_CODE) ==> key_map@.contains_key("VK_F9"@),
    ensures
        r == (match event {
            HotkeyEvent::Empty => HandlerStep::Wait,
            HotkeyEvent::Disconnected => HandlerStep::Stop,
            HotkeyEvent::Key(k) => if k == EXIT_KEY_CODE {
                HandlerStep::Stop
            } else {
                HandlerStep::Dispatch { reload: k == key_map@["VK_F9"@] as i32, code: k as u32 }
            },
        }),
{
    match event {
        HotkeyEvent::Empty => HandlerStep::Wait,
        HotkeyEvent::Disconnected => HandlerStep::Stop,
        HotkeyEvent::Key(k) => {
            if k == EXIT_KEY_CODE {
                HandlerStep::Stop
            } else {
                let f9 = key_map.get("VK_F9");
                let f9 = f9.unwrap();
                HandlerStep::Dispatch { reload: k == f9 as i32, code: k as u32 }
            }
        },
    }
}

/// What the message thread finds on its terminal channel.
pub enum TerminalEvent {
    Empty,
    Disconnected,
    Message(String),
}

/// Whether the message thread stops on this terminal event: when the channel
/// is gone or the message is `exit`.
pub fn terminal_says_stop(event: &TerminalEvent) -> (r: bool)
    ensures
        r == (match event {
            TerminalEvent::Empty => false,
            TerminalEvent::Disconnected => true,
            TerminalEvent::Message(m) => m@ == "exit"@,
        }),
{
    match event {
        TerminalEvent::Empty => false,
        TerminalEvent::Disconnected => true,
        TerminalEvent::Message(m) => str_equals(m.as_str(), "exit"),
    }
}

/// What the message thread finds on its configuration channel.
#[derive(Debug, Clone, Copy, PartialEq, Eq, Structural)]
pub enum ConfigEvent {
    Empty,
    Disconnected,
    Notice(u32),
}

/// What the message thread does about a configuration event.
#[derive(Debug, Clone, Copy, PartialEq, Eq, Structural)]
pub enum ConfigAction {
    /// Go on polling.
    Continue,
    /// Leave the loop.
    Stop,
    /// Register the hotkeys of the reloaded table.
    Reregister,
}

pub fn config_change_action(event: ConfigEvent) -> (r: ConfigAction)
    ensures
        r == (match event {
            ConfigEvent::Empty => ConfigAction::Continue,
            ConfigEvent::Disconnected => ConfigAction::Stop,
            ConfigEvent::Notice(n) => if n == CONFIG_RELOADED {
                ConfigAction::Reregister
            } else {
                ConfigAction::Continue
            },
        }),
{
    match event {
        ConfigEvent::Empty => ConfigAction::Continue,
        ConfigEvent::Disconnected => ConfigAction::Stop,
        ConfigEvent::Notice(n) => {
            if n == CONFIG_RELOADED {
                ConfigAction::Reregister
            } else {
                ConfigAction::Continue
            }
        },
    }
}

/// What the message thread does with a window message it took.
#[derive(Debug, Clone, Copy, PartialEq, Eq, Structural)]
pub enum MessageAction {
    /// Not one of our hotkeys.
    Ignore,
    /// Send `key` to the command thread; when `unregister_first` is set (the
    /// key is F9) the hotkey is first unregistered.
    Forward { key: i32, unregister_first: bool },
}

/// The key that a hotkey message carries: the high half of its `lparam`.
pub open spec fn message_key(lparam: isize) -> isize {
    lparam >> 16
}

/// The key of a hotkey message is the high word of `lparam` taken with its
/// sign: the unique `k` with `k * 0x10000 <= lparam < k * 0x10000 + 0x10000`.
pub proof fn message_key_is_high_word(lparam: isize)
    ensures
        message_key(lparam) * 0x10000 <= lparam,
        lparam < message_key(lparam) * 0x10000 + 0x10000,
        0 <= lparam ==> message_key(lparam) == lparam / 0x10000,
{
    let k = lparam >> 16;
    assert(k * 0x10000 <= lparam && lparam < k * 0x10000 + 0x10000) by (bit_vector)
        requires
            k == lparam >> 16,
    ;
}

/// A hotkey message whose `lparam` holds key `v` in its high word and any
/// modifier bits `lo` in its low word carries the key `v`.
pub proof fn message_key_of_packed_lparam(v: int, lo: int)
    requires
        0 <= v < 0x8000,
        0 <= lo < 0x10000,
    ensures
        message_key((v * 0x10000 + lo) as isize) == v,
{
    message_key_is_high_word((v * 0x10000 + lo) as isize);
}

/// Classifies a window message: a hotkey message under our identifier is
/// forwarded with its key, anything else is ignored.
pub fn classify_message(message: u32, wparam: usize, lparam: isize) -> (r: MessageAction)
    ensures
        r == (if message == WM_HOTKEY && wparam == HOTKEY_ID as usize {
            MessageAction::Forward {
                key: message_key(lparam) as i32,
                unregister_first: message_key(lparam) == VK_F9,
            }
        } else {
            MessageAction::Ignore
        }),
        0 <= lparam < 0x8000_0000 ==> (r matches MessageAction::Forward { key, .. } ==> key == lparam
            / 0x10000),
{
    proof {
        message_key_is_high_word(lparam);
    }
    if message == WM_HOTKEY && wparam == HOTKEY_ID as usize {
        let key_pressed: isize = lparam >> 16;
        MessageAction::Forward { key: key_pressed as i32, unregister_first: key_pressed == 0x78 }
    } else {
        MessageAction::Ignore
    }
}

} // verus!
