use hotkey_cmd::command::{get_process_attr_from_name, launch_settings, CmdContext, CREATE_NEW_CONSOLE, DETACHED_PROCESS};
use hotkey_cmd::config::{CmdTable, IssueKind};
use hotkey_cmd::control::{
    classify_message, config_change_action, hotkey_handler_step, terminal_says_stop, ConfigAction, ConfigEvent,
    HandlerStep, HotkeyEvent, MessageAction, TerminalEvent, HOTKEY_ID, HOTKEY_MODIFIERS, VK_F9, WM_HOTKEY,
};
use hotkey_cmd::keycode::{parse_key_code, KeyCodeError};
use hotkey_cmd::keymap::{BadKeyCode, KeyCodeEntry, KeyMap};
use hotkey_cmd::text::str_equals;

fn entry(key: &str, code: &str) -> KeyCodeEntry {
    KeyCodeEntry { key: key.to_string(), code: code.to_string(), comment: String::new() }
}

fn cmd(name: &str, key: &str) -> CmdContext {
    CmdContext {
        quick_cmd_name: name.to_string(),
        run_type: None,
        program_name: format!("{}.exe", name),
        process_create_attr: "CREATE_NEW_CONSOLE".to_string(),
        work_dir: None,
        shortcut_key_name: key.to_string(),
        shortcut_key_code: None,
        args: vec!["-x".to_string()],
    }
}

fn standard_keys() -> KeyMap {
    let mut m = KeyMap::new();
    let es = vec![entry("VK_F9", "0x78"), entry("VK_A", "0x41"), entry("VK_B", "0x42"), entry("VK_C", "0x43")];
    m.insert_entries(&es).unwrap();
    m
}

#[test]
fn str_equals_compares_characters() {
    assert!(str_equals("abc", "abc"));
    assert!(!str_equals("abc", "abd"));
    assert!(!str_equals("abc", "ab"));
    assert!(str_equals("", ""));
    assert!(str_equals("héllo", "héllo"));
}

#[test]
fn parse_key_code_reads_hex_after_prefix() {
    assert_eq!(parse_key_code("0x78"), Ok(0x78));
    assert_eq!(parse_key_code("78"), Ok(0x78));
    assert_eq!(parse_key_code("0xFf"), Ok(255));
    assert_eq!(parse_key_code("0x0x10"), Ok(16));
    assert_eq!(parse_key_code("0x+1f"), Ok(31));
    assert_eq!(parse_key_code("0xffffffff"), Ok(u32::MAX));
    assert_eq!(parse_key_code("00000000001"), Ok(1));
}

#[test]
fn parse_key_code_errors() {
    assert_eq!(parse_key_code(""), Err(KeyCodeError::Empty));
    assert_eq!(parse_key_code("0x"), Err(KeyCodeError::Empty));
    assert_eq!(parse_key_code("0x0x"), Err(KeyCodeError::Empty));
    assert_eq!(parse_key_code("+"), Err(KeyCodeError::InvalidDigit));
    assert_eq!(parse_key_code("0x+"), Err(KeyCodeError::InvalidDigit));
    assert_eq!(parse_key_code("-1"), Err(KeyCodeError::InvalidDigit));
    assert_eq!(parse_key_code("+0x1f"), Err(KeyCodeError::InvalidDigit));
    assert_eq!(parse_key_code("0X10"), Err(KeyCodeError::InvalidDigit));
    assert_eq!(parse_key_code("1g"), Err(KeyCodeError::InvalidDigit));
    assert_eq!(parse_key_code("0x100000000"), Err(KeyCodeError::Overflow));
    // an invalid digit before the overflow point decides the error
    assert_eq!(parse_key_code("fffffffg0"), Err(KeyCodeError::InvalidDigit));
}

#[test]
fn parse_key_code_agrees_with_std() {
    for s in ["0", "7f", "ABCDEF", "+10", "ffffffff", "123456789", "1g", "", "+", "-5", " 5"] {
        let trimmed = format!("0x{}", s);
        let want = u32::from_str_radix(trimmed.trim_start_matches("0x"), 16).ok();
        assert_eq!(parse_key_code(&trimmed).ok(), want, "input {:?}", trimmed);
    }
}

#[test]
fn hex_prefix_is_ignored_example() {
    assert_eq!(parse_key_code("0x2A"), parse_key_code("2A"));
    assert_eq!(parse_key_code("0xzz"), parse_key_code("zz"));
}

#[test]
fn key_map_get_after_insert() {
    let mut m = KeyMap::new();
    assert_eq!(m.get("VK_A"), None);
    m.insert("VK_A".to_string(), 0x41);
    assert_eq!(m.get("VK_A"), Some(0x41));
    assert_eq!(m.get("VK_B"), None);
    m.insert("VK_A".to_string(), 0x61);
    assert_eq!(m.get("VK_A"), Some(0x61));
}

#[test]
fn last_key_entry_wins_example() {
    let mut m = KeyMap::new();
    let es = vec![entry("VK_A", "0x41"), entry("VK_B", "0x42"), entry("VK_A", "0x61")];
    assert_eq!(m.insert_entries(&es), Ok(()));
    assert_eq!(m.get("VK_A"), Some(0x61));
    assert_eq!(m.get("VK_B"), Some(0x42));
}

#[test]
fn insert_entries_reports_first_bad_code() {
    let mut m = KeyMap::new();
    let es = vec![entry("VK_A", "0x41"), entry("VK_B", "0xZZ"), entry("VK_C", "")];
    assert_eq!(m.insert_entries(&es), Err(BadKeyCode { index: 1, kind: KeyCodeError::InvalidDigit }));
    assert_eq!(m.get("VK_A"), Some(0x41));
    assert_eq!(m.get("VK_B"), None);
    assert_eq!(m.get("VK_C"), None);
}

#[test]
fn process_attr_names() {
    assert_eq!(get_process_attr_from_name("CREATE_NEW_CONSOLE"), Some(CREATE_NEW_CONSOLE));
    assert_eq!(get_process_attr_from_name("DETACHED_PROCESS"), Some(DETACHED_PROCESS));
    assert_eq!(get_process_attr_from_name("create_new_console"), None);
    assert_eq!(get_process_attr_from_name(""), None);
    assert_eq!(CREATE_NEW_CONSOLE, 0x10);
    assert_eq!(DETACHED_PROCESS, 0x8);
}

#[test]
fn launch_settings_pipe_only_for_detached() {
    let mut c = cmd("a", "VK_A");
    let s = launch_settings(&c);
    assert_eq!(s.creation_flags, Some(0x10));
    assert!(!s.pipe_stdout);
    c.process_create_attr = "DETACHED_PROCESS".to_string();
    let s = launch_settings(&c);
    assert_eq!(s.creation_flags, Some(0x8));
    assert!(s.pipe_stdout);
    c.process_create_attr = "OTHER".to_string();
    let s = launch_settings(&c);
    assert_eq!(s.creation_flags, None);
    assert!(!s.pipe_stdout);
}

#[test]
fn load_binds_commands_and_reports_issues() {
    let keys = standard_keys();
    let mut t = CmdTable::new();
    let issues = t.load(vec![cmd("one", "VK_A"), cmd("two", "VK_Z"), cmd("three", "VK_A"), cmd("four", "VK_B")], &keys, false);
    assert_eq!(t.len(), 2);
    let cs = t.commands();
    assert_eq!(cs[0].quick_cmd_name, "one");
    assert_eq!(cs[0].shortcut_key_code, Some(0x41));
    assert_eq!(cs[1].quick_cmd_name, "four");
    assert_eq!(cs[1].shortcut_key_code, Some(0x42));
    assert_eq!(issues.len(), 2);
    assert_eq!(issues[0].kind, IssueKind::Unsupported);
    assert_eq!(issues[0].quick_cmd_name, "two");
    assert_eq!(issues[0].shortcut_key_name, "VK_Z");
    assert_eq!(issues[1].kind, IssueKind::Conflict);
    assert_eq!(issues[1].quick_cmd_name, "three");
    assert_eq!(t.get(0x41).unwrap().quick_cmd_name, "one");
    assert!(t.get(0x43).is_none());
    assert!(t.contains_code(0x42));
    assert!(!t.contains_code(0x43));
}

#[test]
fn load_keeps_earlier_commands_example() {
    let keys = standard_keys();
    let mut t = CmdTable::new();
    t.load(vec![cmd("one", "VK_A")], &keys, false);
    let issues = t.load(vec![cmd("other", "VK_A"), cmd("two", "VK_B")], &keys, false);
    assert_eq!(t.len(), 2);
    assert_eq!(t.commands()[0].quick_cmd_name, "one");
    assert_eq!(t.commands()[1].quick_cmd_name, "two");
    assert_eq!(issues.len(), 1);
    assert_eq!(issues[0].kind, IssueKind::Conflict);
}

#[test]
fn reload_starts_from_empty_table() {
    let keys = standard_keys();
    let mut t = CmdTable::new();
    t.load(vec![cmd("one", "VK_A"), cmd("two", "VK_B")], &keys, false);
    let issues = t.load(vec![cmd("three", "VK_C")], &keys, true);
    assert!(issues.is_empty());
    assert_eq!(t.len(), 1);
    assert!(t.get(0x41).is_none());
    assert_eq!(t.get(0x43).unwrap().quick_cmd_name, "three");
}

#[test]
fn second_load_of_same_commands_changes_nothing_example() {
    let keys = standard_keys();
    let mut t = CmdTable::new();
    t.load(vec![cmd("one", "VK_A"), cmd("two", "VK_B"), cmd("bad", "VK_Q")], &keys, false);
    let issues = t.load(vec![cmd("one", "VK_A"), cmd("two", "VK_B"), cmd("bad", "VK_Q")], &keys, false);
    assert_eq!(t.len(), 2);
    assert_eq!(issues.len(), 3);
    assert_eq!(issues[0].kind, IssueKind::Conflict);
    assert_eq!(issues[2].kind, IssueKind::Unsupported);
}

#[test]
fn every_command_is_loaded_or_reported() {
    let keys = standard_keys();
    let mut t = CmdTable::new();
    let items = vec![cmd("a", "VK_A"), cmd("b", "VK_A"), cmd("c", "VK_X"), cmd("d", "VK_C"), cmd("e", "VK_F9")];
    let n = items.len();
    let issues = t.load(items, &keys, false);
    assert_eq!(t.len() + issues.len(), n);
    assert_eq!(t.len(), 3);
}

#[test]
fn loaded_commands_follow_key_table_example() {
    let keys = standard_keys();
    let mut t = CmdTable::new();
    t.load(vec![cmd("a", "VK_C"), cmd("b", "VK_F9")], &keys, false);
    for c in t.commands() {
        assert_eq!(c.shortcut_key_code, keys.get(&c.shortcut_key_name));
    }
}

#[test]
fn registrations_start_with_reload_key() {
    let keys = standard_keys();
    let mut t = CmdTable::new();
    t.load(vec![cmd("b", "VK_B"), cmd("a", "VK_A")], &keys, false);
    let regs = t.hotkey_registrations();
    assert_eq!(regs.len(), 3);
    assert_eq!(regs[0].vk, VK_F9);
    assert_eq!(regs[1].vk, 0x42);
    assert_eq!(regs[2].vk, 0x41);
    for r in &regs {
        assert_eq!(r.id, HOTKEY_ID);
        assert_eq!(r.modifiers, HOTKEY_MODIFIERS);
    }
    assert_eq!(HOTKEY_MODIFIERS, 0x0001 | 0x0002 | 0x4000);
    assert_eq!(CmdTable::new().hotkey_registrations().len(), 1);
}

#[test]
fn handler_steps() {
    let keys = standard_keys();
    assert_eq!(hotkey_handler_step(HotkeyEvent::Empty, &keys), HandlerStep::Wait);
    assert_eq!(hotkey_handler_step(HotkeyEvent::Disconnected, &keys), HandlerStep::Stop);
    assert_eq!(hotkey_handler_step(HotkeyEvent::Key(u32::MAX as i32), &keys), HandlerStep::Stop);
    assert_eq!(hotkey_handler_step(HotkeyEvent::Key(0x78), &keys), HandlerStep::Dispatch { reload: true, code: 0x78 });
    assert_eq!(hotkey_handler_step(HotkeyEvent::Key(0x41), &keys), HandlerStep::Dispatch { reload: false, code: 0x41 });
    assert_eq!(hotkey_handler_step(HotkeyEvent::Key(-2), &keys), HandlerStep::Dispatch { reload: false, code: 0xFFFF_FFFE });
}

#[test]
fn exit_key_stops_without_key_table() {
    let empty = KeyMap::new();
    assert_eq!(hotkey_handler_step(HotkeyEvent::Key(-1), &empty), HandlerStep::Stop);
}

#[test]
fn terminal_events() {
    assert!(!terminal_says_stop(&TerminalEvent::Empty));
    assert!(terminal_says_stop(&TerminalEvent::Disconnected));
    assert!(terminal_says_stop(&TerminalEvent::Message("exit".to_string())));
    assert!(!terminal_says_stop(&TerminalEvent::Message("exit ".to_string())));
    assert!(!terminal_says_stop(&TerminalEvent::Message("hello".to_string())));
}

#[test]
fn config_events() {
    assert_eq!(config_change_action(ConfigEvent::Empty), ConfigAction::Continue);
    assert_eq!(config_change_action(ConfigEvent::Disconnected), ConfigAction::Stop);
    assert_eq!(config_change_action(ConfigEvent::Notice(1)), ConfigAction::Reregister);
    assert_eq!(config_change_action(ConfigEvent::Notice(2)), ConfigAction::Continue);
}

#[test]
fn message_classification() {
    assert_eq!(WM_HOTKEY, 0x0312);
    let id = HOTKEY_ID as usize;
    assert_eq!(classify_message(WM_HOTKEY, id, 0x0078_0003), MessageAction::Forward { key: 0x78, unregister_first: true });
    assert_eq!(classify_message(WM_HOTKEY, id, 0x0041_0003), MessageAction::Forward { key: 0x41, unregister_first: false });
    assert_eq!(classify_message(WM_HOTKEY, id + 1, 0x0041_0003), MessageAction::Ignore);
    assert_eq!(classify_message(0x0100, id, 0x0041_0003), MessageAction::Ignore);
    assert_eq!(classify_message(WM_HOTKEY, id, -0x10000), MessageAction::Forward { key: -1, unregister_first: false });
}
