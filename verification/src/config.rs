use vstd::prelude::*;
use crate::command::CmdContext;
use crate::keymap::KeyMap;
use crate::control::{HotkeyRegistration, registration, HOTKEY_ID, HOTKEY_MODIFIERS, VK_F9};

verus! {

/// Why a command of the configuration was left out of the table.
#[derive(Debug, Clone, Copy, PartialEq, Eq, Structural)]
pub enum IssueKind {
    /// Another command already holds the same shortcut key.
    Conflict,
    /// The shortcut key name is not in the key table.
    Unsupported,
}

/// A command left out of the table while loading, with the names a report needs.
pub struct ConfigIssue {
    pub kind: IssueKind,
    pub quick_cmd_name: String,
    pub shortcut_key_name: String,
}

/// The commands bound to shortcut keys, in the order they were loaded.
/// Each one carries the code of its key, and no code occurs twice.
pub struct CmdTable {
    entries: Vec<CmdContext>,
}

/// The key code of a table entry.
pub open spec fn code_of(c: CmdContext) -> u32 {
    match c.shortcut_key_code {
        Some(k) => k,
        None => 0,
    }
}

pub open spec fn has_code(s: Seq<CmdContext>, k: u32) -> bool {
    exists|i: int| 0 <= i < s.len() && (#[trigger] s[i]).shortcut_key_code == Some(k)
}

/// Every entry has a code, and the codes are pairwise distinct.
pub open spec fn table_wf(s: Seq<CmdContext>) -> bool {
    &&& forall|i: int| 0 <= i < s.len() ==> (#[trigger] s[i]).shortcut_key_code is Some
    &&& forall|i: int, j: int|
        0 <= i < s.len() && 0 <= j < s.len() && i != j ==> (#[trigger] s[i]).shortcut_key_code
            != (#[trigger] s[j]).shortcut_key_code
}

/// The command with its shortcut code filled in.
pub open spec fn with_code(c: CmdContext, k: u32) -> CmdContext {
    CmdContext { shortcut_key_code: Some(k), ..c }
}

pub open spec fn issue_for(kind: IssueKind, c: CmdContext) -> ConfigIssue {
    ConfigIssue { kind, quick_cmd_name: c.quick_cmd_name, shortcut_key_name: c.shortcut_key_name }
}

/// Loading one command: its key name is looked up; an unknown name or a code
/// already in the table leaves the table as it is and records an issue.
pub open spec fn load_step(
    state: (Seq<CmdContext>, Seq<ConfigIssue>),
    item: CmdContext,
    keys: Map<Seq<char>, u32>,
) -> (Seq<CmdContext>, Seq<ConfigIssue>) {
    if keys.contains_key(item.shortcut_key_name@) {
        let k = keys[item.shortcut_key_name@];
        if has_code(state.0, k) {
            (state.0, state.1.push(issue_for(IssueKind::Conflict, item)))
        } else {
            (state.0.push(with_code(item, k)), state.1)
        }
    } else {
        (state.0, state.1.push(issue_for(IssueKind::Unsupported, item)))
    }
}

/// Loading the commands in order.
pub open spec fn load_all(
    state: (Seq<CmdContext>, Seq<ConfigIssue>),
    items: Seq<CmdContext>,
    keys: Map<Seq<char>, u32>,
) -> (Seq<CmdContext>, Seq<ConfigIssue>)
    decreases items.len(),
{
    if items.len() == 0 {
        state
    } else {
        load_step(load_all(state, items.drop_last(), keys), items.last(), keys)
    }
}

impl View for CmdTable {
    type V = Seq<CmdContext>;

    closed spec fn view(&self) -> Seq<CmdContext> {
        self.entries@
    }
}

impl CmdTable {
    /// An empty table.
    pub fn new() -> (t: CmdTable)
        ensures
            t@ == Seq::<CmdContext>::empty(),
    {
        CmdTable { entries: Vec::new() }
    }

    /// Number of commands in the table.
    pub fn len(&self) -> (n: usize)
        ensures
            n == self@.len(),
    {
        self.entries.len()
    }

    /// The commands in load order.
    pub fn commands(&self) -> (r: &Vec<CmdContext>)
        ensures
            r@ == self@,
    {
        &self.entries
    }

    /// Whether some command holds the key code `code`.
    pub fn contains_code(&self, code: u32) -> (r: bool)
        ensures
            r == has_code(self@, code),
    {
        let n = self.entries.len();
        let mut i: usize = 0;
        while i < n
            invariant
                n == self@.len(),
                i <= n,
                forall|j: int| 0 <= j < i ==> (#[trigger] self@[j]).shortcut_key_code != Some(code),
            decreases n - i,
        {
            if self.entries[i].shortcut_key_code == Some(code) {
                assert(self@[i as int].shortcut_key_code == Some(code));
                return true;
            }
            i = i + 1;
        }
        false
    }

    /// The command bound to `code`, if any.
    pub fn get(&self, code: u32) -> (r: Option<&CmdContext>)
        ensures
            r is Some <==> has_code(self@, code),
            r matches Some(c) ==> exists|i: int|
                0 <= i < self@.len() && self@[i].shortcut_key_code == Some(code) && *c == self@[i],
    {
        let n = self.entries.len();
        let mut i: usize = 0;
        while i < n
            invariant
                n == self@.len(),
                i <= n,
                forall|j: int| 0 <= j < i ==> (#[trigger] self@[j]).shortcut_key_code != Some(code),
            decreases n - i,
        {
            if self.entries[i].shortcut_key_code == Some(code) {
                assert(self@[i as int].shortcut_key_code == Some(code));
                return Some(&self.entries[i]);
            }
            i = i + 1;
        }
        None
    }

    /// The hotkeys to register, in order: the reload key F9 first, then the
    /// key of each command of the table, all with Ctrl+Alt.
    pub fn hotkey_registrations(&self) -> (r: Vec<HotkeyRegistration>)
        requires
            table_wf(self@),
        ensures
            r@.len() == self@.len() + 1,
            r@[0] == registration(VK_F9),
            forall|i: int| 0 <= i < self@.len() ==> r@[i + 1] == registration(code_of(#[trigger] self@[i])),
    {
        let mut r: Vec<HotkeyRegistration> = Vec::new();
        r.push(HotkeyRegistration { id: HOTKEY_ID, modifiers: HOTKEY_MODIFIERS, vk: VK_F9 });
        let n = self.entries.len();
        let mut i: usize = 0;
        while i < n
            invariant
                n == self@.len(),
                table_wf(self@),
                i <= n,
                r@.len() == i + 1,
                r@[0] == registration(VK_F9),
                forall|j: int| 0 <= j < i ==> r@[j + 1] == registration(code_of(#[trigger] self@[j])),
            decreases n - i,
        {
            let code = self.entries[i].shortcut_key_code.unwrap();
            r.push(HotkeyRegistration { id: HOTKEY_ID, modifiers: HOTKEY_MODIFIERS, vk: code });
            i = i + 1;
        }
        r
    }

    /// Loads the commands of a configuration: on a reload the table is first
    /// emptied; then each command's key name is looked up in `key_map`, and it
    /// is added under that code unless the name is unknown or the code is
    /// taken, each of which is reported in the returned issues, in order.
    pub fn load(&mut self, items: Vec<CmdContext>, key_map: &KeyMap, is_reload: bool) -> (issues: Vec<ConfigIssue>)
        requires
            table_wf(old(self)@),
        ensures
            table_wf(final(self)@),
            (final(self)@, issues@) == load_all(
                (if is_reload { Seq::<CmdContext>::empty() } else { old(self)@ }, Seq::<ConfigIssue>::empty()),
                items@,
                key_map@,
            ),
    {
        if is_reload {
            self.entries.clear();
        }
        let ghost start = (self@, Seq::<ConfigIssue>::empty());
        let ghost all = items@;
        let total = items.len();
        let mut items = items;
        let mut issues: Vec<ConfigIssue> = Vec::new();
        let mut i: usize = 0;
        while items.len() > 0
            invariant
                start == (if is_reload { Seq::<CmdContext>::empty() } else { old(self)@ }, Seq::<ConfigIssue>::empty()),
                i <= all.len(),
                all.len() == total,
                items@ == all.skip(i as int),
                table_wf(self@),
                (self@, issues@) == load_all(start, all.take(i as int), key_map@),
            decreases items.len(),
        {
            let item = items.remove(0);
            assert(all.take(i + 1).drop_last() =~= all.take(i as int));
            assert(all.take(i + 1).last() == item);
            assert(items@ =~= all.skip(i + 1));
            let ghost prev = self@;
            let mut item = item;
            let code = key_map.get(item.shortcut_key_name.as_str());
            item.shortcut_key_code = code;
            match code {
                Some(k) => {
                    if self.contains_code(k) {
                        issues.push(ConfigIssue {
                            kind: IssueKind::Conflict,
                            quick_cmd_name: item.quick_cmd_name,
                            shortcut_key_name: item.shortcut_key_name,
                        });
                    } else {
                        self.entries.push(item);
                        assert forall|a: int, b: int|
                            0 <= a < self@.len() && 0 <= b < self@.len() && a != b
                            implies (#[trigger] self@[a]).shortcut_key_code != (#[trigger] self@[b]).shortcut_key_code by {
                            if a == prev.len() as int {
                                assert(prev[b] == self@[b]);
                            } else if b == prev.len() as int {
                                assert(prev[a] == self@[a]);
                            } else {
                                assert(prev[a] == self@[a]);
                                assert(prev[b] == self@[b]);
                            }
                        }
                    }
                },
                None => {
                    issues.push(ConfigIssue {
                        kind: IssueKind::Unsupported,
                        quick_cmd_name: item.quick_cmd_name,
                        shortcut_key_name: item.shortcut_key_name,
                    });
                },
            }
            i = i + 1;
        }
        assert(all.take(i as int) =~= all);
        issues
    }
}

} // verus!

verus! {

/// Every command of the table sits under the code that the key table gives
/// its key name.
pub open spec fn bound_as_key_table_says(s: Seq<CmdContext>, keys: Map<Seq<char>, u32>) -> bool {
    forall|i: int|
        0 <= i < s.len() ==> keys.contains_key((#[trigger] s[i]).shortcut_key_name@)
            && s[i].shortcut_key_code == Some(keys[s[i].shortcut_key_name@])
}

/// Loading never removes or reorders a command already in the table: the
/// table before is a prefix of the table after (the first command to claim a
/// key keeps it).
pub proof fn load_keeps_earlier_commands(
    state: (Seq<CmdContext>, Seq<ConfigIssue>),
    items: Seq<CmdContext>,
    keys: Map<Seq<char>, u32>,
)
    ensures
        state.0.len() <= load_all(state, items, keys).0.len(),
        forall|i: int| 0 <= i < state.0.len() ==> load_all(state, items, keys).0[i] == #[trigger] state.0[i],
        state.1.len() <= load_all(state, items, keys).1.len(),
        forall|i: int| 0 <= i < state.1.len() ==> load_all(state, items, keys).1[i] == #[trigger] state.1[i],
    decreases items.len(),
{
    if items.len() > 0 {
        load_keeps_earlier_commands(state, items.drop_last(), keys);
    }
}

/// Each command handed to a load either enters the table or is reported,
/// never both and never neither.
pub proof fn load_accounts_for_every_command(
    state: (Seq<CmdContext>, Seq<ConfigIssue>),
    items: Seq<CmdContext>,
    keys: Map<Seq<char>, u32>,
)
    ensures
        (load_all(state, items, keys).0.len() - state.0.len()) + (load_all(state, items, keys).1.len()
            - state.1.len()) == items.len(),
    decreases items.len(),
{
    if items.len() > 0 {
        load_accounts_for_every_command(state, items.drop_last(), keys);
    }
}

/// Loading keeps every command under the code the key table gives its key
/// name: it holds of the table after a load when it held before.
pub proof fn loaded_commands_follow_key_table(
    state: (Seq<CmdContext>, Seq<ConfigIssue>),
    items: Seq<CmdContext>,
    keys: Map<Seq<char>, u32>,
)
    requires
        bound_as_key_table_says(state.0, keys),
    ensures
        bound_as_key_table_says(load_all(state, items, keys).0, keys),
    decreases items.len(),
{
    if items.len() > 0 {
        loaded_commands_follow_key_table(state, items.drop_last(), keys);
        let prev = load_all(state, items.drop_last(), keys).0;
        let next = load_all(state, items, keys).0;
        assert forall|i: int| 0 <= i < next.len() implies keys.contains_key((#[trigger] next[i]).shortcut_key_name@)
            && next[i].shortcut_key_code == Some(keys[next[i].shortcut_key_name@]) by {
            if i < prev.len() {
                assert(next[i] == prev[i]);
            }
        }
    }
}

/// After a load, every command whose key name the key table knows has its
/// key bound in the table (to it, or to a command that claimed it first).
pub proof fn known_keys_are_bound_after_load(
    state: (Seq<CmdContext>, Seq<ConfigIssue>),
    items: Seq<CmdContext>,
    keys: Map<Seq<char>, u32>,
)
    ensures
        forall|j: int|
            0 <= j < items.len() && keys.contains_key((#[trigger] items[j]).shortcut_key_name@)
                ==> has_code(load_all(state, items, keys).0, keys[items[j].shortcut_key_name@]),
    decreases items.len(),
{
    if items.len() > 0 {
        let init = items.drop_last();
        known_keys_are_bound_after_load(state, init, keys);
        let prev = load_all(state, init, keys).0;
        let next = load_all(state, items, keys).0;
        assert forall|j: int|
            0 <= j < items.len() && keys.contains_key((#[trigger] items[j]).shortcut_key_name@)
            implies has_code(next, keys[items[j].shortcut_key_name@]) by {
            let k = keys[items[j].shortcut_key_name@];
            if j < init.len() {
                assert(init[j] == items[j]);
                assert(has_code(prev, k));
                let w = choose|w: int| 0 <= w < prev.len() && (#[trigger] prev[w]).shortcut_key_code == Some(k);
                assert(next[w] == prev[w]);
            } else {
                if !has_code(prev, k) {
                    assert(next[prev.len() as int].shortcut_key_code == Some(k));
                }
            }
        }
    }
}

proof fn load_changes_nothing_when_keys_taken(
    state: (Seq<CmdContext>, Seq<ConfigIssue>),
    items: Seq<CmdContext>,
    keys: Map<Seq<char>, u32>,
)
    requires
        forall|j: int|
            0 <= j < items.len() && keys.contains_key((#[trigger] items[j]).shortcut_key_name@)
                ==> has_code(state.0, keys[items[j].shortcut_key_name@]),
    ensures
        load_all(state, items, keys).0 == state.0,
    decreases items.len(),
{
    if items.len() > 0 {
        let init = items.drop_last();
        assert forall|j: int|
            0 <= j < init.len() && keys.contains_key((#[trigger] init[j]).shortcut_key_name@)
            implies has_code(state.0, keys[init[j].shortcut_key_name@]) by {
            assert(init[j] == items[j]);
        }
        load_changes_nothing_when_keys_taken(state, init, keys);
        assert(items.last() == items[items.len() - 1]);
    }
}

/// Loading the same commands a second time, without a reload, leaves the
/// table as the first load made it: every key they ask for is then taken.
pub proof fn second_load_of_same_commands_changes_nothing(
    state: (Seq<CmdContext>, Seq<ConfigIssue>),
    issues: Seq<ConfigIssue>,
    items: Seq<CmdContext>,
    keys: Map<Seq<char>, u32>,
)
    ensures
        load_all((load_all(state, items, keys).0, issues), items, keys).0 == load_all(state, items, keys).0,
{
    known_keys_are_bound_after_load(state, items, keys);
    load_changes_nothing_when_keys_taken((load_all(state, items, keys).0, issues), items, keys);
}

} // verus!

verus! {

/// Two commands agree on everything the configuration gives, the key code aside.
pub open spec fn same_configured_command(a: CmdContext, b: CmdContext) -> bool {
    &&& a.quick_cmd_name == b.quick_cmd_name
    &&& a.run_type == b.run_type
    &&& a.program_name == b.program_name
    &&& a.process_create_attr == b.process_create_attr
    &&& a.work_dir == b.work_dir
    &&& a.shortcut_key_name == b.shortcut_key_name
    &&& a.args == b.args
}

/// Every command a load adds is one of the configured commands as it was
/// written (name, program, flag, directory, run type, key name, arguments),
/// carrying the code that the key table gives its key name.
pub proof fn loaded_commands_are_configured_commands(
    state: (Seq<CmdContext>, Seq<ConfigIssue>),
    items: Seq<CmdContext>,
    keys: Map<Seq<char>, u32>,
)
    ensures
        forall|i: int|
            state.0.len() <= i < load_all(state, items, keys).0.len() ==> exists|j: int|
                0 <= j < items.len() && same_configured_command(
                    #[trigger] load_all(state, items, keys).0[i],
                    items[j],
                ) && keys.contains_key(items[j].shortcut_key_name@)
                    && load_all(state, items, keys).0[i].shortcut_key_code == Some(
                    keys[items[j].shortcut_key_name@],
                ),
    decreases items.len(),
{
    if items.len() > 0 {
        let init = items.drop_last();
        loaded_commands_are_configured_commands(state, init, keys);
        load_keeps_earlier_commands(state, init, keys);
        let prev = load_all(state, init, keys).0;
        let next = load_all(state, items, keys).0;
        assert forall|i: int| state.0.len() <= i < next.len() implies exists|j: int|
            0 <= j < items.len() && same_configured_command(#[trigger] next[i], items[j])
                && keys.contains_key(items[j].shortcut_key_name@)
                && next[i].shortcut_key_code == Some(keys[items[j].shortcut_key_name@]) by {
            if i < prev.len() {
                assert(next[i] == prev[i]);
                let j = choose|j: int|
                    0 <= j < init.len() && same_configured_command(#[trigger] prev[i], init[j])
                        && keys.contains_key(init[j].shortcut_key_name@)
                        && prev[i].shortcut_key_code == Some(keys[init[j].shortcut_key_name@]);
                assert(init[j] == items[j]);
            } else {
                let j = items.len() - 1;
                assert(items.last() == items[j]);
                assert(same_configured_command(next[i], items[j]));
            }
        }
    }
}

} // verus!
