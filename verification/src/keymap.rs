use vstd::prelude::*;
use crate::keycode::{KeyCodeError, key_code_value, parse_key_code};
use crate::text::str_equals;

verus! {

/// One record of the key table: a key name, its code written in hexadecimal
/// and a free comment.
pub struct KeyCodeEntry {
    pub key: String,
    pub code: String,
    pub comment: String,
}

/// A key table entry whose code could not be read, and why.
#[derive(Debug, Clone, Copy, PartialEq, Eq, Structural)]
pub struct BadKeyCode {
    /// Position of the entry in the table.
    pub index: usize,
    pub kind: KeyCodeError,
}

/// Map from key names to virtual-key codes. A later insertion of a name
/// replaces the earlier one.
pub struct KeyMap {
    entries: Vec<(String, u32)>,
}

/// The map denoted by a list of insertions, the last one for a name winning.
pub open spec fn insertions_map(s: Seq<(String, u32)>) -> Map<Seq<char>, u32>
    decreases s.len(),
{
    if s.len() == 0 {
        Map::empty()
    } else {
        insertions_map(s.drop_last()).insert(s.last().0@, s.last().1)
    }
}

/// The code an entry of the key table denotes, where it can be read.
pub open spec fn entry_code(e: KeyCodeEntry) -> u32 {
    match key_code_value(e.code@) {
        Ok(v) => v,
        Err(_) => 0,
    }
}

pub open spec fn entry_code_ok(e: KeyCodeEntry) -> bool {
    key_code_value(e.code@) is Ok
}

/// The map after inserting each entry of the key table in order.
pub open spec fn insert_entries(m: Map<Seq<char>, u32>, es: Seq<KeyCodeEntry>) -> Map<Seq<char>, u32>
    decreases es.len(),
{
    if es.len() == 0 {
        m
    } else {
        insert_entries(m, es.drop_last()).insert(es.last().key@, entry_code(es.last()))
    }
}

impl View for KeyMap {
    type V = Map<Seq<char>, u32>;

    closed spec fn view(&self) -> Map<Seq<char>, u32> {
        insertions_map(self.entries@)
    }
}

proof fn lemma_lookup_skips_suffix(s: Seq<(String, u32)>, i: int, k: Seq<char>)
    requires
        0 <= i <= s.len(),
        forall|j: int| i <= j < s.len() ==> s[j].0@ != k,
    ensures
        insertions_map(s).contains_key(k) == insertions_map(s.take(i)).contains_key(k),
        insertions_map(s).contains_key(k) ==> insertions_map(s)[k] == insertions_map(s.take(i))[k],
    decreases s.len(),
{
    if s.len() == i {
        assert(s.take(i) =~= s);
    } else {
        lemma_lookup_skips_suffix(s.drop_last(), i, k);
        assert(s.drop_last().take(i) =~= s.take(i));
    }
}

impl KeyMap {
    /// An empty map.
    pub fn new() -> (m: KeyMap)
        ensures
            m@ == Map::<Seq<char>, u32>::empty(),
    {
        KeyMap { entries: Vec::new() }
    }

    /// Binds `key` to `code`, replacing any earlier binding of `key`.
    pub fn insert(&mut self, key: String, code: u32)
        ensures
            final(self)@ == old(self)@.insert(key@, code),
    {
        self.entries.push((key, code));
        assert(self.entries@.drop_last() =~= old(self).entries@);
    }

    /// The code bound to `key_name`, if any.
    pub fn get(&self, key_name: &str) -> (r: Option<u32>)
        ensures
            r == (if self@.contains_key(key_name@) {
                Some(self@[key_name@])
            } else {
                None::<u32>
            }),
    {
        let ghost s = self.entries@;
        let mut i: usize = self.entries.len();
        while i > 0
            invariant
                s == self.entries@,
                i <= s.len(),
                forall|j: int| i <= j < s.len() ==> s[j].0@ != key_name@,
            decreases i,
        {
            if str_equals(self.entries[i - 1].0.as_str(), key_name) {
                proof {
                    lemma_lookup_skips_suffix(s, i as int, key_name@);
                    assert(s.take(i as int).drop_last() =~= s.take(i - 1));
                }
                return Some(self.entries[i - 1].1);
            }
            i = i - 1;
        }
        proof {
            lemma_lookup_skips_suffix(s, 0, key_name@);
        }
        None
    }

    /// Inserts the entries of a key table in order, reading each code as
    /// hexadecimal. Stops at the first entry whose code cannot be read and
    /// reports it; the entries before it have been inserted.
    pub fn insert_entries(&mut self, entries: &Vec<KeyCodeEntry>) -> (r: Result<(), BadKeyCode>)
        ensures
            r is Ok <==> (forall|i: int| 0 <= i < entries@.len() ==> entry_code_ok(#[trigger] entries@[i])),
            r is Ok ==> final(self)@ == insert_entries(old(self)@, entries@),
            r matches Err(e) ==> {
                &&& e.index < entries@.len()
                &&& forall|i: int| 0 <= i < e.index ==> entry_code_ok(#[trigger] entries@[i])
                &&& key_code_value(entries@[e.index as int].code@) == Err::<u32, KeyCodeError>(e.kind)
                &&& final(self)@ == insert_entries(old(self)@, entries@.take(e.index as int))
            },
    {
        let ghost m0 = self@;
        let n = entries.len();
        let mut i: usize = 0;
        while i < n
            invariant
                n == entries@.len(),
                m0 == old(self)@,
                i <= n,
                forall|j: int| 0 <= j < i ==> entry_code_ok(#[trigger] entries@[j]),
                self@ == insert_entries(m0, entries@.take(i as int)),
            decreases n - i,
        {
            let e = &entries[i];
            match parse_key_code(e.code.as_str()) {
                Err(kind) => {
                    return Err(BadKeyCode { index: i, kind });
                },
                Ok(code) => {
                    self.insert(e.key.clone(), code);
                    assert(entries@.take(i + 1).drop_last() =~= entries@.take(i as int));
                },
            }
            i = i + 1;
        }
        assert(entries@.take(n as int) =~= entries@);
        Ok(())
    }
}

} // verus!

verus! {

/// The code an entry denotes is the value its code text reads as.
pub proof fn entry_code_is_its_reading(e: KeyCodeEntry, v: u32)
    requires
        key_code_value(e.code@) == Ok::<u32, KeyCodeError>(v),
    ensures
        entry_code_ok(e),
        entry_code(e) == v,
{
}

/// In a key table the last entry for a key name decides its code; a name no
/// entry mentions keeps what the map held before.
pub proof fn last_key_entry_wins(m: Map<Seq<char>, u32>, es: Seq<KeyCodeEntry>, k: Seq<char>, i: int)
    requires
        -1 <= i < es.len(),
        i >= 0 ==> es[i].key@ == k,
        forall|j: int| i < j < es.len() ==> (#[trigger] es[j]).key@ != k,
    ensures
        i >= 0 ==> insert_entries(m, es).contains_key(k) && insert_entries(m, es)[k] == entry_code(es[i]),
        i >= 0 && entry_code_ok(es[i]) ==> key_code_value(es[i].code@) == Ok::<u32, KeyCodeError>(
            insert_entries(m, es)[k],
        ),
        i < 0 ==> insert_entries(m, es).contains_key(k) == m.contains_key(k),
        i < 0 && m.contains_key(k) ==> insert_entries(m, es)[k] == m[k],
    decreases es.len(),
{
    if es.len() > 0 && i < es.len() - 1 {
        let init = es.drop_last();
        assert forall|j: int| i < j < init.len() implies (#[trigger] init[j]).key@ != k by {
            assert(init[j] == es[j]);
        }
        last_key_entry_wins(m, init, k, i);
        if i >= 0 {
            assert(init[i] == es[i]);
        }
        assert(es.last() == es[es.len() - 1]);
    }
}

} // verus!
