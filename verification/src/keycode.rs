use vstd::prelude::*;
use vstd::string::*;

verus! {

/// Why a virtual-key code written in hexadecimal could not be read.
/// The kinds follow those of an unsigned radix-16 integer parse.
#[derive(Debug, Clone, Copy, PartialEq, Eq, Structural)]
pub enum KeyCodeError {
    /// Nothing is left once the `0x` prefixes are removed.
    Empty,
    /// A character is not a hexadecimal digit (or a lone `+` sign).
    InvalidDigit,
    /// The value does not fit in 32 bits.
    Overflow,
}

pub open spec fn is_hex_digit(c: char) -> bool {
    let x = c as u32;
    (48 <= x <= 57) || (97 <= x <= 102) || (65 <= x <= 70)
}

pub open spec fn hex_digit_value(c: char) -> nat {
    let x = c as u32;
    if 48 <= x <= 57 {
        (x - 48) as nat
    } else if 97 <= x <= 102 {
        (x - 87) as nat
    } else {
        (x - 55) as nat
    }
}

/// Removes every leading `"0x"` (repeatedly, like `trim_start_matches("0x")`).
pub open spec fn trim_hex_prefix(s: Seq<char>) -> Seq<char>
    decreases s.len(),
{
    if s.len() >= 2 && s[0] == '0' && s[1] == 'x' {
        trim_hex_prefix(s.subrange(2, s.len() as int))
    } else {
        s
    }
}

/// Reads hexadecimal digits left to right onto `acc`; the first invalid
/// digit or the first step beyond `u32::MAX` decides the error.
pub open spec fn scan_hex(d: Seq<char>, acc: u32) -> Result<u32, KeyCodeError>
    decreases d.len(),
{
    if d.len() == 0 {
        Ok(acc)
    } else if !is_hex_digit(d[0]) {
        Err(KeyCodeError::InvalidDigit)
    } else {
        let next = acc * 16 + hex_digit_value(d[0]);
        if next > u32::MAX {
            Err(KeyCodeError::Overflow)
        } else {
            scan_hex(d.subrange(1, d.len() as int), next as u32)
        }
    }
}

/// An unsigned 32-bit radix-16 parse: an optional leading `+`, then at least
/// one hexadecimal digit.
pub open spec fn parse_radix16(s: Seq<char>) -> Result<u32, KeyCodeError> {
    if s.len() == 0 {
        Err(KeyCodeError::Empty)
    } else if s[0] == '+' {
        if s.len() == 1 {
            Err(KeyCodeError::InvalidDigit)
        } else {
            scan_hex(s.subrange(1, s.len() as int), 0)
        }
    } else {
        scan_hex(s, 0)
    }
}

/// The value of a key code as written in the key table: `0x` prefixes are
/// stripped, the rest is read as hexadecimal.
pub open spec fn key_code_value(code: Seq<char>) -> Result<u32, KeyCodeError> {
    parse_radix16(trim_hex_prefix(code))
}

fn hex_digit(c: char) -> (r: Option<u32>)
    ensures
        r == (if is_hex_digit(c) { Some(hex_digit_value(c) as u32) } else { None::<u32> }),
{
    let x = c as u32;
    if 48 <= x && x <= 57 {
        Some(x - 48)
    } else if 97 <= x && x <= 102 {
        Some(x - 87)
    } else if 65 <= x && x <= 70 {
        Some(x - 55)
    } else {
        None
    }
}

proof fn lemma_trim_step(s: Seq<char>, j: int)
    requires
        0 <= j,
        j + 2 <= s.len(),
        s[j] == '0',
        s[j + 1] == 'x',
    ensures
        trim_hex_prefix(s.subrange(j, s.len() as int)) == trim_hex_prefix(
            s.subrange(j + 2, s.len() as int),
        ),
{
    let t = s.subrange(j, s.len() as int);
    assert(t.subrange(2, t.len() as int) =~= s.subrange(j + 2, s.len() as int));
}

/// Reads a key code as the key table writes it: every leading `0x` is removed
/// and what remains is parsed as an unsigned 32-bit hexadecimal number.
pub fn parse_key_code(code: &str) -> (r: Result<u32, KeyCodeError>)
    ensures
        r == key_code_value(code@),
{
    let n = code.unicode_len();
    let ghost s = code@;
    let mut j: usize = 0;
    assert(s.subrange(0, s.len() as int) =~= s);
    while n - j >= 2 && code.get_char(j) == '0' && code.get_char(j + 1) == 'x'
        invariant
            n == s.len(),
            s == code@,
            j <= n,
            trim_hex_prefix(s) == trim_hex_prefix(s.subrange(j as int, n as int)),
        decreases n - j,
    {
        proof {
            lemma_trim_step(s, j as int);
        }
        j = j + 2;
    }
    let ghost rest = s.subrange(j as int, n as int);
    assert(trim_hex_prefix(rest) == rest);
    if j == n {
        return Err(KeyCodeError::Empty);
    }
    let mut i: usize = j;
    if code.get_char(j) == '+' {
        if j + 1 == n {
            return Err(KeyCodeError::InvalidDigit);
        }
        i = j + 1;
    }
    let ghost start = i;
    assert(parse_radix16(rest) == scan_hex(s.subrange(start as int, n as int), 0)) by {
        if s[j as int] == '+' {
            assert(rest.subrange(1, rest.len() as int) =~= s.subrange(start as int, n as int));
        } else {
            assert(rest =~= s.subrange(start as int, n as int));
        }
    }
    let mut acc: u32 = 0;
    while i < n
        invariant
            n == s.len(),
            s == code@,
            start <= i <= n,
            key_code_value(s) == scan_hex(s.subrange(start as int, n as int), 0),
            scan_hex(s.subrange(start as int, n as int), 0) == scan_hex(
                s.subrange(i as int, n as int),
                acc,
            ),
        decreases n - i,
    {
        let ghost d = s.subrange(i as int, n as int);
        assert(d.subrange(1, d.len() as int) =~= s.subrange(i + 1, n as int));
        assert(d.len() > 0 && d[0] == s[i as int]);
        let c = code.get_char(i);
        match hex_digit(c) {
            None => {
                return Err(KeyCodeError::InvalidDigit);
            },
            Some(v) => {
                let next: u64 = acc as u64 * 16 + v as u64;
                if next > 0xffff_ffffu64 {
                    return Err(KeyCodeError::Overflow);
                }
                acc = next as u32;
            },
        }
        i = i + 1;
    }
    assert(s.subrange(n as int, n as int).len() == 0);
    Ok(acc)
}

} // verus!

verus! {

/// A leading `0x` does not change the code a key table entry denotes.
pub proof fn hex_prefix_is_ignored(s: Seq<char>)
    ensures
        key_code_value(seq!['0', 'x'] + s) == key_code_value(s),
{
    let t = seq!['0', 'x'] + s;
    assert(t.subrange(2, t.len() as int) =~= s);
}

} // verus!

verus! {

/// A single character reads as its hexadecimal digit value: `0`-`9` (code
/// points 48-57) as 0-9, `a`-`f` (97-102) and `A`-`F` (65-70) as 10-15; any
/// other character but `+` is an invalid digit.
pub proof fn single_character_codes(c: char)
    ensures
        48 <= c as u32 <= 57 ==> key_code_value(seq![c]) == Ok::<u32, KeyCodeError>((c as u32 - 48) as u32),
        97 <= c as u32 <= 102 ==> key_code_value(seq![c]) == Ok::<u32, KeyCodeError>((c as u32 - 87) as u32),
        65 <= c as u32 <= 70 ==> key_code_value(seq![c]) == Ok::<u32, KeyCodeError>((c as u32 - 55) as u32),
        !(48 <= c as u32 <= 57) && !(97 <= c as u32 <= 102) && !(65 <= c as u32 <= 70) && c != '+'
            ==> key_code_value(seq![c]) == Err::<u32, KeyCodeError>(KeyCodeError::InvalidDigit),
{
    let s = seq![c];
    assert(trim_hex_prefix(s) == s);
    assert(s.subrange(1, 1).len() == 0);
    reveal_with_fuel(scan_hex, 2);
}

proof fn lemma_trim_push(s: Seq<char>, c: char)
    requires
        c != 'x',
    ensures
        trim_hex_prefix(s.push(c)) == trim_hex_prefix(s).push(c),
    decreases s.len(),
{
    let t = s.push(c);
    if s.len() >= 2 && s[0] == '0' && s[1] == 'x' {
        assert(t.subrange(2, t.len() as int) =~= s.subrange(2, s.len() as int).push(c));
        lemma_trim_push(s.subrange(2, s.len() as int), c);
    } else {
        assert(!(t.len() >= 2 && t[0] == '0' && t[1] == 'x'));
    }
}

proof fn lemma_scan_push(d: Seq<char>, acc: u32, c: char)
    ensures
        scan_hex(d.push(c), acc) == (match scan_hex(d, acc) {
            Ok(v) => scan_hex(seq![c], v),
            Err(e) => Err(e),
        }),
    decreases d.len(),
{
    let t = d.push(c);
    if d.len() == 0 {
        assert(t =~= seq![c]);
    } else {
        assert(t[0] == d[0]);
        assert(t.subrange(1, t.len() as int) =~= d.subrange(1, d.len() as int).push(c));
        if is_hex_digit(d[0]) {
            let next = acc * 16 + hex_digit_value(d[0]);
            if next <= u32::MAX {
                lemma_scan_push(d.subrange(1, d.len() as int), next as u32, c);
            }
        }
    }
}

/// Appending a digit to a code that reads as `v` gives `16 * v` plus the
/// digit's value, or an overflow when that exceeds `u32::MAX`. With
/// `single_character_codes` this fixes the value of every digit string.
pub proof fn appending_a_digit(s: Seq<char>, c: char, v: u32, d: u32)
    requires
        key_code_value(s) == Ok::<u32, KeyCodeError>(v),
        key_code_value(seq![c]) == Ok::<u32, KeyCodeError>(d),
    ensures
        v * 16 + d <= u32::MAX ==> key_code_value(s.push(c)) == Ok::<u32, KeyCodeError>((v * 16 + d) as u32),
        v * 16 + d > u32::MAX ==> key_code_value(s.push(c)) == Err::<u32, KeyCodeError>(KeyCodeError::Overflow),
{
    let one = seq![c];
    assert(trim_hex_prefix(one) == one);
    assert(one.subrange(1, 1).len() == 0);
    reveal_with_fuel(scan_hex, 2);
    assert(is_hex_digit(c) && d == hex_digit_value(c));
    lemma_trim_push(s, c);
    let t = trim_hex_prefix(s);
    let tp = t.push(c);
    if t[0] == '+' {
        assert(tp.subrange(1, tp.len() as int) =~= t.subrange(1, t.len() as int).push(c));
        lemma_scan_push(t.subrange(1, t.len() as int), 0, c);
    } else {
        lemma_scan_push(t, 0, c);
    }
}

} // verus!

verus! {

/// Nothing, or only `0x` prefixes, reads as empty; a lone `+` is an invalid
/// digit; and a `+` in front of digits (that do not start with a sign or a
/// `0x` prefix) does not change their reading.
pub proof fn empty_and_sign_codes(d: Seq<char>)
    ensures
        key_code_value(Seq::<char>::empty()) == Err::<u32, KeyCodeError>(KeyCodeError::Empty),
        key_code_value(seq!['0', 'x']) == Err::<u32, KeyCodeError>(KeyCodeError::Empty),
        key_code_value(seq!['+']) == Err::<u32, KeyCodeError>(KeyCodeError::InvalidDigit),
        d.len() > 0 && d[0] != '+' && !(d.len() >= 2 && d[0] == '0' && d[1] == 'x') ==> key_code_value(
            seq!['+'] + d,
        ) == key_code_value(d),
{
    let e = Seq::<char>::empty();
    assert(trim_hex_prefix(e) == e);
    let z = seq!['0', 'x'];
    assert(z.subrange(2, 2) =~= e);
    assert(trim_hex_prefix(seq!['+']) == seq!['+']);
    let p = seq!['+'] + d;
    assert(p[0] == '+');
    assert(trim_hex_prefix(p) == p);
    assert(p.subrange(1, p.len() as int) =~= d);
}

} // verus!
