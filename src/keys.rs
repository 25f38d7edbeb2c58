use vstd::prelude::*;

verus! {

/// The code of a character with ASCII letters lowered.
pub open spec fn lower_code(c: char) -> u32 {
    if 'A' <= c <= 'Z' {
        ((c as u32) + 32) as u32
    } else {
        c as u32
    }
}

/// The character codes of a string with ASCII letters lowered.
pub open spec fn spec_lower(s: Seq<char>) -> Seq<u32> {
    s.map_values(|c: char| lower_code(c))
}

pub open spec fn codes(s: Seq<char>) -> Seq<u32> {
    s.map_values(|c: char| c as u32)
}

/// The code of a key name, letters case-insensitive: letters 0 to 25,
/// digits 26 to 35, space 36, enter 37, then the arrows up, down, left,
/// right.
pub open spec fn spec_key(s: Seq<char>) -> Option<i32> {
    let l = spec_lower(s);
    if l.len() == 1 && 97 <= l[0] <= 122 {
        Some((l[0] - 97) as i32)
    } else if l.len() == 1 && 48 <= l[0] <= 57 {
        Some((l[0] - 48 + 26) as i32)
    } else if l == codes(" "@) || l == codes("space"@) {
        Some(36)
    } else if l == codes("enter"@) {
        Some(37)
    } else if l == codes("arrowup"@) {
        Some(38)
    } else if l == codes("arrowdown"@) {
        Some(39)
    } else if l == codes("arrowleft"@) {
        Some(40)
    } else if l == codes("arrowright"@) {
        Some(41)
    } else {
        None
    }
}

fn lower_char_code(c: char) -> (r: u32)
    ensures
        r == lower_code(c),
{
    if 'A' <= c && c <= 'Z' {
        (c as u32) + 32
    } else {
        c as u32
    }
}

/// Whether `s`, with ASCII letters lowered, is `lit`.
fn lower_is(s: &str, lit: &str) -> (r: bool)
    ensures
        r == (spec_lower(s@) == codes(lit@)),
{
    let n = s.unicode_len();
    let m = lit.unicode_len();
    if n != m {
        proof {
            assert(spec_lower(s@).len() != codes(lit@).len());
        }
        return false;
    }
    let mut i: usize = 0;
    while i < n
        invariant
            i <= n == s@.len(),
            m == lit@.len(),
            n == m,
            forall|j: int| 0 <= j < i ==> lower_code(#[trigger] s@[j]) == (lit@[j] as u32),
        decreases n - i,
    {
        if lower_char_code(s.get_char(i)) != (lit.get_char(i) as u32) {
            proof {
                assert(spec_lower(s@)[i as int] != codes(lit@)[i as int]);
            }
            return false;
        }
        i += 1;
    }
    proof {
        assert(spec_lower(s@) =~= codes(lit@));
    }
    true
}

/// The code of a key name, if it names a known key.
pub fn key_to_number(press: &str) -> (r: Option<i32>)
    ensures
        r == spec_key(press@),
{
    let n = press.unicode_len();
    if n == 1 {
        let c = lower_char_code(press.get_char(0));
        proof {
            assert(spec_lower(press@)[0] == c);
        }
        if 97 <= c && c <= 122 {
            return Some((c - 97) as i32);
        }
        if 48 <= c && c <= 57 {
            return Some((c - 48 + 26) as i32);
        }
    }
    if lower_is(press, " ") || lower_is(press, "space") {
        Some(36)
    } else if lower_is(press, "enter") {
        Some(37)
    } else if lower_is(press, "arrowup") {
        Some(38)
    } else if lower_is(press, "arrowdown") {
        Some(39)
    } else if lower_is(press, "arrowleft") {
        Some(40)
    } else if lower_is(press, "arrowright") {
        Some(41)
    } else {
        None
    }
}

} // verus!
