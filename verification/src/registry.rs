//! The Windows per-executable "run as administrator" compatibility flag.

use vstd::prelude::*;
use crate::text::{chars_of, contains, contains_exec};

verus! {

/// ASCII upper-casing of a character.
pub open spec fn upper(c: char) -> char {
    if 'a' <= c && c <= 'z' {
        ((c as u32) - 32) as char
    } else {
        c
    }
}

/// `str::to_ascii_uppercase`.
pub open spec fn to_upper(s: Seq<char>) -> Seq<char> {
    Seq::new(s.len(), |i: int| upper(s[i]))
}

fn to_upper_exec(s: &[char]) -> (r: Vec<char>)
    ensures
        r@ == to_upper(s@),
{
    let mut out: Vec<char> = Vec::new();
    let mut i: usize = 0;
    while i < s.len()
        invariant
            i <= s.len(),
            out@ =~= to_upper(s@).take(i as int),
        decreases s.len() - i,
    {
        let c = s[i];
        let u = if 'a' <= c && c <= 'z' {
            ((c as u32) - 32) as u8 as char
        } else {
            c
        };
        assert(u == upper(c)) by {
            if 'a' <= c && c <= 'z' {
                assert((c as u32) - 32 < 128);
            }
        };
        out.push(u);
        i += 1;
    }
    out
}

/// A compatibility-layers value marks the executable as run-as-administrator.
pub open spec fn marks_admin(value: Option<Seq<char>>) -> bool {
    value matches Some(v) && contains(to_upper(v), "RUNASADMIN"@)
}

/// Whether the `AppCompatFlags\Layers` registry value for `exe_path` carries
/// the `RUNASADMIN` token, per user (`user_value`) or machine-wide
/// (`machine_value`); the values are those read for `exe_path`, `None` where
/// the key or value could not be read. An empty path is never flagged, and
/// off Windows (`host_is_windows` false) nothing is: elevation is
/// Windows-only.
pub fn run_as_admin_in_registry(
    host_is_windows: bool,
    exe_path: &str,
    user_value: Option<&str>,
    machine_value: Option<&str>,
) -> (r: bool)
    ensures
        r == (host_is_windows && exe_path@.len() > 0 && (marks_admin(match user_value {
            Some(v) => Some(v@),
            None => None,
        }) || marks_admin(match machine_value {
            Some(v) => Some(v@),
            None => None,
        }))),
{
    if !host_is_windows || exe_path.is_empty() {
        return false;
    }
    let token = chars_of("RUNASADMIN");
    let user = match user_value {
        Some(v) => contains_exec(&to_upper_exec(&chars_of(v)), &token),
        None => false,
    };
    let machine = match machine_value {
        Some(v) => contains_exec(&to_upper_exec(&chars_of(v)), &token),
        None => false,
    };
    user || machine
}

} // verus!
