//! Reading whether Steam has a game running, from Steam's Linux
//! `registry.vdf`.

use vstd::prelude::*;
use crate::text::{chars_of, find, find_exec, parse_u64, parse_u64_exec, slice_vec, trim, trim_exec};

verus! {

/// What the caller should do about Steam once it has written a shortcut.
#[derive(Debug, Clone, Copy, PartialEq, Eq, Structural)]
pub enum SteamRestart {
    /// Steam was not running, or the restart was skipped.
    NotRunning,
    /// Steam was running and has exited; relaunch it after writing.
    ShutDown,
    /// Steam was running but did not exit in time.
    ShutdownFailed,
}

/// The `RunningAppID` value of a `registry.vdf` text: the quoted token after
/// the first `"RunningAppID"` key, trimmed and parsed as `u64`; `None` when the
/// key, the token's quotes, or a number is missing.
pub open spec fn spec_running_app_id(text: Seq<char>) -> Option<u64> {
    let key = "\"RunningAppID\""@;
    match find(text, key) {
        None => None,
        Some(k) => {
            let after = text.subrange(k + key.len(), text.len() as int);
            match find(after, seq!['"']) {
                None => None,
                Some(q) => {
                    let rest = after.subrange(q + 1, after.len() as int);
                    match find(rest, seq!['"']) {
                        None => None,
                        Some(e) => parse_u64(trim(rest.subrange(0, e))),
                    }
                },
            }
        },
    }
}

/// Pulls the `RunningAppID` out of Steam's `registry.vdf`.
pub fn parse_running_app_id(text: &str) -> (r: Option<u64>)
    ensures
        r == spec_running_app_id(text@),
{
    let t = chars_of(text);
    let key = chars_of("\"RunningAppID\"");
    let mut quote: Vec<char> = Vec::new();
    quote.push('"');
    assert(quote@ =~= seq!['"']);
    let k = match find_exec(&t, &key) {
        Some(k) => k,
        None => return None,
    };
    proof {
        crate::text::lemma_find_from(t@, key@, 0);
        assert(find(t@, key@) == Some(k as int));
        assert(k + key@.len() <= t@.len());
    }
    let klen = key.len();
    let tlen = t.len();
    let after = slice_vec(&t, k + klen, tlen);
    let q = match find_exec(&after, &quote) {
        Some(q) => q,
        None => return None,
    };
    proof {
        crate::text::lemma_find_from(after@, quote@, 0);
    }
    let rest = slice_vec(&after, q + 1, after.len());
    let e = match find_exec(&rest, &quote) {
        Some(e) => e,
        None => return None,
    };
    proof {
        crate::text::lemma_find_from(rest@, quote@, 0);
    }
    let token = slice_vec(&rest, 0, e);
    parse_u64_exec(&trim_exec(&token))
}

} // verus!
