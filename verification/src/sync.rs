//! The self-hosted sync server's client-side rules: endpoint URLs, when the
//! server counts as configured, how its health and lock answers are read, the
//! badge of a latest-backup answer, and the startup merge of cross-device
//! state. The HTTP exchanges are made by the application.

use vstd::prelude::*;
use crate::error::AppError;
pub use crate::rclone::{SyncReachability, SyncStatus, SyncStatusState};
use crate::text::{chars_of, concat3, eq_exec, string_of, trim, trim_end_char, trim_end_char_exec, trim_exec, trim_start_char, trim_start_char_exec};

verus! {

/// `POST /auth/register`'s answer.
pub struct RegisterResponse {
    pub api_key: String,
}

/// The answer to a lock request.
pub enum AcquireOutcome {
    /// The lock was taken, sync is disabled, or the server could not be
    /// reached: the launch proceeds.
    Acquired,
    /// Another device holds the lock.
    Conflict { device_name: String },
}

/// `GET /events/:game/latest-backup`'s answer.
pub struct LatestBackupResponse {
    pub found: bool,
    pub device_id: Option<String>,
    pub device_name: Option<String>,
    pub occurred_at: Option<String>,
}

/// One game's last play on any device.
pub struct LastPlayedRecord {
    pub game_name: String,
    pub last_played_at: String,
}

/// One game's total playtime across devices.
pub struct PlaytimeRecord {
    pub game_name: String,
    pub total_minutes: i64,
}

/// `<base without trailing '/'>/<path without leading '/'>`.
pub open spec fn spec_join_url(base: Seq<char>, path: Seq<char>) -> Seq<char> {
    trim_end_char(base, '/') + "/"@ + trim_start_char(path, '/')
}

/// Compose an endpoint URL from the configured base URL and a path; slashes
/// at the seam are normalised so the base may be given with or without one.
pub fn join_url(base: &str, path: &str) -> (r: String)
    ensures
        r@ == spec_join_url(base@, path@),
{
    let b = trim_end_char_exec(&chars_of(base), '/');
    let p = trim_start_char_exec(&chars_of(path), '/');
    string_of(&concat3(&b, &chars_of("/"), &p))
}

/// The server URL and API key to use, trimmed: unconfigured when sync is
/// switched off or either setting is blank.
pub fn sync_config(enabled: bool, url: &str, api_key: &str) -> (r: Result<(String, String), SyncReachability>)
    ensures
        (!enabled || trim(url@).len() == 0 || trim(api_key@).len() == 0) ==> r == Err::<
            (String, String),
            SyncReachability,
        >(SyncReachability::Unconfigured),
        (enabled && trim(url@).len() > 0 && trim(api_key@).len() > 0) ==> (r matches Ok(p) && p.0@
            == trim(url@) && p.1@ == trim(api_key@)),
{
    if !enabled {
        return Err(SyncReachability::Unconfigured);
    }
    let u = trim_exec(&chars_of(url));
    let k = trim_exec(&chars_of(api_key));
    if u.len() == 0 || k.len() == 0 {
        return Err(SyncReachability::Unconfigured);
    }
    Ok((string_of(&u), string_of(&k)))
}

/// How a lock request's answer is read: only an explicit 409 is a conflict,
/// naming the holder from the body (or "another device"); success, a network
/// failure (`None`) and any other status proceed.
pub fn acquire_outcome(status: Option<u16>, holder: Option<String>) -> (r: AcquireOutcome)
    ensures
        status == Some(409u16) ==> (r matches AcquireOutcome::Conflict { device_name } && device_name@
            == match holder {
            Some(h) => h@,
            None => "another device"@,
        }),
        status != Some(409u16) ==> r is Acquired,
{
    match status {
        Some(409) => AcquireOutcome::Conflict {
            device_name: match holder {
                Some(h) => h,
                None => string_of(&chars_of("another device")),
            },
        },
        _ => AcquireOutcome::Acquired,
    }
}

/// The badge of a latest-backup answer: `synced` when this device made it,
/// `cloud-newer` when another device did or the server names none.
pub fn compute_badge(our_device_id: &str, info: &LatestBackupResponse) -> (r: &'static str)
    ensures
        r@ == match info.device_id {
            Some(id) => if id@ == our_device_id@ {
                "synced"@
            } else {
                "cloud-newer"@
            },
            None => "cloud-newer"@,
        },
{
    match &info.device_id {
        Some(id) => if eq_exec(&chars_of(id.as_str()), &chars_of(our_device_id)) {
            "synced"
        } else {
            "cloud-newer"
        },
        None => "cloud-newer",
    }
}

} // verus!

verus! {

/// What the startup sync reads and updates of a library entry.
pub struct SyncedEntry {
    pub game_name: String,
    /// Unix seconds and nanoseconds of the last play.
    pub last_played_at: Option<(i64, u32)>,
    pub playtime_minutes: i32,
    pub sync_badge: Option<String>,
}

/// The view of a [`SyncedEntry`].
pub struct EntryView {
    pub name: Seq<char>,
    pub last_played: Option<(i64, u32)>,
    pub playtime: i32,
    pub badge: Option<Seq<char>>,
}

pub open spec fn entry_view(e: SyncedEntry) -> EntryView {
    EntryView {
        name: e.game_name@,
        last_played: e.last_played_at,
        playtime: e.playtime_minutes,
        badge: crate::rclone::opt_view(e.sync_badge),
    }
}

pub open spec fn entries_view(es: Seq<SyncedEntry>) -> Seq<EntryView> {
    es.map_values(|e: SyncedEntry| entry_view(e))
}

/// The index of the first entry named `name`.
pub open spec fn first_named(es: Seq<EntryView>, name: Seq<char>) -> Option<int>
    decreases es.len(),
{
    if es.len() == 0 {
        None
    } else if es[0].name == name {
        Some(0)
    } else {
        match first_named(es.drop_first(), name) {
            Some(i) => Some(i + 1),
            None => None,
        }
    }
}

/// A server last-played instant is adopted when it parses and is later than
/// the local one (or there is none).
pub open spec fn lp_update(e: EntryView, r: LastPlayedRecord) -> Option<EntryView> {
    match crate::time::spec_rfc3339(r.last_played_at@) {
        Some(t) => if e.last_played is None || crate::time::later(t, e.last_played->0) {
            Some(EntryView { last_played: Some(t), ..e })
        } else {
            None
        },
        None => None,
    }
}

/// A server playtime total (cut to 32 bits, as stored) is adopted when it is
/// larger than the local one.
pub open spec fn pt_update(e: EntryView, r: PlaytimeRecord) -> Option<EntryView> {
    if (r.total_minutes as i32) > e.playtime {
        Some(EntryView { playtime: r.total_minutes as i32, ..e })
    } else {
        None
    }
}

/// The badge of a latest-backup answer (see [`compute_badge`]).
pub open spec fn spec_sync_badge(our: Seq<char>, info: LatestBackupResponse) -> Seq<char> {
    match info.device_id {
        Some(id) => if id@ == our {
            "synced"@
        } else {
            "cloud-newer"@
        },
        None => "cloud-newer"@,
    }
}

/// A latest-backup answer sets the badge when it differs.
pub open spec fn badge_update(e: EntryView, our: Seq<char>, info: LatestBackupResponse) -> Option<EntryView> {
    if e.badge != Some(spec_sync_badge(our, info)) {
        Some(EntryView { badge: Some(spec_sync_badge(our, info)), ..e })
    } else {
        None
    }
}

/// One update applied to the first entry named `name`: the entries after it,
/// and whether anything changed.
pub open spec fn apply_at(es: Seq<EntryView>, name: Seq<char>, upd: spec_fn(EntryView) -> Option<EntryView>) -> (Seq<EntryView>, bool) {
    match first_named(es, name) {
        Some(i) => match upd(es[i]) {
            Some(n) => (es.update(i, n), true),
            None => (es, false),
        },
        None => (es, false),
    }
}

/// The last-played records folded in order: the entries and the number of
/// changes.
pub open spec fn fold_lp(es: Seq<EntryView>, rs: Seq<LastPlayedRecord>) -> (Seq<EntryView>, nat)
    decreases rs.len(),
{
    if rs.len() == 0 {
        (es, 0)
    } else {
        let prev = fold_lp(es, rs.drop_last());
        let r = rs.last();
        let step = apply_at(prev.0, r.game_name@, |e: EntryView| lp_update(e, r));
        (step.0, prev.1 + if step.1 { 1nat } else { 0nat })
    }
}

/// The playtime records folded in order.
pub open spec fn fold_pt(es: Seq<EntryView>, rs: Seq<PlaytimeRecord>) -> (Seq<EntryView>, nat)
    decreases rs.len(),
{
    if rs.len() == 0 {
        (es, 0)
    } else {
        let prev = fold_pt(es, rs.drop_last());
        let r = rs.last();
        let step = apply_at(prev.0, r.game_name@, |e: EntryView| pt_update(e, r));
        (step.0, prev.1 + if step.1 { 1nat } else { 0nat })
    }
}

/// The latest-backup answers folded in order.
pub open spec fn fold_badges(es: Seq<EntryView>, our: Seq<char>, rs: Seq<(String, LatestBackupResponse)>) -> (Seq<EntryView>, nat)
    decreases rs.len(),
{
    if rs.len() == 0 {
        (es, 0)
    } else {
        let prev = fold_badges(es, our, rs.drop_last());
        let r = rs.last();
        let step = apply_at(prev.0, r.0@, |e: EntryView| badge_update(e, our, r.1));
        (step.0, prev.1 + if step.1 { 1nat } else { 0nat })
    }
}

} // verus!

verus! {

/// Entries with the same names, index by index.
pub open spec fn same_names(a: Seq<EntryView>, b: Seq<EntryView>) -> bool {
    a.len() == b.len() && forall|i: int| 0 <= i < a.len() ==> (#[trigger] a[i]).name == b[i].name
}

proof fn lemma_first_named_range(es: Seq<EntryView>, name: Seq<char>)
    ensures
        first_named(es, name) matches Some(i) ==> 0 <= i < es.len() && es[i].name == name,
    decreases es.len(),
{
    if es.len() > 0 {
        lemma_first_named_range(es.drop_first(), name);
    }
}

proof fn lemma_first_named_same_names(a: Seq<EntryView>, b: Seq<EntryView>, name: Seq<char>)
    requires
        same_names(a, b),
    ensures
        first_named(a, name) == first_named(b, name),
    decreases a.len(),
{
    if a.len() > 0 {
        assert(a[0].name == b[0].name);
        assert(same_names(a.drop_first(), b.drop_first())) by {
            assert forall|i: int| 0 <= i < a.drop_first().len() implies (#[trigger] a.drop_first()[i]).name
                == b.drop_first()[i].name by {
                assert(a.drop_first()[i] == a[i + 1]);
                assert(b.drop_first()[i] == b[i + 1]);
            }
        }
        lemma_first_named_same_names(a.drop_first(), b.drop_first(), name);
    }
}

/// Folding the last-played records keeps the names, never moves an entry's
/// last play back, and leaves the first entry of each record's game not
/// earlier than that record's parseable instant.
proof fn lemma_fold_lp_max(es: Seq<EntryView>, rs: Seq<LastPlayedRecord>)
    ensures
        same_names(fold_lp(es, rs).0, es),
        forall|i: int| 0 <= i < es.len() && (#[trigger] es[i]).last_played is Some ==> (fold_lp(es, rs).0[i].last_played
            matches Some(x) && !crate::time::later(es[i].last_played->0, x)),
        forall|k: int| 0 <= k < rs.len() && first_named(es, (#[trigger] rs[k]).game_name@) is Some
            && crate::time::spec_rfc3339(rs[k].last_played_at@) is Some ==> (fold_lp(es, rs).0[first_named(
            es,
            rs[k].game_name@,
        )->0].last_played matches Some(x) && !crate::time::later(
            crate::time::spec_rfc3339(rs[k].last_played_at@)->0,
            x,
        )),
    decreases rs.len(),
{
    if rs.len() > 0 {
        let d = rs.drop_last();
        lemma_fold_lp_max(es, d);
        let prev = fold_lp(es, d).0;
        let r = rs.last();
        let cur = fold_lp(es, rs).0;
        lemma_first_named_same_names(prev, es, r.game_name@);
        lemma_first_named_range(prev, r.game_name@);
        assert(same_names(cur, es));
        assert forall|i: int| 0 <= i < es.len() && (#[trigger] es[i]).last_played is Some implies (cur[i].last_played
            matches Some(x) && !crate::time::later(es[i].last_played->0, x)) by {
            assert(prev[i].last_played is Some);
        }
        assert forall|k: int| 0 <= k < rs.len() && first_named(es, (#[trigger] rs[k]).game_name@) is Some
            && crate::time::spec_rfc3339(rs[k].last_played_at@) is Some implies (cur[first_named(
            es,
            rs[k].game_name@,
        )->0].last_played matches Some(x) && !crate::time::later(
            crate::time::spec_rfc3339(rs[k].last_played_at@)->0,
            x,
        )) by {
            let i = first_named(es, rs[k].game_name@)->0;
            lemma_first_named_range(es, rs[k].game_name@);
            if k < rs.len() - 1 {
                assert(rs[k] == d[k]);
                assert(prev[i].last_played is Some);
            }
        }
    }
}

/// Folding the playtime records keeps every entry's name and last play.
proof fn lemma_fold_pt_keeps(es: Seq<EntryView>, rs: Seq<PlaytimeRecord>)
    ensures
        same_names(fold_pt(es, rs).0, es),
        forall|i: int| 0 <= i < es.len() ==> (#[trigger] fold_pt(es, rs).0[i]).last_played == es[i].last_played,
    decreases rs.len(),
{
    if rs.len() > 0 {
        let d = rs.drop_last();
        lemma_fold_pt_keeps(es, d);
        lemma_first_named_range(fold_pt(es, d).0, rs.last().game_name@);
        assert forall|i: int| 0 <= i < es.len() implies (#[trigger] fold_pt(es, rs).0[i]).last_played == es[i].last_played by {
            assert(fold_pt(es, d).0[i].last_played == es[i].last_played);
        }
    }
}

/// Folding the latest-backup answers keeps every entry's name and last play.
proof fn lemma_fold_badges_keeps(es: Seq<EntryView>, our: Seq<char>, rs: Seq<(String, LatestBackupResponse)>)
    ensures
        same_names(fold_badges(es, our, rs).0, es),
        forall|i: int| 0 <= i < es.len() ==> (#[trigger] fold_badges(es, our, rs).0[i]).last_played == es[i].last_played,
    decreases rs.len(),
{
    if rs.len() > 0 {
        let d = rs.drop_last();
        lemma_fold_badges_keeps(es, our, d);
        lemma_first_named_range(fold_badges(es, our, d).0, rs.last().0@);
        assert forall|i: int| 0 <= i < es.len() implies (#[trigger] fold_badges(es, our, rs).0[i]).last_played
            == es[i].last_played by {
            assert(fold_badges(es, our, d).0[i].last_played == es[i].last_played);
        }
    }
}

/// The startup sync takes the later of the local and the server last play:
/// after it, every entry keeps its names and its place, an entry that had a
/// last play has one not earlier than before, and the entry of a game (the
/// first of that name) has a last play not earlier than any parseable server
/// last-played record for that game.
pub proof fn law_startup_last_played_is_max(
    es: Seq<EntryView>,
    last_played: Seq<LastPlayedRecord>,
    playtime: Seq<PlaytimeRecord>,
    our: Seq<char>,
    latest_backups: Seq<(String, LatestBackupResponse)>,
)
    ensures
        ({
            let fin = fold_badges(fold_pt(fold_lp(es, last_played).0, playtime).0, our, latest_backups).0;
            &&& same_names(fin, es)
            &&& forall|i: int| 0 <= i < es.len() && (#[trigger] es[i]).last_played is Some ==> (fin[i].last_played
                matches Some(x) && !crate::time::later(es[i].last_played->0, x))
            &&& forall|k: int| 0 <= k < last_played.len() && first_named(es, (#[trigger] last_played[k]).game_name@) is Some
                && crate::time::spec_rfc3339(last_played[k].last_played_at@) is Some ==> (fin[first_named(
                es,
                last_played[k].game_name@,
            )->0].last_played matches Some(x) && !crate::time::later(
                crate::time::spec_rfc3339(last_played[k].last_played_at@)->0,
                x,
            ))
        }),
{
    let a = fold_lp(es, last_played).0;
    let b = fold_pt(a, playtime).0;
    let fin = fold_badges(b, our, latest_backups).0;
    lemma_fold_lp_max(es, last_played);
    lemma_fold_pt_keeps(a, playtime);
    lemma_fold_badges_keeps(b, our, latest_backups);
    assert forall|i: int| 0 <= i < es.len() implies (#[trigger] fin[i]).last_played == a[i].last_played && fin[i].name
        == es[i].name by {
        assert(fin[i].last_played == b[i].last_played);
        assert(b[i].last_played == a[i].last_played);
        assert(b[i].name == a[i].name);
    }
    assert forall|k: int| 0 <= k < last_played.len() && first_named(es, (#[trigger] last_played[k]).game_name@) is Some
        && crate::time::spec_rfc3339(last_played[k].last_played_at@) is Some implies (fin[first_named(
        es,
        last_played[k].game_name@,
    )->0].last_played matches Some(x) && !crate::time::later(
        crate::time::spec_rfc3339(last_played[k].last_played_at@)->0,
        x,
    )) by {
        lemma_first_named_range(es, last_played[k].game_name@);
        let i = first_named(es, last_played[k].game_name@)->0;
        assert(fin[i].last_played == a[i].last_played);
    }
}

/// `x` is the parseable instant of a server last-played record for the
/// game whose first entry is at `i`.
pub open spec fn from_record(es: Seq<EntryView>, rs: Seq<LastPlayedRecord>, i: int, x: (i64, u32)) -> bool {
    exists|k: int| 0 <= k < rs.len() && first_named(es, (#[trigger] rs[k]).game_name@) == Some(i)
        && crate::time::spec_rfc3339(rs[k].last_played_at@) == Some(x)
}

proof fn lemma_fold_lp_from(es: Seq<EntryView>, rs: Seq<LastPlayedRecord>)
    ensures
        forall|i: int| 0 <= i < es.len() ==> (#[trigger] fold_lp(es, rs).0[i]).last_played == es[i].last_played
            || (fold_lp(es, rs).0[i].last_played matches Some(x) && from_record(es, rs, i, x)),
    decreases rs.len(),
{
    if rs.len() > 0 {
        let d = rs.drop_last();
        lemma_fold_lp_from(es, d);
        lemma_fold_lp_max(es, d);
        let prev = fold_lp(es, d).0;
        let r = rs.last();
        lemma_first_named_same_names(prev, es, r.game_name@);
        lemma_first_named_range(prev, r.game_name@);
        assert forall|i: int| 0 <= i < es.len() implies (#[trigger] fold_lp(es, rs).0[i]).last_played
            == es[i].last_played || (fold_lp(es, rs).0[i].last_played matches Some(x) && from_record(es, rs, i, x)) by {
            let cur = fold_lp(es, rs).0;
            if cur[i].last_played != prev[i].last_played {
                let x = cur[i].last_played->0;
                assert(rs[rs.len() - 1] == r);
                assert(from_record(es, rs, i, x));
            } else if prev[i].last_played != es[i].last_played {
                let x = prev[i].last_played->0;
                let k = choose|k: int| 0 <= k < d.len() && first_named(es, (#[trigger] d[k]).game_name@) == Some(i)
                    && crate::time::spec_rfc3339(d[k].last_played_at@) == Some(x);
                assert(rs[k] == d[k]);
            }
        }
    }
}

/// The startup sync invents no last play: after it, each entry's last play
/// is its own from before, or the instant of a server record for its game.
pub proof fn law_startup_last_played_from_sources(
    es: Seq<EntryView>,
    last_played: Seq<LastPlayedRecord>,
    playtime: Seq<PlaytimeRecord>,
    our: Seq<char>,
    latest_backups: Seq<(String, LatestBackupResponse)>,
)
    ensures
        ({
            let fin = fold_badges(fold_pt(fold_lp(es, last_played).0, playtime).0, our, latest_backups).0;
            forall|i: int| 0 <= i < es.len() ==> (#[trigger] fin[i]).last_played == es[i].last_played || (
            fin[i].last_played matches Some(x) && from_record(es, last_played, i, x))
        }),
{
    let a = fold_lp(es, last_played).0;
    let b = fold_pt(a, playtime).0;
    let fin = fold_badges(b, our, latest_backups).0;
    lemma_fold_lp_max(es, last_played);
    lemma_fold_lp_from(es, last_played);
    lemma_fold_pt_keeps(a, playtime);
    lemma_fold_badges_keeps(b, our, latest_backups);
    assert forall|i: int| 0 <= i < es.len() implies (#[trigger] fin[i]).last_played == es[i].last_played || (
    fin[i].last_played matches Some(x) && from_record(es, last_played, i, x)) by {
        assert(fin[i].last_played == b[i].last_played);
        assert(b[i].last_played == a[i].last_played);
    }
}

fn find_named(es: &Vec<SyncedEntry>, name: &str) -> (r: Option<usize>)
    ensures
        match r {
            Some(i) => first_named(entries_view(es@), name@) == Some(i as int) && i < es@.len(),
            None => first_named(entries_view(es@), name@) is None,
        },
{
    let n = chars_of(name);
    let ghost v = entries_view(es@);
    let mut i: usize = 0;
    assert(v.skip(0) =~= v);
    while i < es.len()
        invariant
            i <= es.len(),
            n@ == name@,
            v == entries_view(es@),
            first_named(v, name@) == match first_named(v.skip(i as int), name@) {
                Some(k) => Some(k + i),
                None => None,
            },
        decreases es.len() - i,
    {
        assert(v.skip(i as int)[0] == entry_view(es@[i as int]));
        if eq_exec(&chars_of(es[i].game_name.as_str()), &n) {
            return Some(i);
        }
        assert(v.skip(i as int).drop_first() =~= v.skip(i + 1));
        i += 1;
    }
    assert(v.skip(i as int).len() == 0);
    None
}

/// Merge the sync server's cross-device state into the library entries at
/// startup, each record applied to the first entry of its game: a later
/// last-played instant is adopted; a larger playtime total is adopted; the
/// badge of each latest-backup answer replaces a different one. Returns the
/// number of changes (the library is saved and the frontend told when any).
pub fn apply_startup_sync(
    entries: &mut Vec<SyncedEntry>,
    last_played: &Vec<LastPlayedRecord>,
    playtime: &Vec<PlaytimeRecord>,
    latest_backups: &Vec<(String, LatestBackupResponse)>,
    our_device_id: &str,
) -> (r: usize)
    requires
        last_played.len() + playtime.len() + latest_backups.len() <= usize::MAX,
    ensures
        ({
            let a = fold_lp(entries_view(old(entries)@), last_played@);
            let b = fold_pt(a.0, playtime@);
            let c = fold_badges(b.0, our_device_id@, latest_backups@);
            &&& entries_view(final(entries)@) == c.0
            &&& r == a.1 + b.1 + c.1
        }),
{
    let ghost e0 = entries_view(entries@);
    let mut applied: usize = 0;
    let mut k: usize = 0;
    while k < last_played.len()
        invariant
            k <= last_played.len(),
            last_played.len() + playtime.len() + latest_backups.len() <= usize::MAX,
            fold_lp(e0, last_played@.take(k as int)).0 == entries_view(entries@),
            fold_lp(e0, last_played@.take(k as int)).1 == applied,
            applied <= k,
        decreases last_played.len() - k,
    {
        let r = &last_played[k];
        assert(last_played@.take(k + 1).drop_last() =~= last_played@.take(k as int));
        assert(last_played@.take(k + 1).last() == *r);
        let ghost before = entries_view(entries@);
        match find_named(entries, r.game_name.as_str()) {
            Some(j) => {
                let upd = match crate::time::parse_rfc3339(r.last_played_at.as_str()) {
                    Some(t) => match entries[j].last_played_at {
                        None => Some(t),
                        Some(cur) => if crate::time::later_exec(t, cur) {
                            Some(t)
                        } else {
                            None
                        },
                    },
                    None => None,
                };
                if let Some(t) = upd {
                    entries[j].last_played_at = Some(t);
                    assert(entries_view(entries@) =~= before.update(j as int, EntryView { last_played: Some(t), ..before[j as int] }));
                    applied += 1;
                }
            },
            None => {},
        }
        k += 1;
    }
    assert(last_played@.take(last_played.len() as int) =~= last_played@);
    let ghost e1 = entries_view(entries@);
    let ghost n1 = applied as nat;
    let mut k: usize = 0;
    while k < playtime.len()
        invariant
            k <= playtime.len(),
            last_played.len() + playtime.len() + latest_backups.len() <= usize::MAX,
            fold_pt(e1, playtime@.take(k as int)).0 == entries_view(entries@),
            n1 + fold_pt(e1, playtime@.take(k as int)).1 == applied,
            n1 <= last_played.len(),
            applied <= n1 + k,
        decreases playtime.len() - k,
    {
        let r = &playtime[k];
        assert(playtime@.take(k + 1).drop_last() =~= playtime@.take(k as int));
        assert(playtime@.take(k + 1).last() == *r);
        let ghost before = entries_view(entries@);
        match find_named(entries, r.game_name.as_str()) {
            Some(j) => {
                let server = r.total_minutes as i32;
                if server > entries[j].playtime_minutes {
                    entries[j].playtime_minutes = server;
                    assert(entries_view(entries@) =~= before.update(j as int, EntryView { playtime: server, ..before[j as int] }));
                    applied += 1;
                }
            },
            None => {},
        }
        k += 1;
    }
    assert(playtime@.take(playtime.len() as int) =~= playtime@);
    let ghost e2 = entries_view(entries@);
    let ghost n2 = applied as nat;
    let mut k: usize = 0;
    while k < latest_backups.len()
        invariant
            k <= latest_backups.len(),
            last_played.len() + playtime.len() + latest_backups.len() <= usize::MAX,
            fold_badges(e2, our_device_id@, latest_backups@.take(k as int)).0 == entries_view(entries@),
            n2 + fold_badges(e2, our_device_id@, latest_backups@.take(k as int)).1 == applied,
            n2 <= last_played.len() + playtime.len(),
            applied <= n2 + k,
        decreases latest_backups.len() - k,
    {
        let r = &latest_backups[k];
        assert(latest_backups@.take(k + 1).drop_last() =~= latest_backups@.take(k as int));
        assert(latest_backups@.take(k + 1).last() == *r);
        let ghost before = entries_view(entries@);
        match find_named(entries, r.0.as_str()) {
            Some(j) => {
                let badge = compute_badge(our_device_id, &r.1);
                let same = match &entries[j].sync_badge {
                    Some(b) => eq_exec(&chars_of(b.as_str()), &chars_of(badge)),
                    None => false,
                };
                if !same {
                    entries[j].sync_badge = Some(string_of(&chars_of(badge)));
                    assert(entries_view(entries@) =~= before.update(j as int, EntryView { badge: Some(badge@), ..before[j as int] }));
                    applied += 1;
                }
            },
            None => {},
        }
        k += 1;
    }
    assert(latest_backups@.take(latest_backups.len() as int) =~= latest_backups@);
    applied
}

} // verus!

verus! {

/// The percent-encoding of a URL path segment.
pub uninterp spec fn spec_urlencode(s: Seq<char>) -> Seq<char>;

/// An unreserved URL character: an ASCII letter or digit, `-`, `.`, `_`, `~`.
pub open spec fn url_unreserved(c: char) -> bool {
    ('0' <= c && c <= '9') || ('A' <= c && c <= 'Z') || ('a' <= c && c <= 'z') || c == '-' || c == '.'
        || c == '_' || c == '~'
}

/// `urlencoding::encode`.
///
/// Trusted: the encoding is named by [`spec_urlencode`]; what the source
/// plainly shows is claimed too: text of unreserved characters only comes
/// back unchanged, and every character of the result is unreserved or `%`
/// (each other byte of the UTF-8 text becomes `%` and two uppercase hex
/// digits).
#[verifier::external_body]
fn urlencode(s: &str) -> (r: String)
    ensures
        r@ == spec_urlencode(s@),
        (forall|i: int| 0 <= i < s@.len() ==> url_unreserved(#[trigger] s@[i])) ==> r@ == s@,
        forall|i: int| 0 <= i < r@.len() ==> url_unreserved(#[trigger] r@[i]) || r@[i] == '%',
{
    urlencoding::encode(s).into_owned()
}

/// The path of a per-game endpoint: `<prefix>/<segment>`, then `/<action>`
/// when there is one.
pub open spec fn spec_game_path(prefix: Seq<char>, segment: Seq<char>, action: Option<Seq<char>>) -> Seq<char> {
    match action {
        Some(a) => prefix + "/"@ + segment + "/"@ + a,
        None => prefix + "/"@ + segment,
    }
}

/// A per-game endpoint URL from an already encoded game segment.
pub fn endpoint_for_segment(url: &str, prefix: &str, segment: &str, action: Option<&str>) -> (r: String)
    ensures
        r@ == spec_join_url(
            url@,
            spec_game_path(
                prefix@,
                segment@,
                match action {
                    Some(a) => Some(a@),
                    None => None,
                },
            ),
        ),
{
    let head = concat3(&chars_of(prefix), &chars_of("/"), &chars_of(segment));
    let path = match action {
        Some(a) => concat3(&head, &chars_of("/"), &chars_of(a)),
        None => head,
    };
    join_url(url, string_of(&path).as_str())
}

/// A per-game endpoint URL: the game's name percent-encoded as one path
/// segment (`locks/<game>/acquire`, `events/<game>/backup`,
/// `playtime/<game>`, …).
pub fn game_endpoint(url: &str, prefix: &str, game: &str, action: Option<&str>) -> (r: String)
    ensures
        r@ == spec_join_url(
            url@,
            spec_game_path(
                prefix@,
                spec_urlencode(game@),
                match action {
                    Some(a) => Some(a@),
                    None => None,
                },
            ),
        ),
{
    let segment = urlencode(game);
    endpoint_for_segment(url, prefix, segment.as_str(), action)
}

/// What the headless lock release needs, trimmed: the server URL, the API key
/// and this device's id; `None` when sync is off or any of them is blank.
pub fn headless_release_config(enabled: bool, url: &str, api_key: &str, device_id: &str) -> (r: Option<(String, String, String)>)
    ensures
        r is Some <==> (enabled && trim(url@).len() > 0 && trim(api_key@).len() > 0 && trim(device_id@).len() > 0),
        r matches Some(c) ==> c.0@ == trim(url@) && c.1@ == trim(api_key@) && c.2@ == trim(device_id@),
{
    if !enabled {
        return None;
    }
    let u = trim_exec(&chars_of(url));
    let k = trim_exec(&chars_of(api_key));
    let d = trim_exec(&chars_of(device_id));
    if u.len() == 0 || k.len() == 0 || d.len() == 0 {
        return None;
    }
    Some((string_of(&u), string_of(&k), string_of(&d)))
}

/// The server URL and API key for the save-storage setup, trimmed, or the
/// error the user is shown when sync is off or a setting is blank.
pub fn storage_settings(enabled: bool, url: &str, api_key: &str) -> (r: Result<(String, String), AppError>)
    ensures
        !enabled ==> (r matches Err(AppError::Other(m)) && m@ == "Sync server is not enabled in Settings."@),
        enabled && (trim(url@).len() == 0 || trim(api_key@).len() == 0) ==> (r matches Err(
            AppError::Other(m),
        ) && m@ == "Set your sync server URL and API key first."@),
        enabled && trim(url@).len() > 0 && trim(api_key@).len() > 0 ==> (r matches Ok(p) && p.0@
            == trim(url@) && p.1@ == trim(api_key@)),
{
    if !enabled {
        return Err(AppError::Other(string_of(&chars_of("Sync server is not enabled in Settings."))));
    }
    let u = trim_exec(&chars_of(url));
    let k = trim_exec(&chars_of(api_key));
    if u.len() == 0 || k.len() == 0 {
        return Err(AppError::Other(string_of(&chars_of("Set your sync server URL and API key first."))));
    }
    Ok((string_of(&u), string_of(&k)))
}

/// The error of a `GET /storage` answer, if any: 404 means the server has no
/// save storage; another failure status is reported with its text and body.
pub fn storage_failure(code: u16, success: bool, status_text: &str, body: &str) -> (r: Option<AppError>)
    ensures
        code == 404 ==> (r matches Some(AppError::Other(m)) && m@
            == "This server doesn't have save storage enabled (set WEBDAV_PUBLIC_URL on the server)."@),
        code != 404 && !success ==> (r matches Some(AppError::Other(m)) && m@ == "storage request failed: "@
            + status_text@ + " "@ + body@),
        code != 404 && success ==> r is None,
{
    if code == 404 {
        return Some(AppError::Other(string_of(&chars_of(
            "This server doesn't have save storage enabled (set WEBDAV_PUBLIC_URL on the server).",
        ))));
    }
    if !success {
        let head = concat3(&chars_of("storage request failed: "), &chars_of(status_text), &chars_of(" "));
        return Some(AppError::Other(string_of(&crate::text::concat(&head, &chars_of(body)))));
    }
    None
}

/// How a `GET /health` probe ended.
pub enum HealthProbe {
    /// The request failed (network, DNS, timeout), with its message.
    Unreachable(String),
    /// The server answered with a failure status, given as text.
    BadStatus(String),
    /// The answer's body did not parse, with the parser's message.
    BadBody(String),
    /// The server answered, reporting its version if it has one.
    Healthy(Option<String>),
}

/// `r` is the status that health probe `probe` gives.
pub open spec fn is_health_status(probe: HealthProbe, r: SyncStatus) -> bool {
    match probe {
        HealthProbe::Unreachable(e) => r.reachability == SyncReachability::Offline && r.error == Some(e)
            && r.server_version is None && r.last_ok_ago_secs is None,
        HealthProbe::BadStatus(s) => r.reachability == SyncReachability::Offline && (r.error matches Some(m)
            && m@ == "server returned "@ + s@) && r.server_version is None && r.last_ok_ago_secs is None,
        HealthProbe::BadBody(e) => r.reachability == SyncReachability::Offline && (r.error matches Some(m)
            && m@ == "parse /health: "@ + e@) && r.server_version is None && r.last_ok_ago_secs is None,
        HealthProbe::Healthy(v) => r.reachability == SyncReachability::Online && r.error is None
            && r.server_version == v && r.last_ok_ago_secs == Some(0u64),
    }
}

/// The sync status a health probe gives: offline with the failure's message,
/// or online with the server's version.
pub fn health_status(probe: HealthProbe) -> (r: SyncStatus)
    ensures
        is_health_status(probe, r),
{
    match probe {
        HealthProbe::Unreachable(e) => SyncStatus {
            reachability: SyncReachability::Offline,
            server_version: None,
            error: Some(e),
            last_ok_ago_secs: None,
        },
        HealthProbe::BadStatus(s) => SyncStatus {
            reachability: SyncReachability::Offline,
            server_version: None,
            error: Some(string_of(&crate::text::concat(&chars_of("server returned "), &chars_of(s.as_str())))),
            last_ok_ago_secs: None,
        },
        HealthProbe::BadBody(e) => SyncStatus {
            reachability: SyncReachability::Offline,
            server_version: None,
            error: Some(string_of(&crate::text::concat(&chars_of("parse /health: "), &chars_of(e.as_str())))),
            last_ok_ago_secs: None,
        },
        HealthProbe::Healthy(v) => SyncStatus {
            reachability: SyncReachability::Online,
            server_version: v,
            error: None,
            last_ok_ago_secs: Some(0),
        },
    }
}

/// The poll's status for the current settings: unconfigured without a
/// server, else what the health probe gave.
pub fn poll_status(configured: bool, probe: HealthProbe) -> (r: SyncStatus)
    ensures
        !configured ==> r.reachability == SyncReachability::Unconfigured && r.error is None
            && r.server_version is None && r.last_ok_ago_secs is None,
        configured ==> is_health_status(probe, r),
{
    if !configured {
        SyncStatus {
            reachability: SyncReachability::Unconfigured,
            server_version: None,
            error: None,
            last_ok_ago_secs: None,
        }
    } else {
        health_status(probe)
    }
}

/// Whether a new poll's status differs from the last one as the frontend
/// sees it: reachability, error or server version.
pub fn status_changed(prev: &SyncStatus, new_status: &SyncStatus) -> (r: bool)
    ensures
        r == (prev.reachability != new_status.reachability || crate::rclone::opt_view(prev.error)
            != crate::rclone::opt_view(new_status.error) || crate::rclone::opt_view(prev.server_version)
            != crate::rclone::opt_view(new_status.server_version)),
{
    prev.reachability != new_status.reachability || !opt_eq(&prev.error, &new_status.error) || !opt_eq(
        &prev.server_version,
        &new_status.server_version,
    )
}

fn opt_eq(a: &Option<String>, b: &Option<String>) -> (r: bool)
    ensures
        r == (crate::rclone::opt_view(*a) == crate::rclone::opt_view(*b)),
{
    match (a, b) {
        (Some(x), Some(y)) => eq_exec(&chars_of(x.as_str()), &chars_of(y.as_str())),
        (None, None) => true,
        _ => false,
    }
}

} // verus!
