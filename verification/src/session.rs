//! The active-session record of a Steam Game-Mode launch: written at launch,
//! flipped to backed-up once a backup completes, and cleared once the session
//! is reconciled. The record's file and its locking are handled by the
//! application; this module holds the record and its guarded updates.

use vstd::prelude::*;
use crate::steam::{decimal, spec_shortcut_app_id};
use crate::text::{chars_of, concat3, eq_exec, quoted, string_of, trim, trim_exec};

verus! {

/// The active-session record.
pub struct ActiveSession {
    pub game: String,
    pub steam_appid: u32,
    pub session_id: String,
    /// Unix seconds and sub-second nanoseconds of the session's start.
    pub started_at: (i64, u32),
    pub backed_up: bool,
    /// Seconds the system has spent suspended so far this session.
    pub suspended_secs: i64,
}

/// Per-process session state: whether this process wrote the active-session
/// record (only attached Steam launches do).
pub struct SessionProcess {
    wrote_start: bool,
}

impl SessionProcess {
    /// A process that has written no record.
    pub fn new() -> (r: SessionProcess)
        ensures
            !r.wrote(),
    {
        SessionProcess { wrote_start: false }
    }

    /// Whether this process wrote the record.
    pub closed spec fn wrote(&self) -> bool {
        self.wrote_start
    }

    /// True when this process wrote the active-session record.
    pub fn wrote_start_this_process(&self) -> (r: bool)
        ensures
            r == self.wrote(),
    {
        self.wrote_start
    }

    /// Take in the outcome of writing the record: a successful write makes
    /// this process the record's owner, for the rest of its life; a failed
    /// write changes nothing.
    pub fn note_write_result<T, E>(&mut self, written: &Result<T, E>)
        ensures
            final(self).wrote() == (old(self).wrote() || written is Ok),
    {
        if written.is_ok() {
            self.wrote_start = true;
        }
    }
}

/// The app id Steam reports for a Spool-managed game's shortcut.
pub fn compute_steam_appid(spool_exe: &str, game_name: &str) -> (r: u32)
    ensures
        r == spec_shortcut_app_id(quoted(spool_exe@), game_name@),
        r >= 0x8000_0000,
{
    crate::steam::compute_shortcut_app_id(game_name, spool_exe)
}

/// Milliseconds since the Unix epoch of an instant.
pub open spec fn millis(t: (i64, u32)) -> int {
    t.0 * 1000 + (t.1 / 1_000_000) as int
}

/// The decimal rendering of a signed integer.
pub open spec fn signed_decimal(n: int) -> Seq<char> {
    if n < 0 {
        seq!['-'] + decimal((-n) as nat)
    } else {
        decimal(n as nat)
    }
}

/// The decimal digits of a `u128`.
fn decimal_u128(n: u128) -> (r: Vec<char>)
    ensures
        r@ == decimal(n as nat),
    decreases n,
{
    if n < 10 {
        let mut v: Vec<char> = Vec::new();
        v.push(crate::steam::digit_exec(n as u64));
        v
    } else {
        let mut v = decimal_u128(n / 10);
        v.push(crate::steam::digit_exec((n % 10) as u64));
        v
    }
}

/// The signed decimal milliseconds of an instant.
fn millis_text(t: (i64, u32)) -> (r: Vec<char>)
    requires
        t.1 < 1_000_000_000,
    ensures
        r@ == signed_decimal(millis(t)),
{
    let ms: i128 = (t.0 as i128) * 1000 + ((t.1 / 1_000_000) as i128);
    let digits = if ms < 0 {
        let mut v: Vec<char> = Vec::new();
        v.push('-');
        let d = decimal_u128((-ms) as u128);
        crate::text::concat(&v, &d)
    } else {
        decimal_u128(ms as u128)
    };
    assert(digits@ =~= signed_decimal(millis(t)));
    digits
}

/// The id of a session: `<appid>-<start in Unix milliseconds>`.
pub fn session_id_for(steam_appid: u32, started_at: (i64, u32)) -> (r: String)
    requires
        started_at.1 < 1_000_000_000,
    ensures
        r@ == decimal(steam_appid as nat) + "-"@ + signed_decimal(millis(started_at)),
{
    let digits = millis_text(started_at);
    string_of(&concat3(&crate::steam::decimal_exec(steam_appid as u64), &chars_of("-"), &digits))
}

/// The record written for a launch starting at `started_at`.
pub fn new_session(game: &str, steam_appid: u32, started_at: (i64, u32)) -> (r: ActiveSession)
    requires
        started_at.1 < 1_000_000_000,
    ensures
        r.game@ == game@,
        r.steam_appid == steam_appid,
        r.session_id@ == decimal(steam_appid as nat) + "-"@ + signed_decimal(millis(started_at)),
        r.started_at == started_at,
        !r.backed_up,
        r.suspended_secs == 0,
{
    ActiveSession {
        game: string_of(&chars_of(game)),
        steam_appid,
        session_id: session_id_for(steam_appid, started_at),
        started_at,
        backed_up: false,
        suspended_secs: 0,
    }
}

/// Mark the session's backup as done, but only when the record is still the
/// session `expected_id` (a late backup must not flip a newer session's
/// flag). Returns whether the record changed and must be written back.
pub fn mark_backed_up_if(rec: &mut ActiveSession, expected_id: &str) -> (r: bool)
    ensures
        r == (old(rec).session_id@ == expected_id@),
        r ==> final(rec).backed_up,
        final(rec).game == old(rec).game,
        final(rec).steam_appid == old(rec).steam_appid,
        final(rec).session_id == old(rec).session_id,
        final(rec).started_at == old(rec).started_at,
        final(rec).suspended_secs == old(rec).suspended_secs,
        !r ==> final(rec).backed_up == old(rec).backed_up,
{
    if eq_exec(&chars_of(rec.session_id.as_str()), &chars_of(expected_id)) {
        rec.backed_up = true;
        true
    } else {
        false
    }
}

/// Checkpoint the session's total suspended seconds, but only when the record
/// names `game_name`; the total overwrites (it is not added). Returns whether
/// the record changed and must be written back.
pub fn record_suspended_secs(rec: &mut ActiveSession, game_name: &str, total_secs: i64) -> (r: bool)
    ensures
        r == (old(rec).game@ == game_name@),
        final(rec).suspended_secs == (if r { total_secs } else { old(rec).suspended_secs }),
        final(rec).game == old(rec).game,
        final(rec).steam_appid == old(rec).steam_appid,
        final(rec).session_id == old(rec).session_id,
        final(rec).started_at == old(rec).started_at,
        final(rec).backed_up == old(rec).backed_up,
{
    if eq_exec(&chars_of(rec.game.as_str()), &chars_of(game_name)) {
        rec.suspended_secs = total_secs;
        true
    } else {
        false
    }
}

/// Whether the record should be deleted: only when it is still the session
/// `expected_id`, so a late reconciliation cannot wipe a newer session.
pub fn clear_if(rec: &ActiveSession, expected_id: &str) -> (r: bool)
    ensures
        r == (rec.session_id@ == expected_id@),
{
    eq_exec(&chars_of(rec.session_id.as_str()), &chars_of(expected_id))
}

} // verus!

verus! {

/// Whether a game-stop event calls for the forced-close fallback backup:
/// there is an active-session record, for the stopped app, not yet backed up.
pub fn should_fallback_backup(rec: Option<&ActiveSession>, stopped_appid: u32) -> (r: bool)
    ensures
        r == (rec matches Some(s) && !s.backed_up && s.steam_appid == stopped_appid),
{
    match rec {
        Some(s) => !s.backed_up && s.steam_appid == stopped_appid,
        None => false,
    }
}

} // verus!

verus! {

/// One finished play session as recorded in the play-history table.
pub struct PlaySessionRow {
    /// `<device id>:<start in Unix milliseconds>`: the same id on every path
    /// that records this session, so a second record of it is refused.
    pub session_id: String,
    pub device_id: String,
    pub device_name: String,
    pub game_name: String,
    pub started_at: (i64, u32),
    pub ended_at: (i64, u32),
    pub duration_secs: i64,
}

/// The whole seconds from `a` to `b`, truncated toward zero.
pub open spec fn whole_secs_between(a: (i64, u32), b: (i64, u32)) -> int {
    let d = (b.0 - a.0) * 1_000_000_000 + b.1 - a.1;
    if d >= 0 {
        d / 1_000_000_000
    } else {
        -((-d) / 1_000_000_000)
    }
}

/// The seconds a session was played: its length less the time the machine
/// was suspended (a negative suspension counts as none), never below zero.
pub open spec fn played_secs(started_at: (i64, u32), ended_at: (i64, u32), suspended_secs: i64) -> int {
    let susp: int = if suspended_secs < 0 {
        0
    } else {
        suspended_secs as int
    };
    let d = whole_secs_between(started_at, ended_at) - susp;
    if d < 0 {
        0
    } else {
        d
    }
}

/// The row for a session recorded by the headless fallback: `None` without a
/// device id (a row the cross-device fold could not attribute); otherwise the
/// trimmed device id and name, the id `<device id>:<start millis>`, and the
/// played seconds (see [`played_secs`]).
pub fn headless_session_row(
    device_id: &str,
    device_name: &str,
    game_name: &str,
    started_at: (i64, u32),
    ended_at: (i64, u32),
    suspended_secs: i64,
) -> (r: Option<PlaySessionRow>)
    requires
        started_at.1 < 1_000_000_000,
        ended_at.1 < 1_000_000_000,
        i64::MIN + 2 <= ended_at.0 - started_at.0 <= i64::MAX - 2,
    ensures
        r is None <==> trim(device_id@).len() == 0,
        r matches Some(row) ==> {
            &&& row.device_id@ == trim(device_id@)
            &&& row.device_name@ == trim(device_name@)
            &&& row.game_name@ == game_name@
            &&& row.session_id@ == trim(device_id@) + ":"@ + signed_decimal(millis(started_at))
            &&& row.started_at == started_at
            &&& row.ended_at == ended_at
            &&& row.duration_secs == played_secs(started_at, ended_at, suspended_secs)
        },
{
    let id = trim_exec(&chars_of(device_id));
    if id.len() == 0 {
        return None;
    }
    let name = trim_exec(&chars_of(device_name));
    let d: i128 = (ended_at.0 as i128 - started_at.0 as i128) * 1_000_000_000 + ended_at.1 as i128
        - started_at.1 as i128;
    let whole: i128 = if d >= 0 {
        d / 1_000_000_000
    } else {
        -((-d) / 1_000_000_000)
    };
    assert(whole == whole_secs_between(started_at, ended_at));
    let susp: i128 = if suspended_secs < 0 {
        0
    } else {
        suspended_secs as i128
    };
    let played: i128 = if whole - susp < 0 {
        0
    } else {
        whole - susp
    };
    assert(whole <= (ended_at.0 - started_at.0) + 1) by (nonlinear_arith)
        requires
            d == (ended_at.0 - started_at.0) * 1_000_000_000 + ended_at.1 - started_at.1,
            ended_at.1 < 1_000_000_000,
            whole == (if d >= 0 { d / 1_000_000_000 } else { -((-d) / 1_000_000_000) }),
    ;
    let session_id = string_of(&concat3(&id, &chars_of(":"), &millis_text(started_at)));
    Some(PlaySessionRow {
        session_id,
        device_id: string_of(&id),
        device_name: string_of(&name),
        game_name: string_of(&chars_of(game_name)),
        started_at,
        ended_at,
        duration_secs: played as i64,
    })
}

/// Whether a recorded session goes on to push its playtime: only when its
/// row was new (`Some(true)`); a row already there (`Some(false)`, the
/// session was recorded by the other path or a retry) or a failed insert
/// (`None`) pushes nothing, so no session is counted twice.
pub fn row_insert_pushes(inserted: Option<bool>) -> (r: bool)
    ensures
        r == (inserted == Some(true)),
{
    match inserted {
        Some(b) => b,
        None => false,
    }
}

/// Whether the play-history table holds a row with this session id.
pub open spec fn has_session(rows: Seq<PlaySessionRow>, id: Seq<char>) -> bool {
    exists|i: int| 0 <= i < rows.len() && (#[trigger] rows[i]).session_id@ == id
}

/// The id the headless path gives a session: `<trimmed device id>:<start
/// millis>`.
pub open spec fn headless_session_id(device_id: Seq<char>, started_at: (i64, u32)) -> Seq<char> {
    trim(device_id) + ":"@ + signed_decimal(millis(started_at))
}

/// Insert-or-ignore into the play-history table: the row goes in only when
/// no row has its session id; returns whether it went in.
pub fn insert_session(rows: &mut Vec<PlaySessionRow>, row: PlaySessionRow) -> (r: bool)
    ensures
        r == !has_session(old(rows)@, row.session_id@),
        r ==> final(rows)@ == old(rows)@.push(row),
        !r ==> final(rows)@ == old(rows)@,
{
    let id = chars_of(row.session_id.as_str());
    let mut i: usize = 0;
    while i < rows.len()
        invariant
            i <= rows.len(),
            id@ == row.session_id@,
            forall|k: int| 0 <= k < i ==> (#[trigger] rows@[k]).session_id@ != row.session_id@,
        decreases rows.len() - i,
    {
        if eq_exec(&chars_of(rows[i].session_id.as_str()), &id) {
            return false;
        }
        i += 1;
    }
    rows.push(row);
    true
}

/// Record a session ended while the launcher was not attached (the forced-close
/// fallback): nothing without a device id; otherwise the row of
/// [`headless_session_row`] goes into the table unless a row with its id is
/// already there. Returns the whole minutes played when a new row went in,
/// `None` when nothing was recorded.
pub fn record_session_headless(
    rows: &mut Vec<PlaySessionRow>,
    device_id: &str,
    device_name: &str,
    game_name: &str,
    started_at: (i64, u32),
    ended_at: (i64, u32),
    suspended_secs: i64,
) -> (r: Option<i32>)
    requires
        started_at.1 < 1_000_000_000,
        ended_at.1 < 1_000_000_000,
        i64::MIN + 2 <= ended_at.0 - started_at.0 <= i64::MAX - 2,
    ensures
        r is Some <==> (trim(device_id@).len() > 0 && !has_session(
            old(rows)@,
            headless_session_id(device_id@, started_at),
        )),
        r is None ==> final(rows)@ == old(rows)@,
        r matches Some(m) ==> {
            let row = final(rows)@.last();
            &&& final(rows)@ == old(rows)@.push(row)
            &&& row.session_id@ == headless_session_id(device_id@, started_at)
            &&& row.device_id@ == trim(device_id@)
            &&& row.device_name@ == trim(device_name@)
            &&& row.game_name@ == game_name@
            &&& row.started_at == started_at
            &&& row.ended_at == ended_at
            &&& row.duration_secs == played_secs(started_at, ended_at, suspended_secs)
            &&& m == (row.duration_secs / 60) as i32
        },
{
    let row = match headless_session_row(device_id, device_name, game_name, started_at, ended_at, suspended_secs) {
        Some(row) => row,
        None => return None,
    };
    let duration = row.duration_secs;
    if insert_session(rows, row) {
        Some((duration / 60) as i32)
    } else {
        None
    }
}

/// A session is recorded once: after a row with the headless id of a device
/// and start time has gone into the table, the table holds that id, so a
/// second headless record of the same session adds nothing and returns `None`.
pub proof fn law_headless_record_once(
    rows: Seq<PlaySessionRow>,
    row: PlaySessionRow,
    device_id: Seq<char>,
    started_at: (i64, u32),
)
    requires
        row.session_id@ == headless_session_id(device_id, started_at),
    ensures
        has_session(rows.push(row), headless_session_id(device_id, started_at)),
{
    assert(rows.push(row)[rows.len() as int] == row);
}

} // verus!
