//! The cross-device control plane kept as small JSON blobs in the same rclone
//! remote that holds the cloud saves.
//!
//! Layout under `<remote>:<base>/_spool`: `devices/<device_id>.json` (one
//! [`DeviceBlob`] per device, written only by that device) and
//! `sessions/<blake3(game)>.json` (a [`SessionMarker`] while a session's saves
//! are not yet in the cloud). This module holds the remote paths, the
//! classification of a peer's marker, the reachability verdict of an rclone
//! exit code, the device-blob updates and the cross-device backup fold. The
//! rclone processes themselves are run by the application.

use vstd::prelude::*;
use crate::error::AppError;
use crate::text::{
    chars_of, concat, concat3, contains, eq_exec, rindex_of, rindex_of_exec, slice_vec, starts_with,
    string_of, trim, trim_end_char, trim_end_char_exec, trim_exec, trim_start_ws,
};
use crate::time::spec_rfc3339;

verus! {

/// A live marker whose heartbeat is older than this many seconds is treated as
/// abandoned (three missed heartbeats).
pub const ACTIVE_STALE_SECS: i64 = 180;

/// Reachability of the cloud remote, as shown by the cloud icon.
#[derive(Debug, Clone, Copy, PartialEq, Eq, Structural)]
pub enum SyncReachability {
    /// Cloud saves are not configured.
    Unconfigured,
    /// The remote answered.
    Online,
    /// Network error, missing remote or timeout.
    Offline,
}

/// The reachability status reported to the frontend.
pub struct SyncStatus {
    pub reachability: SyncReachability,
    /// The sync server's version from its last health answer; a cloud
    /// remote has none.
    pub server_version: Option<String>,
    /// Diagnostic of the last failure.
    pub error: Option<String>,
    /// Seconds since the last successful remote operation.
    pub last_ok_ago_secs: Option<u64>,
}

impl Default for SyncStatus {
    fn default() -> (r: SyncStatus)
        ensures
            r.reachability == SyncReachability::Unconfigured,
            r.server_version is None,
            r.error is None,
            r.last_ok_ago_secs is None,
    {
        SyncStatus {
            reachability: SyncReachability::Unconfigured,
            server_version: None,
            error: None,
            last_ok_ago_secs: None,
        }
    }
}

/// A copy of an optional string.
pub fn copy_opt(o: &Option<String>) -> (r: Option<String>)
    ensures
        r == *o,
{
    match o {
        Some(s) => Some(s.clone()),
        None => None,
    }
}

/// The current status together with the instant (in whole seconds of a
/// monotonic clock) of the last successful remote operation.
pub struct SyncStatusState {
    status: SyncStatus,
    last_ok: Option<u64>,
}

impl SyncStatusState {
    /// The status a fresh application starts with: unconfigured, never
    /// reached.
    pub fn new() -> (r: SyncStatusState)
        ensures
            r.status().reachability == SyncReachability::Unconfigured,
            r.status().server_version is None,
            r.status().error is None,
            r.status().last_ok_ago_secs is None,
            r.last_ok() is None,
    {
        SyncStatusState { status: SyncStatus::default(), last_ok: None }
    }

    /// The stored status.
    pub closed spec fn status(&self) -> SyncStatus {
        self.status
    }

    /// The instant of the last successful operation.
    pub closed spec fn last_ok(&self) -> Option<u64> {
        self.last_ok
    }

    /// The stored status, with `last_ok_ago_secs` set to the seconds elapsed
    /// from the last success to `now` (`None` before the first success; zero
    /// when `now` is not later).
    pub fn snapshot(&self, now: u64) -> (r: SyncStatus)
        ensures
            r.reachability == self.status().reachability,
            r.server_version == self.status().server_version,
            r.error == self.status().error,
            r.last_ok_ago_secs == match self.last_ok() {
                Some(t) => Some(if now >= t { (now - t) as u64 } else { 0u64 }),
                None => None,
            },
    {
        let ago = match self.last_ok {
            Some(t) => Some(if now >= t { now - t } else { 0 }),
            None => None,
        };
        SyncStatus {
            reachability: self.status.reachability,
            server_version: copy_opt(&self.status.server_version),
            error: copy_opt(&self.status.error),
            last_ok_ago_secs: ago,
        }
    }

    /// Replace the stored status; the last success is kept.
    pub fn set(&mut self, new_status: SyncStatus)
        ensures
            final(self).status() == new_status,
            final(self).last_ok() == old(self).last_ok(),
    {
        self.status = new_status;
    }

    /// Record a successful remote operation at `now`; the status is kept.
    pub fn mark_ok(&mut self, now: u64)
        ensures
            final(self).last_ok() == Some(now),
            final(self).status() == old(self).status(),
    {
        self.last_ok = Some(now);
    }
}

/// The configured base folder: trimmed, trailing `/` removed, `Spool` when
/// that leaves nothing.
pub open spec fn spec_base_path(configured: Seq<char>) -> Seq<char> {
    let b = trim_end_char(trim(configured), '/');
    if b.len() == 0 {
        "Spool"@
    } else {
        b
    }
}

/// The remote base folder, normalised so that the saves and the control plane
/// can never end up under different roots.
pub fn base_path(configured: &str) -> (r: String)
    ensures
        r@ == spec_base_path(configured@),
{
    let t = trim_exec(&chars_of(configured));
    let b = trim_end_char_exec(&t, '/');
    if b.len() == 0 {
        string_of(&chars_of("Spool"))
    } else {
        string_of(&b)
    }
}

/// A resolved rclone remote: the rclone binary, the remote's name, and the
/// user's base folder.
pub struct RcloneRemote {
    pub exe: String,
    pub remote: String,
    pub base: String,
}

/// `<remote>:<base without trailing '/'>/_spool`.
pub open spec fn spec_spool_dir(remote: Seq<char>, base: Seq<char>) -> Seq<char> {
    remote + ":"@ + trim_end_char(base, '/') + "/_spool"@
}

/// `<spool>/<subdir>`.
pub open spec fn spec_store_dir(spool: Seq<char>, subdir: Seq<char>) -> Seq<char> {
    spool + "/"@ + subdir
}

/// `<dir>/<key>.json`.
pub open spec fn spec_store_target(dir: Seq<char>, key: Seq<char>) -> Seq<char> {
    dir + "/"@ + key + ".json"@
}

impl RcloneRemote {
    /// The root of the control-plane blobs.
    pub fn spool_dir(&self) -> (r: String)
        ensures
            r@ == spec_spool_dir(self.remote@, self.base@),
    {
        let head = concat(&chars_of(self.remote.as_str()), &chars_of(":"));
        let base = trim_end_char_exec(&chars_of(self.base.as_str()), '/');
        string_of(&concat3(&head, &base, &chars_of("/_spool")))
    }

    /// The blob namespace `_spool/<subdir>`, whose reader accepts blobs up to
    /// schema version `schema`.
    pub fn store(&self, subdir: &str, schema: u32) -> (r: BlobStore)
        ensures
            r.spool_dir@ == spec_spool_dir(self.remote@, self.base@),
            r.subdir@ == subdir@,
            r.schema == schema,
    {
        BlobStore {
            spool_dir: self.spool_dir(),
            subdir: string_of(&chars_of(subdir)),
            schema,
        }
    }
}

/// One blob namespace under `_spool/<subdir>/`.
pub struct BlobStore {
    pub spool_dir: String,
    pub subdir: String,
    /// The highest schema version this build can interpret.
    pub schema: u32,
}

impl BlobStore {
    /// The namespace's directory.
    pub fn dir(&self) -> (r: String)
        ensures
            r@ == spec_store_dir(self.spool_dir@, self.subdir@),
    {
        string_of(
            &concat3(&chars_of(self.spool_dir.as_str()), &chars_of("/"), &chars_of(self.subdir.as_str())),
        )
    }

    /// The path of one blob, `<dir>/<key>.json`.
    pub fn target(&self, key: &str) -> (r: String)
        ensures
            r@ == spec_store_target(spec_store_dir(self.spool_dir@, self.subdir@), key@),
    {
        let d = self.dir();
        let head = concat(&chars_of(d.as_str()), &chars_of("/"));
        string_of(&concat3(&head, &chars_of(key), &chars_of(".json")))
    }

    /// The forward-compatibility gate: a blob written with a newer schema than
    /// this build understands is not read.
    pub fn admits(&self, stored_schema: u32) -> (r: bool)
        ensures
            r == (stored_schema <= self.schema),
    {
        stored_schema <= self.schema
    }
}

/// `c` is a lowercase hexadecimal digit.
pub open spec fn is_lower_hex(c: char) -> bool {
    ('0' <= c && c <= '9') || ('a' <= c && c <= 'f')
}

/// The lowercase hex BLAKE3 digest of the UTF-8 encoding of `s`.
pub uninterp spec fn spec_blake3_hex(s: Seq<char>) -> Seq<char>;

/// `blake3::hash` of the UTF-8 bytes of `s`, rendered by `Hash::to_hex`.
///
/// Trusted: the digest is named by [`spec_blake3_hex`]; what the source of
/// `to_hex` shows is stated too: 64 characters, each a lowercase hex digit.
#[verifier::external_body]
fn blake3_hex(s: &str) -> (r: String)
    ensures
        r@ == spec_blake3_hex(s@),
        r@.len() == 64,
        forall|i: int| 0 <= i < 64 ==> is_lower_hex(#[trigger] r@[i]),
{
    blake3::hash(s.as_bytes()).to_hex().to_string()
}

/// The session-marker file stem of a game: the hex BLAKE3 digest of its name.
pub fn session_hash(game_name: &str) -> (r: String)
    ensures
        r@ == spec_blake3_hex(game_name@),
        r@.len() == 64,
        forall|i: int| 0 <= i < 64 ==> is_lower_hex(#[trigger] r@[i]),
{
    blake3_hex(game_name)
}

/// The remote path of a game's session marker.
pub fn session_target(remote: &RcloneRemote, game_name: &str) -> (r: String)
    ensures
        r@ == spec_store_target(
            spec_store_dir(spec_spool_dir(remote.remote@, remote.base@), "sessions"@),
            spec_blake3_hex(game_name@),
        ),
{
    let store = remote.store("sessions", 0);
    let key = session_hash(game_name);
    store.target(key.as_str())
}

/// The remote to use when the configured `base` folder, the remote's name
/// (from the backup tool's configuration) and the rclone binary are known;
/// `None` when either of the last two is missing.
pub fn resolve_remote_from_config(
    configured_base: &str,
    remote_name: Option<String>,
    rclone_exe: Option<String>,
) -> (r: Option<RcloneRemote>)
    ensures
        r is Some <==> (remote_name is Some && rclone_exe is Some),
        r matches Some(rr) ==> {
            &&& rr.remote == remote_name->0
            &&& rr.exe == rclone_exe->0
            &&& rr.base@ == spec_base_path(configured_base@)
        },
{
    match (remote_name, rclone_exe) {
        (Some(remote), Some(exe)) => Some(RcloneRemote { exe, remote, base: base_path(configured_base) }),
        _ => None,
    }
}

} // verus!

verus! {

/// Whether a completed rclone operation proves the remote answered.
#[derive(Debug, Clone, Copy, PartialEq, Eq, Structural)]
pub enum Reach {
    Online,
    Offline,
}

/// The verdict of an rclone exit code: 0 (success), 3 (directory not found),
/// 4 (file not found) and 9 (nothing transferred) mean the remote answered;
/// every other code, and a missing one (killed, timed out), does not.
pub fn reach_from_code(code: Option<i32>) -> (r: Reach)
    ensures
        r == (if code == Some(0i32) || code == Some(3i32) || code == Some(4i32) || code == Some(9i32) {
            Reach::Online
        } else {
            Reach::Offline
        }),
{
    match code {
        Some(0) | Some(3) | Some(4) | Some(9) => Reach::Online,
        _ => Reach::Offline,
    }
}

/// The text `String::from_utf8_lossy` decodes from `b`.
pub uninterp spec fn spec_utf8_lossy(b: Seq<u8>) -> Seq<char>;

/// `String::from_utf8_lossy`.
///
/// Trusted: the decoded text is named by [`spec_utf8_lossy`]; of it only what
/// the documentation states for valid UTF-8 is claimed, and only for ASCII
/// input, where each byte decodes to the character with that code.
#[verifier::external_body]
pub(crate) fn utf8_lossy(b: &[u8]) -> (r: String)
    ensures
        r@ == spec_utf8_lossy(b@),
        (forall|i: int| 0 <= i < b@.len() ==> #[trigger] b@[i] < 128) ==> r@ == Seq::new(
            b@.len(),
            |i: int| b@[i] as char,
        ),
{
    String::from_utf8_lossy(b).into_owned()
}

/// The part of `t` after its last newline (all of `t` without one).
pub open spec fn last_line(t: Seq<char>) -> Seq<char> {
    match rindex_of(t, '\n') {
        Some(k) => t.subrange(k + 1, t.len() as int),
        None => t,
    }
}

/// The last non-empty line of a diagnostic text, trimmed; `None` when the
/// text is blank.
pub open spec fn spec_stderr_tail(s: Seq<char>) -> Option<Seq<char>> {
    let t = trim(s);
    if t.len() == 0 {
        None
    } else {
        Some(trim(last_line(t)))
    }
}

/// The view of an optional string.
pub open spec fn opt_view(o: Option<String>) -> Option<Seq<char>> {
    match o {
        Some(s) => Some(s@),
        None => None,
    }
}

/// The last non-empty line of `s`, trimmed.
pub fn stderr_tail_text(s: &str) -> (r: Option<String>)
    ensures
        opt_view(r) == spec_stderr_tail(s@),
{
    let t = trim_exec(&chars_of(s));
    if t.len() == 0 {
        return None;
    }
    let line = match rindex_of_exec(&t, '\n') {
        Some(k) => slice_vec(&t, k + 1, t.len()),
        None => slice_vec(&t, 0, t.len()),
    };
    assert(line@ =~= last_line(t@));
    Some(string_of(&trim_exec(&line)))
}

/// The last non-empty line of rclone's standard error, for the Offline
/// diagnostic.
pub fn stderr_tail(stderr: &[u8]) -> (r: Option<String>)
    ensures
        opt_view(r) == spec_stderr_tail(spec_utf8_lossy(stderr@)),
{
    let s = utf8_lossy(stderr);
    stderr_tail_text(s.as_str())
}

/// The result of reading one object with `rclone cat`.
pub enum CatOutcome {
    /// The object's contents.
    Found(String),
    /// The remote answered: the object or its directory is not there.
    NotFound,
    /// No definite answer: connection error, timeout, spawn failure.
    Unreachable,
}

/// Classify a finished `rclone cat` from its exit code (`None` when the
/// process was killed, timed out or never started) and its standard output.
pub fn cat_outcome_from(code: Option<i32>, stdout: &[u8]) -> (r: CatOutcome)
    ensures
        code == Some(0i32) ==> (r matches CatOutcome::Found(s) && s@ == spec_utf8_lossy(stdout@)),
        (code == Some(3i32) || code == Some(4i32)) ==> r is NotFound,
        !(code == Some(0i32) || code == Some(3i32) || code == Some(4i32)) ==> r is Unreachable,
{
    match code {
        Some(0) => CatOutcome::Found(utf8_lossy(stdout)),
        Some(3) | Some(4) => CatOutcome::NotFound,
        _ => CatOutcome::Unreachable,
    }
}

/// The sync badge of a game: `synced` when this device made the latest cloud
/// backup or nobody has, `cloud-newer` when another device did.
pub open spec fn spec_badge(our: Seq<char>, latest: Option<Seq<char>>) -> Seq<char> {
    match latest {
        Some(id) => if id == our {
            "synced"@
        } else {
            "cloud-newer"@
        },
        None => "synced"@,
    }
}

/// The badge for a game given the device id of its latest backer.
pub fn compute_badge(our_device_id: &str, latest_backer: Option<&str>) -> (r: &'static str)
    ensures
        r@ == spec_badge(our_device_id@, match latest_backer {
            Some(s) => Some(s@),
            None => None,
        }),
{
    match latest_backer {
        Some(id) => if eq_exec(&chars_of(id), &chars_of(our_device_id)) {
            "synced"
        } else {
            "cloud-newer"
        },
        None => "synced",
    }
}

} // verus!

verus! {

/// The state a session marker records.
#[derive(Debug, Clone, Copy, PartialEq, Eq, Structural)]
pub enum SessionState {
    /// A game is being played right now on the owning device.
    Active,
    /// The session ended but its saves are not in the cloud yet.
    PendingBackup,
}

impl Default for SessionState {
    /// A marker without a state is treated as having unsynced saves.
    fn default() -> (r: SessionState)
        ensures
            r == SessionState::PendingBackup,
    {
        SessionState::PendingBackup
    }
}

/// A device's session marker for one game.
pub struct SessionMarker {
    /// The plaintext name, which guards against a digest collision on read.
    pub game_name: String,
    pub device_id: String,
    pub device_name: String,
    pub started_at: String,
    /// Bumped by the heartbeat; staleness is measured from it.
    pub updated_at: String,
    pub state: SessionState,
    /// A suspended device's marker never goes stale.
    pub suspended: bool,
}

impl Default for SessionMarker {
    fn default() -> (r: SessionMarker)
        ensures
            r.game_name@.len() == 0,
            r.device_id@.len() == 0,
            r.device_name@.len() == 0,
            r.started_at@.len() == 0,
            r.updated_at@.len() == 0,
            r.state == SessionState::PendingBackup,
            !r.suspended,
    {
        SessionMarker {
            game_name: String::new(),
            device_id: String::new(),
            device_name: String::new(),
            started_at: String::new(),
            updated_at: String::new(),
            state: SessionState::PendingBackup,
            suspended: false,
        }
    }
}

/// What a peer's marker means for our launch.
pub enum SessionClass {
    /// Proceed: no marker, our own marker, an override, or cloud off.
    Free,
    /// Another device is playing right now.
    ActiveElsewhere { device_name: String },
    /// Another device has a session whose saves are not in the cloud yet.
    UnsyncedElsewhere { device_name: String },
}

/// The verdict on a peer's marker.
#[derive(Debug, Clone, Copy, PartialEq, Eq, Structural)]
pub enum Decision {
    Proceed,
    ActiveElsewhere,
    UnsyncedElsewhere,
}

/// The Unix seconds of an RFC 3339 text, if it parses.
pub open spec fn spec_ts(s: Seq<char>) -> Option<i64> {
    match spec_rfc3339(s) {
        Some(t) => Some(t.0),
        None => None,
    }
}

/// Parse an RFC 3339 timestamp to Unix seconds.
pub fn parse_ts(s: &str) -> (r: Option<i64>)
    ensures
        r == spec_ts(s@),
{
    match crate::time::parse_rfc3339(s) {
        Some(t) => Some(t.0),
        None => None,
    }
}

/// The verdict on `marker` for device `our` at `now`, given the Unix seconds
/// `updated` of the marker's last heartbeat (`None` when it does not parse).
///
/// No marker, an override, or our own marker: proceed. Otherwise a live,
/// unsuspended `Active` marker whose heartbeat is less than
/// [`ACTIVE_STALE_SECS`] old means the game is being played elsewhere; any
/// other marker (pending backup, suspended, stale) means unsynced saves
/// elsewhere.
pub open spec fn spec_decision(
    marker: Option<SessionMarker>,
    our: Seq<char>,
    now: i64,
    steal: bool,
    updated: Option<i64>,
) -> Decision {
    match marker {
        None => Decision::Proceed,
        Some(m) => if steal || m.device_id@ == our {
            Decision::Proceed
        } else if m.state == SessionState::Active && !m.suspended && (updated matches Some(t)
            && now - t < ACTIVE_STALE_SECS) {
            Decision::ActiveElsewhere
        } else {
            Decision::UnsyncedElsewhere
        },
    }
}

/// The verdict on a peer's marker, with the marker's heartbeat already parsed
/// to Unix seconds.
pub fn classify_with_ts(
    marker: Option<&SessionMarker>,
    our_device_id: &str,
    now_ts: i64,
    steal: bool,
    updated_ts: Option<i64>,
) -> (r: Decision)
    ensures
        r == spec_decision(
            match marker {
                Some(m) => Some(*m),
                None => None,
            },
            our_device_id@,
            now_ts,
            steal,
            updated_ts,
        ),
{
    let m = match marker {
        None => return Decision::Proceed,
        Some(m) => m,
    };
    if steal || eq_exec(&chars_of(m.device_id.as_str()), &chars_of(our_device_id)) {
        return Decision::Proceed;
    }
    let fresh = !m.suspended && match updated_ts {
        Some(t) => (now_ts as i128) - (t as i128) < (ACTIVE_STALE_SECS as i128),
        None => false,
    };
    if m.state == SessionState::Active && fresh {
        Decision::ActiveElsewhere
    } else {
        Decision::UnsyncedElsewhere
    }
}

/// The verdict on a peer's marker (see [`spec_decision`]); its heartbeat is
/// parsed as RFC 3339.
pub fn classify(
    marker: Option<&SessionMarker>,
    our_device_id: &str,
    now_ts: i64,
    steal: bool,
) -> (r: Decision)
    ensures
        r == spec_decision(
            match marker {
                Some(m) => Some(*m),
                None => None,
            },
            our_device_id@,
            now_ts,
            steal,
            match marker {
                Some(m) => spec_ts(m.updated_at@),
                None => None,
            },
        ),
{
    let updated = match marker {
        Some(m) => parse_ts(m.updated_at.as_str()),
        None => None,
    };
    classify_with_ts(marker, our_device_id, now_ts, steal, updated)
}

/// The session class a verdict yields: the peer is named by the
/// marker's device name, or "another device" without a marker.
pub fn session_class_for(decision: Decision, marker: Option<&SessionMarker>) -> (r: SessionClass)
    ensures
        decision == Decision::Proceed ==> r is Free,
        decision == Decision::ActiveElsewhere ==> (r matches SessionClass::ActiveElsewhere {
            device_name,
        } && device_name@ == peer_name(marker)),
        decision == Decision::UnsyncedElsewhere ==> (r matches SessionClass::UnsyncedElsewhere {
            device_name,
        } && device_name@ == peer_name(marker)),
{
    let name = match marker {
        Some(m) => m.device_name.clone(),
        None => string_of(&chars_of("another device")),
    };
    match decision {
        Decision::Proceed => SessionClass::Free,
        Decision::ActiveElsewhere => SessionClass::ActiveElsewhere { device_name: name },
        Decision::UnsyncedElsewhere => SessionClass::UnsyncedElsewhere { device_name: name },
    }
}

/// The name a peer is reported by.
pub open spec fn peer_name(marker: Option<&SessionMarker>) -> Seq<char> {
    match marker {
        Some(m) => m.device_name@,
        None => "another device"@,
    }
}

/// A marker may be deleted or overwritten by `device_id` when there is none
/// or it is that device's own: a peer that took the session over owns it.
pub fn marker_is_ours(marker: Option<&SessionMarker>, device_id: &str) -> (r: bool)
    ensures
        r == match marker {
            Some(m) => m.device_id@ == device_id@,
            None => true,
        },
{
    match marker {
        Some(m) => eq_exec(&chars_of(m.device_id.as_str()), &chars_of(device_id)),
        None => true,
    }
}

/// A marker read back under a game's digest is used only when it names that
/// game.
pub fn marker_for_game(marker: Option<SessionMarker>, game_name: &str) -> (r: Option<SessionMarker>)
    ensures
        r == match marker {
            Some(m) => if m.game_name@ == game_name@ {
                Some(m)
            } else {
                None
            },
            None => None,
        },
{
    match marker {
        Some(m) => if eq_exec(&chars_of(m.game_name.as_str()), &chars_of(game_name)) {
            Some(m)
        } else {
            None
        },
        None => None,
    }
}

/// A fresh marker started and updated at `now`.
pub fn build_marker(
    game_name: &str,
    device_id: &str,
    device_name: &str,
    state: SessionState,
    suspended: bool,
    now: &str,
) -> (r: SessionMarker)
    ensures
        r.game_name@ == game_name@,
        r.device_id@ == device_id@,
        r.device_name@ == device_name@,
        r.started_at@ == now@,
        r.updated_at@ == now@,
        r.state == state,
        r.suspended == suspended,
{
    SessionMarker {
        game_name: string_of(&chars_of(game_name)),
        device_id: string_of(&chars_of(device_id)),
        device_name: string_of(&chars_of(device_name)),
        started_at: string_of(&chars_of(now)),
        updated_at: string_of(&chars_of(now)),
        state,
        suspended,
    }
}

} // verus!

verus! {

/// The map a list of `(key, value)` entries denotes: a later entry for a key
/// overrides an earlier one.
pub open spec fn entry_map<V>(v: Seq<(String, V)>) -> Map<Seq<char>, V>
    decreases v.len(),
{
    if v.len() == 0 {
        Map::empty()
    } else {
        entry_map(v.drop_last()).insert(v.last().0@, v.last().1)
    }
}

/// The entries of `v`, in order, except those for `key`.
pub fn remove_key<V>(v: Vec<(String, V)>, key: &str) -> (r: Vec<(String, V)>)
    ensures
        entry_map(r@) == entry_map(v@).remove(key@),
{
    let k = chars_of(key);
    let mut rest = v;
    let total = rest.len();
    let ghost v0 = rest@;
    let mut out: Vec<(String, V)> = Vec::new();
    let mut n: usize = 0;
    while rest.len() > 0
        invariant
            n <= v0.len(),
            rest@ == v0.skip(n as int),
            entry_map(out@) == entry_map(v0.take(n as int)).remove(k@),
            k@ == key@,
            v0.len() == total,
        decreases rest.len(),
    {
        let x = rest.remove(0);
        assert(v0.take(n + 1).drop_last() =~= v0.take(n as int));
        assert(v0.take(n + 1).last() == x);
        assert(rest@ =~= v0.skip(n + 1));
        if eq_exec(&chars_of(x.0.as_str()), &k) {
            assert(entry_map(v0.take(n + 1)).remove(k@) =~= entry_map(v0.take(n as int)).remove(k@));
        } else {
            let ghost xk = x.0@;
            let ghost xv = x.1;
            let ghost old_out = out@;
            out.push(x);
            assert(out@.drop_last() =~= old_out);
            assert(xk != k@);
            assert(entry_map(out@) == entry_map(old_out).insert(xk, xv));
            assert(entry_map(v0.take(n + 1)) == entry_map(v0.take(n as int)).insert(xk, xv));
            assert(entry_map(out@) =~= entry_map(v0.take(n + 1)).remove(k@));
        }
        n += 1;
    }
    assert(v0.take(n as int) =~= v0);
    out
}

/// Set `key` to `value`, keeping every other entry.
pub fn upsert<V>(v: Vec<(String, V)>, key: &str, value: V) -> (r: Vec<(String, V)>)
    ensures
        entry_map(r@) == entry_map(v@).insert(key@, value),
{
    let mut r = remove_key(v, key);
    let ghost before = r@;
    r.push((string_of(&chars_of(key)), value));
    assert(r@.drop_last() =~= before);
    assert(entry_map(r@) =~= entry_map(v@).insert(key@, value));
    r
}

/// The value `v` maps `key` to.
pub fn lookup<'a, V>(v: &'a Vec<(String, V)>, key: &str) -> (r: Option<&'a V>)
    ensures
        r is Some <==> entry_map(v@).dom().contains(key@),
        r matches Some(x) ==> *x == entry_map(v@)[key@],
{
    let k = chars_of(key);
    let mut j = v.len();
    assert(v@.take(j as int) =~= v@);
    while j > 0
        invariant
            j <= v.len(),
            k@ == key@,
            entry_map(v@).dom().contains(key@) == entry_map(v@.take(j as int)).dom().contains(key@),
            entry_map(v@).dom().contains(key@) ==> entry_map(v@)[key@] == entry_map(
                v@.take(j as int),
            )[key@],
        decreases j,
    {
        assert(v@.take(j as int).drop_last() =~= v@.take(j - 1));
        if eq_exec(&chars_of(v[j - 1].0.as_str()), &k) {
            return Some(&v[j - 1].1);
        }
        j -= 1;
    }
    None
}

/// A device's cross-device record: its name, and per game the minutes played
/// on it, when it last played and when it last uploaded saves.
pub struct DeviceBlob {
    pub device_name: String,
    /// Game name to minutes accrued on this device.
    pub playtime: Vec<(String, i64)>,
    /// Game name to RFC 3339 instant of this device's last play.
    pub last_played: Vec<(String, String)>,
    /// Game name to RFC 3339 instant of this device's last cloud upload.
    pub backups: Vec<(String, String)>,
    pub schema: u32,
}

impl Default for DeviceBlob {
    fn default() -> (r: DeviceBlob)
        ensures
            r.device_name@.len() == 0,
            r.playtime@.len() == 0,
            r.last_played@.len() == 0,
            r.backups@.len() == 0,
            r.schema == 0,
    {
        DeviceBlob {
            device_name: String::new(),
            playtime: Vec::new(),
            last_played: Vec::new(),
            backups: Vec::new(),
            schema: 0,
        }
    }
}

impl DeviceBlob {
    /// The schema version the blob was written with.
    pub fn stored_schema(&self) -> (r: u32)
        ensures
            r == self.schema,
    {
        self.schema
    }
}

/// A device's full play-session history, one serialized session per entry.
pub struct HistoryBlob {
    pub device_name: String,
    pub sessions: Vec<String>,
    pub schema: u32,
}

impl Default for HistoryBlob {
    fn default() -> (r: HistoryBlob)
        ensures
            r.device_name@.len() == 0,
            r.sessions@.len() == 0,
            r.schema == 0,
    {
        HistoryBlob { device_name: String::new(), sessions: Vec::new(), schema: 0 }
    }
}

impl HistoryBlob {
    /// The schema version the blob was written with.
    pub fn stored_schema(&self) -> (r: u32)
        ensures
            r == self.schema,
    {
        self.schema
    }
}

/// The schema version this build writes device blobs with.
pub const DEVICE_SCHEMA: u32 = 1;

/// The blob a read-modify-write of this device's record starts from: an empty
/// one when the stored blob is missing or unreadable (`None`), the stored one
/// when this build understands its schema, and nothing (skip the update, so a
/// newer build's blob is not downgraded) otherwise.
pub fn device_blob_base(fetched: Option<DeviceBlob>, cap: u32) -> (r: Option<DeviceBlob>)
    ensures
        fetched is None ==> (r matches Some(b) && b.device_name@.len() == 0 && b.playtime@.len()
            == 0 && b.last_played@.len() == 0 && b.backups@.len() == 0 && b.schema == 0),
        fetched matches Some(f) ==> if f.schema <= cap {
            r == Some(f)
        } else {
            r is None
        },
{
    match fetched {
        None => Some(DeviceBlob::default()),
        Some(b) => if b.schema <= cap {
            Some(b)
        } else {
            None
        },
    }
}

/// The minutes a session adds to the playtime total: negative lengths count
/// as nothing.
pub open spec fn session_delta(session_minutes: i32) -> int {
    if session_minutes > 0 {
        session_minutes as int
    } else {
        0
    }
}

/// The playtime recorded for `game`, zero when none.
pub open spec fn played(m: Map<Seq<char>, i64>, game: Seq<char>) -> int {
    if m.dom().contains(game) {
        m[game] as int
    } else {
        0
    }
}

/// Record a finished session in this device's blob: its name, the session's
/// minutes (when positive) added to the game's total, and the session's end
/// as the game's last play. The blob is stamped with `cap` as its schema.
pub fn record_session_in(
    blob: &mut DeviceBlob,
    device_name: String,
    game_name: &str,
    session_minutes: i32,
    session_end: String,
    cap: u32,
)
    requires
        played(entry_map(old(blob).playtime@), game_name@) + session_delta(session_minutes)
            <= i64::MAX,
    ensures
        final(blob).device_name == device_name,
        final(blob).schema == cap,
        final(blob).backups == old(blob).backups,
        entry_map(final(blob).last_played@) == entry_map(old(blob).last_played@).insert(
            game_name@,
            session_end,
        ),
        session_delta(session_minutes) > 0 ==> entry_map(final(blob).playtime@) == entry_map(
            old(blob).playtime@,
        ).insert(
            game_name@,
            (played(entry_map(old(blob).playtime@), game_name@) + session_delta(
                session_minutes,
            )) as i64,
        ),
        session_delta(session_minutes) == 0 ==> final(blob).playtime == old(blob).playtime,
{
    blob.device_name = device_name;
    if session_minutes > 0 {
        let cur: i64 = match lookup(&blob.playtime, game_name) {
            Some(x) => *x,
            None => 0,
        };
        let total = cur + (session_minutes as i64);
        let mut pt = Vec::new();
        std::mem::swap(&mut pt, &mut blob.playtime);
        blob.playtime = upsert(pt, game_name, total);
    }
    let mut lp = Vec::new();
        std::mem::swap(&mut lp, &mut blob.last_played);
    blob.last_played = upsert(lp, game_name, session_end);
    blob.schema = cap;
}

/// Record a successful cloud upload of `game_name`'s saves at `now` in this
/// device's blob, stamped with `cap` as its schema.
pub fn record_backup_in(blob: &mut DeviceBlob, device_name: String, game_name: &str, now: String, cap: u32)
    ensures
        final(blob).device_name == device_name,
        final(blob).schema == cap,
        final(blob).playtime == old(blob).playtime,
        final(blob).last_played == old(blob).last_played,
        entry_map(final(blob).backups@) == entry_map(old(blob).backups@).insert(game_name@, now),
{
    blob.device_name = device_name;
    let mut b = Vec::new();
        std::mem::swap(&mut b, &mut blob.backups);
    blob.backups = upsert(b, game_name, now);
    blob.schema = cap;
}

} // verus!

verus! {

/// Folded cross-device backup state of one game: the device that made the
/// latest cloud backup, that backup's Unix seconds, the device's display name,
/// and the backup's RFC 3339 text.
pub struct Folded {
    pub latest_backer: Option<String>,
    pub latest_backup_ts: Option<i64>,
    pub latest_backer_name: Option<String>,
    pub latest_backup_raw: Option<String>,
}

/// The view of a [`Folded`].
pub type FoldedView = (Option<Seq<char>>, Option<i64>, Option<Seq<char>>, Option<Seq<char>>);

pub open spec fn folded_view(f: Folded) -> FoldedView {
    (opt_view(f.latest_backer), f.latest_backup_ts, opt_view(f.latest_backer_name), opt_view(f.latest_backup_raw))
}

/// One recorded backup: (game, RFC 3339 instant, device id, device display name).
pub type BackupEvent = (Seq<char>, Seq<char>, Seq<char>, Seq<char>);

/// The name a device is shown by: its recorded name, or its id when blank.
pub open spec fn display_name(device_id: Seq<char>, device_name: Seq<char>) -> Seq<char> {
    if device_name.len() == 0 {
        device_id
    } else {
        device_name
    }
}

/// The backups one device blob records, in order.
pub open spec fn blob_events(device_id: Seq<char>, b: DeviceBlob) -> Seq<BackupEvent> {
    Seq::new(
        b.backups@.len(),
        |i: int|
            (b.backups@[i].0@, b.backups@[i].1@, device_id, display_name(device_id, b.device_name@)),
    )
}

/// The backups of all blobs, blob by blob.
pub open spec fn all_events(blobs: Seq<(String, DeviceBlob)>) -> Seq<BackupEvent>
    decreases blobs.len(),
{
    if blobs.len() == 0 {
        Seq::empty()
    } else {
        all_events(blobs.drop_last()) + blob_events(blobs.last().0@, blobs.last().1)
    }
}

/// One backup folded into a game's state: it becomes the latest when its
/// instant parses and is strictly later than the current latest (or there is
/// none yet).
pub open spec fn step_entry(cur: FoldedView, e: BackupEvent) -> FoldedView {
    match spec_ts(e.1) {
        Some(p) => if cur.1 is None || p > cur.1->0 {
            (Some(e.2), Some(p), Some(e.3), Some(e.1))
        } else {
            cur
        },
        None => cur,
    }
}

/// The state of a game not yet seen.
pub open spec fn empty_folded() -> FoldedView {
    (None, None, None, None)
}

/// One backup folded into the per-game map; a game is entered even when its
/// instant does not parse.
pub open spec fn fold_step(m: Map<Seq<char>, FoldedView>, e: BackupEvent) -> Map<
    Seq<char>,
    FoldedView,
> {
    let cur = if m.dom().contains(e.0) {
        m[e.0]
    } else {
        empty_folded()
    };
    m.insert(e.0, step_entry(cur, e))
}

/// The per-game state after folding `ev` in order.
pub open spec fn fold_events(ev: Seq<BackupEvent>) -> Map<Seq<char>, FoldedView>
    decreases ev.len(),
{
    if ev.len() == 0 {
        Map::empty()
    } else {
        fold_step(fold_events(ev.drop_last()), ev.last())
    }
}

/// The map a list of folded entries denotes.
pub open spec fn folded_map(v: Seq<(String, Folded)>) -> Map<Seq<char>, FoldedView>
    decreases v.len(),
{
    if v.len() == 0 {
        Map::empty()
    } else {
        folded_map(v.drop_last()).insert(v.last().0@, folded_view(v.last().1))
    }
}

/// No key occurs twice.
pub open spec fn unique_keys<V>(v: Seq<(String, V)>) -> bool {
    forall|i: int, j: int| 0 <= i < j < v.len() ==> v[i].0@ != v[j].0@
}

proof fn lemma_folded_get(v: Seq<(String, Folded)>, j: int)
    requires
        unique_keys(v),
        0 <= j < v.len(),
    ensures
        folded_map(v).dom().contains(v[j].0@),
        folded_map(v)[v[j].0@] == folded_view(v[j].1),
    decreases v.len(),
{
    if j < v.len() - 1 {
        let d = v.drop_last();
        assert(d[j] == v[j]);
        lemma_folded_get(d, j);
        assert(v.last().0@ != v[j].0@);
    }
}

proof fn lemma_folded_absent(v: Seq<(String, Folded)>, k: Seq<char>)
    requires
        forall|j: int| 0 <= j < v.len() ==> v[j].0@ != k,
    ensures
        !folded_map(v).dom().contains(k),
    decreases v.len(),
{
    if v.len() > 0 {
        let d = v.drop_last();
        assert forall|j: int| 0 <= j < d.len() implies d[j].0@ != k by {
            assert(d[j] == v[j]);
        }
        lemma_folded_absent(d, k);
        assert(v[v.len() - 1].0@ != k);
    }
}

proof fn lemma_folded_update(v: Seq<(String, Folded)>, j: int, x: (String, Folded))
    requires
        unique_keys(v),
        0 <= j < v.len(),
        x.0@ == v[j].0@,
    ensures
        folded_map(v.update(j, x)) == folded_map(v).insert(x.0@, folded_view(x.1)),
    decreases v.len(),
{
    let u = v.update(j, x);
    if j == v.len() - 1 {
        assert(u.drop_last() =~= v.drop_last());
        assert(folded_map(u) =~= folded_map(v).insert(x.0@, folded_view(x.1)));
    } else {
        let d = v.drop_last();
        assert(u.drop_last() =~= d.update(j, x));
        assert(d[j] == v[j]);
        lemma_folded_update(d, j, x);
        assert(v.last().0@ != v[j].0@);
        assert(folded_map(u) =~= folded_map(v).insert(x.0@, folded_view(x.1)));
    }
}

/// The folded entry `v` holds for `game`.
pub fn lookup_folded<'a>(v: &'a Vec<(String, Folded)>, game: &str) -> (r: Option<&'a Folded>)
    requires
        unique_keys(v@),
    ensures
        r is Some <==> folded_map(v@).dom().contains(game@),
        r matches Some(f) ==> folded_view(*f) == folded_map(v@)[game@],
{
    match find_game(v, game) {
        Some(j) => {
            proof {
                lemma_folded_get(v@, j as int);
            }
            Some(&v[j].1)
        },
        None => {
            proof {
                lemma_folded_absent(v@, game@);
            }
            None
        },
    }
}

fn find_game(v: &Vec<(String, Folded)>, game: &str) -> (r: Option<usize>)
    ensures
        r matches Some(j) ==> j < v@.len() && v@[j as int].0@ == game@,
        r is None ==> forall|j: int| 0 <= j < v@.len() ==> v@[j].0@ != game@,
{
    let g = chars_of(game);
    let mut j: usize = 0;
    while j < v.len()
        invariant
            j <= v.len(),
            g@ == game@,
            forall|i: int| 0 <= i < j ==> v@[i].0@ != game@,
        decreases v.len() - j,
    {
        if eq_exec(&chars_of(v[j].0.as_str()), &g) {
            return Some(j);
        }
        j += 1;
    }
    None
}

fn copy_folded(f: &Folded) -> (r: Folded)
    ensures
        folded_view(r) == folded_view(*f),
{
    Folded {
        latest_backer: copy_opt(&f.latest_backer),
        latest_backup_ts: f.latest_backup_ts,
        latest_backer_name: copy_opt(&f.latest_backer_name),
        latest_backup_raw: copy_opt(&f.latest_backup_raw),
    }
}

fn step_folded(cur: Folded, ts: &str, device_id: &str, name: &str) -> (r: Folded)
    ensures
        folded_view(r) == step_entry(folded_view(cur), (Seq::empty(), ts@, device_id@, name@)),
{
    match parse_ts(ts) {
        Some(p) => {
            let newer = match cur.latest_backup_ts {
                None => true,
                Some(c) => p > c,
            };
            if newer {
                Folded {
                    latest_backer: Some(string_of(&chars_of(device_id))),
                    latest_backup_ts: Some(p),
                    latest_backer_name: Some(string_of(&chars_of(name))),
                    latest_backup_raw: Some(string_of(&chars_of(ts))),
                }
            } else {
                cur
            }
        },
        None => cur,
    }
}

/// Fold the device blobs (each with its device id) into every game's latest
/// cloud backup, the basis of the sync badge: per game, the backup with the
/// strictly latest parseable instant wins, the first one on a tie; a game
/// whose instants do not parse is present with nothing known.
pub fn fold_device_totals(blobs: &Vec<(String, DeviceBlob)>) -> (r: Vec<(String, Folded)>)
    ensures
        unique_keys(r@),
        folded_map(r@) == fold_events(all_events(blobs@)),
{
    let mut out: Vec<(String, Folded)> = Vec::new();
    let mut i: usize = 0;
    while i < blobs.len()
        invariant
            i <= blobs.len(),
            unique_keys(out@),
            folded_map(out@) == fold_events(all_events(blobs@.take(i as int))),
        decreases blobs.len() - i,
    {
        let dev = &blobs[i].0;
        let blob = &blobs[i].1;
        let name = if blob.device_name.as_str().is_empty() {
            dev.clone()
        } else {
            blob.device_name.clone()
        };
        proof {
            assert(blobs@.take(i + 1).drop_last() =~= blobs@.take(i as int));
        }
        let ghost base = all_events(blobs@.take(i as int));
        let ghost evs = blob_events(dev@, *blob);
        assert(all_events(blobs@.take(i + 1)) == base + evs);
        assert(name@ == display_name(dev@, blob.device_name@));
        let mut k: usize = 0;
        assert(base + evs.take(0) =~= base);
        while k < blob.backups.len()
            invariant
                k <= blob.backups.len(),
                evs == blob_events(dev@, *blob),
                name@ == display_name(dev@, blob.device_name@),
                unique_keys(out@),
                folded_map(out@) == fold_events(base + evs.take(k as int)),
            decreases blob.backups.len() - k,
        {
            let game = &blob.backups[k].0;
            let ts = &blob.backups[k].1;
            let ghost e = evs[k as int];
            assert((base + evs.take(k + 1)).drop_last() =~= base + evs.take(k as int));
            assert((base + evs.take(k + 1)).last() == e);
            let ghost m = folded_map(out@);
            match find_game(&out, game.as_str()) {
                Some(j) => {
                    proof {
                        lemma_folded_get(out@, j as int);
                    }
                    let cur = copy_folded(&out[j].1);
                    let next = step_folded(cur, ts.as_str(), dev.as_str(), name.as_str());
                    assert(folded_view(next) == step_entry(m[e.0], e));
                    let entry = (string_of(&chars_of(game.as_str())), next);
                    proof {
                        lemma_folded_update(out@, j as int, entry);
                    }
                    let ghost old_out = out@;
                    out.set(j, entry);
                    assert(out@ == old_out.update(j as int, entry));
                    assert(folded_map(out@) =~= fold_step(m, e));
                },
                None => {
                    proof {
                        lemma_folded_absent(out@, game@);
                    }
                    let empty = Folded {
                        latest_backer: None,
                        latest_backup_ts: None,
                        latest_backer_name: None,
                        latest_backup_raw: None,
                    };
                    let next = step_folded(empty, ts.as_str(), dev.as_str(), name.as_str());
                    let ghost old_out = out@;
                    out.push((string_of(&chars_of(game.as_str())), next));
                    assert(out@.drop_last() =~= old_out);
                    assert(folded_map(out@) =~= fold_step(m, e));
                },
            }
            k += 1;
        }
        assert(evs.take(blob.backups.len() as int) =~= evs);
        i += 1;
    }
    assert(blobs@.take(blobs.len() as int) =~= blobs@);
    out
}

/// The backer device name and cloud revision instant recorded beside a badge:
/// only `cloud-newer` carries them.
pub fn backer_for_badge(badge: &str, f: &Folded) -> (r: (Option<String>, Option<(i64, u32)>))
    ensures
        badge@ != "cloud-newer"@ ==> r.0 is None && r.1 is None,
        badge@ == "cloud-newer"@ ==> opt_view(r.0) == opt_view(f.latest_backer_name) && r.1
            == match f.latest_backup_raw {
            Some(s) => spec_rfc3339(s@),
            None => None,
        },
{
    if !eq_exec(&chars_of(badge), &chars_of("cloud-newer")) {
        return (None, None);
    }
    let rev = match &f.latest_backup_raw {
        Some(s) => crate::time::parse_rfc3339(s.as_str()),
        None => None,
    };
    (copy_opt(&f.latest_backer_name), rev)
}

/// What a library entry shows of a game's cloud backup state.
pub struct BadgeFields {
    pub sync_badge: Option<String>,
    pub last_backer_device: Option<String>,
    pub cloud_revision_at: Option<(i64, u32)>,
}

/// The updates the fold makes to an entry: `Some` for each field whose folded
/// value differs from the entry's.
pub struct FieldUpdates {
    pub sync_badge: Option<&'static str>,
    pub last_backer_device: Option<Option<String>>,
    pub cloud_revision_at: Option<Option<(i64, u32)>>,
}

impl FieldUpdates {
    /// Nothing to update.
    pub fn is_empty(&self) -> (r: bool)
        ensures
            r == (self.sync_badge is None && self.last_backer_device is None && self.cloud_revision_at is None),
    {
        self.sync_badge.is_none() && self.last_backer_device.is_none() && self.cloud_revision_at.is_none()
    }
}

/// The updates that bring an entry to a badge, backer and revision time:
/// each field that differs.
pub fn field_updates(cur: &BadgeFields, badge: &'static str, backer: Option<String>, rev: Option<(i64, u32)>) -> (r: FieldUpdates)
    ensures
        opt_view(cur.sync_badge) == Some(badge@) ==> r.sync_badge is None,
        opt_view(cur.sync_badge) != Some(badge@) ==> (r.sync_badge matches Some(b) && b@ == badge@),
        opt_view(cur.last_backer_device) == opt_view(backer) ==> r.last_backer_device is None,
        opt_view(cur.last_backer_device) != opt_view(backer) ==> (r.last_backer_device matches Some(b)
            && opt_view(b) == opt_view(backer)),
        cur.cloud_revision_at == rev ==> r.cloud_revision_at is None,
        cur.cloud_revision_at != rev ==> r.cloud_revision_at == Some(rev),
{
    let badge_differs = match &cur.sync_badge {
        Some(b) => !eq_exec(&chars_of(b.as_str()), &chars_of(badge)),
        None => true,
    };
    let backer_differs = match (&cur.last_backer_device, &backer) {
        (Some(a), Some(b)) => !eq_exec(&chars_of(a.as_str()), &chars_of(b.as_str())),
        (None, None) => false,
        _ => true,
    };
    let rev_differs = match (cur.cloud_revision_at, rev) {
        (Some(a), Some(b)) => a.0 != b.0 || a.1 != b.1,
        (None, None) => false,
        _ => true,
    };
    FieldUpdates {
        sync_badge: if badge_differs {
            Some(badge)
        } else {
            None
        },
        last_backer_device: if backer_differs {
            Some(backer)
        } else {
            None
        },
        cloud_revision_at: if rev_differs {
            Some(rev)
        } else {
            None
        },
    }
}

/// The updates the cross-device fold makes to an entry for a game's folded
/// backup state: the badge from the latest backer, and the backer's name and
/// revision time behind a `cloud-newer` badge (cleared otherwise), each only
/// where it differs from the entry.
pub fn fold_fields_for(cur: &BadgeFields, f: &Folded, our_device_id: &str) -> (r: FieldUpdates)
    ensures
        ({
            let badge = spec_badge(our_device_id@, opt_view(f.latest_backer));
            let backer = if badge == "cloud-newer"@ {
                opt_view(f.latest_backer_name)
            } else {
                None
            };
            let rev = if badge == "cloud-newer"@ {
                match f.latest_backup_raw {
                    Some(s) => spec_rfc3339(s@),
                    None => None,
                }
            } else {
                None
            };
            &&& opt_view(cur.sync_badge) == Some(badge) ==> r.sync_badge is None
            &&& opt_view(cur.sync_badge) != Some(badge) ==> (r.sync_badge matches Some(b) && b@ == badge)
            &&& opt_view(cur.last_backer_device) == backer ==> r.last_backer_device is None
            &&& opt_view(cur.last_backer_device) != backer ==> (r.last_backer_device matches Some(b)
                && opt_view(b) == backer)
            &&& cur.cloud_revision_at == rev ==> r.cloud_revision_at is None
            &&& cur.cloud_revision_at != rev ==> r.cloud_revision_at == Some(rev)
        }),
{
    let latest = match &f.latest_backer {
        Some(s) => Some(s.as_str()),
        None => None,
    };
    let badge = compute_badge(our_device_id, latest);
    let (backer, rev) = backer_for_badge(badge, f);
    field_updates(cur, badge, backer, rev)
}

} // verus!

verus! {

/// An override always proceeds, whatever the marker says.
pub proof fn law_steal_always_proceeds(marker: Option<SessionMarker>, our: Seq<char>, now: i64, updated: Option<i64>)
    ensures
        spec_decision(marker, our, now, true, updated) == Decision::Proceed,
{
}

/// A device's own marker never blocks it, however stale.
pub proof fn law_own_marker_proceeds(m: SessionMarker, now: i64, steal: bool, updated: Option<i64>)
    ensures
        spec_decision(Some(m), m.device_id@, now, steal, updated) == Decision::Proceed,
{
}

/// Without an override, another device's marker always warns: the launch
/// proceeds only with no marker or our own.
pub proof fn law_peer_marker_warns(marker: Option<SessionMarker>, our: Seq<char>, now: i64, updated: Option<i64>)
    ensures
        spec_decision(marker, our, now, false, updated) == Decision::Proceed <==> (marker is None
            || marker->0.device_id@ == our),
{
}

/// A suspended or pending-backup peer marker means unsynced saves elsewhere
/// at any time: it is never taken for a live session, and never expires.
pub proof fn law_unsynced_markers_never_expire(m: SessionMarker, our: Seq<char>, now: i64, updated: Option<i64>)
    requires
        m.device_id@ != our,
        m.suspended || m.state == SessionState::PendingBackup,
    ensures
        spec_decision(Some(m), our, now, false, updated) == Decision::UnsyncedElsewhere,
{
}

/// Staleness only grows with time: a marker seen as a live session at `later`
/// was also live at any earlier moment not before its heartbeat.
pub proof fn law_liveness_decays(m: SessionMarker, our: Seq<char>, earlier: i64, later: i64, t: i64)
    requires
        t <= earlier <= later,
        spec_decision(Some(m), our, later, false, Some(t)) == Decision::ActiveElsewhere,
    ensures
        spec_decision(Some(m), our, earlier, false, Some(t)) == Decision::ActiveElsewhere,
{
}

/// After setting a key, reading it gives back the value written, and every
/// other key reads as before.
pub proof fn law_read_back_after_upsert<V>(before: Seq<(String, V)>, after: Seq<(String, V)>, key: Seq<char>, value: V)
    requires
        entry_map(after) == entry_map(before).insert(key, value),
    ensures
        entry_map(after).dom().contains(key),
        entry_map(after)[key] == value,
        forall|k: Seq<char>|
            k != key ==> (entry_map(after).dom().contains(k) == entry_map(before).dom().contains(k)
                && (entry_map(before).dom().contains(k) ==> entry_map(after)[k] == entry_map(before)[k])),
{
}

/// The cross-device fold keeps, for every game, the newest backup: a game is
/// present exactly when some backup names it; its instant is at least that of
/// every parseable backup of the game; and when it has one, it is the instant,
/// device, display name and text of one of the game's backups.
pub proof fn law_fold_keeps_newest_backup(ev: Seq<BackupEvent>, g: Seq<char>)
    ensures
        fold_events(ev).dom().contains(g) <==> exists|i: int| 0 <= i < ev.len() && (#[trigger] ev[i]).0 == g,
        forall|i: int|
            0 <= i < ev.len() && (#[trigger] ev[i]).0 == g && spec_ts(ev[i].1) is Some ==> {
                &&& fold_events(ev)[g].1 is Some
                &&& spec_ts(ev[i].1)->0 <= fold_events(ev)[g].1->0
            },
        fold_events(ev).dom().contains(g) && fold_events(ev)[g].1 is Some ==> exists|i: int|
            0 <= i < ev.len() && (#[trigger] ev[i]).0 == g && spec_ts(ev[i].1) == fold_events(ev)[g].1
                && fold_events(ev)[g] == (Some(ev[i].2), fold_events(ev)[g].1, Some(ev[i].3), Some(ev[i].1)),
        fold_events(ev).dom().contains(g) && fold_events(ev)[g].1 is None ==> (fold_events(ev)[g].0 is None
            && fold_events(ev)[g].2 is None && fold_events(ev)[g].3 is None),
    decreases ev.len(),
{
    if ev.len() > 0 {
        let d = ev.drop_last();
        let e = ev.last();
        law_fold_keeps_newest_backup(d, g);
        assert forall|i: int| 0 <= i < d.len() implies d[i] == ev[i] by {}
        let m = fold_events(d);
        if e.0 == g {
            assert(ev[ev.len() - 1] == e);
            let cur = if m.dom().contains(g) { m[g] } else { empty_folded() };
            assert(fold_events(ev)[g] == step_entry(cur, e));
            assert forall|i: int|
                0 <= i < ev.len() && (#[trigger] ev[i]).0 == g && spec_ts(ev[i].1) is Some implies {
                    &&& fold_events(ev)[g].1 is Some
                    &&& spec_ts(ev[i].1)->0 <= fold_events(ev)[g].1->0
                } by {
                if i < ev.len() - 1 {
                    assert(d[i] == ev[i]);
                }
            }
            if fold_events(ev)[g].1 is Some {
                if spec_ts(e.1) is Some && (cur.1 is None || spec_ts(e.1)->0 > cur.1->0) {
                    assert(ev[ev.len() - 1].0 == g);
                } else {
                    assert(cur.1 is Some);
                    assert(m.dom().contains(g));
                    let i = choose|i: int|
                        0 <= i < d.len() && (#[trigger] d[i]).0 == g && spec_ts(d[i].1) == m[g].1 && m[g]
                            == (Some(d[i].2), m[g].1, Some(d[i].3), Some(d[i].1));
                    assert(ev[i] == d[i]);
                }
            }
        } else {
            assert(fold_events(ev)[g] == m[g] || !m.dom().contains(g));
            assert(fold_events(ev).dom().contains(g) == m.dom().contains(g));
            if m.dom().contains(g) {
                assert(fold_events(ev)[g] == m[g]);
            }
            assert forall|i: int|
                0 <= i < ev.len() && (#[trigger] ev[i]).0 == g && spec_ts(ev[i].1) is Some implies {
                    &&& fold_events(ev)[g].1 is Some
                    &&& spec_ts(ev[i].1)->0 <= fold_events(ev)[g].1->0
                } by {
                assert(i < ev.len() - 1);
                assert(d[i] == ev[i]);
            }
            if fold_events(ev).dom().contains(g) && fold_events(ev)[g].1 is Some {
                let i = choose|i: int|
                    0 <= i < d.len() && (#[trigger] d[i]).0 == g && spec_ts(d[i].1) == m[g].1 && m[g]
                        == (Some(d[i].2), m[g].1, Some(d[i].3), Some(d[i].1));
                assert(ev[i] == d[i]);
            }
            if exists|i: int| 0 <= i < ev.len() && (#[trigger] ev[i]).0 == g {
                let i = choose|i: int| 0 <= i < ev.len() && (#[trigger] ev[i]).0 == g;
                assert(i < ev.len() - 1);
                assert(d[i] == ev[i]);
            }
        }
    }
}

} // verus!

verus! {

/// The status a finished operation reports: online, or offline with its
/// diagnostic.
pub fn status_for_reach(reach: Reach, err: Option<String>) -> (r: SyncStatus)
    ensures
        reach == Reach::Online ==> r.reachability == SyncReachability::Online && r.error is None,
        reach == Reach::Offline ==> r.reachability == SyncReachability::Offline && r.error == err,
        r.server_version is None,
        r.last_ok_ago_secs is None,
{
    match reach {
        Reach::Online => SyncStatus {
            reachability: SyncReachability::Online,
            server_version: None,
            error: None,
            last_ok_ago_secs: None,
        },
        Reach::Offline => SyncStatus {
            reachability: SyncReachability::Offline,
            server_version: None,
            error: err,
            last_ok_ago_secs: None,
        },
    }
}

/// The status of the explicit reachability probe: unconfigured without a
/// remote, online when `rclone lsd` succeeded, offline with its error.
pub fn probe_status(probe: Option<Result<(), String>>) -> (r: SyncStatus)
    ensures
        probe is None ==> r.reachability == SyncReachability::Unconfigured && r.error is None,
        probe matches Some(Ok(_)) ==> r.reachability == SyncReachability::Online && r.error is None,
        probe matches Some(Err(e)) ==> r.reachability == SyncReachability::Offline && r.error == Some(e),
        r.server_version is None,
        r.last_ok_ago_secs is None,
{
    match probe {
        None => SyncStatus::default(),
        Some(Ok(())) => status_for_reach(Reach::Online, None),
        Some(Err(e)) => status_for_reach(Reach::Offline, Some(e)),
    }
}

/// Two optional texts are equal.
fn opt_eq(a: &Option<String>, b: &Option<String>) -> (r: bool)
    ensures
        r == (opt_view(*a) == opt_view(*b)),
{
    match (a, b) {
        (Some(x), Some(y)) => eq_exec(&chars_of(x.as_str()), &chars_of(y.as_str())),
        (None, None) => true,
        _ => false,
    }
}

impl SyncStatusState {
    /// Store a freshly observed status at `now`: a success is recorded as the
    /// last success. Returns whether the reachability or the error changed
    /// (the frontend is told only then).
    pub fn apply_status(&mut self, new_status: SyncStatus, now: u64) -> (r: bool)
        ensures
            r == (old(self).status().reachability != new_status.reachability || opt_view(
                old(self).status().error,
            ) != opt_view(new_status.error)),
            final(self).status() == new_status,
            final(self).last_ok() == if new_status.reachability == SyncReachability::Online {
                Some(now)
            } else {
                old(self).last_ok()
            },
    {
        if new_status.reachability == SyncReachability::Online {
            self.mark_ok(now);
        }
        let changed = self.status.reachability != new_status.reachability || !opt_eq(
            &self.status.error,
            &new_status.error,
        );
        self.set(new_status);
        changed
    }
}

/// The rclone backend type and remote name of an OAuth provider of the UI.
pub open spec fn spec_oauth_remote(provider: Seq<char>) -> Option<(Seq<char>, Seq<char>)> {
    if provider == "google-drive"@ {
        Some(("drive"@, "GoogleDrive"@))
    } else if provider == "dropbox"@ {
        Some(("dropbox"@, "Dropbox"@))
    } else if provider == "onedrive"@ {
        Some(("onedrive"@, "OneDrive"@))
    } else if provider == "box"@ {
        Some(("box"@, "Box"@))
    } else {
        None
    }
}

/// Maps a UI provider to `(rclone type, remote name)`; `None` for providers
/// that do not use OAuth.
pub fn oauth_remote(provider: &str) -> (r: Option<(&'static str, &'static str)>)
    ensures
        match r {
            Some((t, n)) => spec_oauth_remote(provider@) == Some((t@, n@)),
            None => spec_oauth_remote(provider@) is None,
        },
{
    let p = chars_of(provider);
    if eq_exec(&p, &chars_of("google-drive")) {
        Some(("drive", "GoogleDrive"))
    } else if eq_exec(&p, &chars_of("dropbox")) {
        Some(("dropbox", "Dropbox"))
    } else if eq_exec(&p, &chars_of("onedrive")) {
        Some(("onedrive", "OneDrive"))
    } else if eq_exec(&p, &chars_of("box")) {
        Some(("box", "Box"))
    } else {
        None
    }
}

/// The remote to create for an OAuth provider, or the error shown for a
/// provider that does not use OAuth:
/// `'<provider>' does not use OAuth (use WebDAV form or configure rclone manually)`.
pub fn oauth_remote_for(provider: &str) -> (r: Result<(&'static str, &'static str), AppError>)
    ensures
        match r {
            Ok((t, n)) => spec_oauth_remote(provider@) == Some((t@, n@)),
            Err(AppError::Other(m)) => spec_oauth_remote(provider@) is None && m@ == "'"@ + provider@
                + "' does not use OAuth (use WebDAV form or configure rclone manually)"@,
            Err(AppError::LockPoisoned) => false,
        },
{
    match oauth_remote(provider) {
        Some(p) => Ok(p),
        None => Err(AppError::Other(string_of(&concat3(
            &chars_of("'"),
            &chars_of(provider),
            &chars_of("' does not use OAuth (use WebDAV form or configure rclone manually)"),
        )))),
    }
}

/// The scope requested for Google Drive: only the files this client created.
pub const GDRIVE_SCOPE: &'static str = "drive.file";

/// Spool's own Google Drive OAuth client, from the id and secret baked in at
/// build time: used only for the `drive` backend and only when both are set.
pub fn gdrive_oauth_client(rclone_type: &str, client_id: Option<&str>, client_secret: Option<&str>) -> (r: Option<(String, String)>)
    ensures
        r is Some <==> (rclone_type@ == "drive"@ && (client_id matches Some(i) && i@.len() > 0)
            && (client_secret matches Some(s) && s@.len() > 0)),
        r matches Some(p) ==> p.0@ == client_id->0@ && p.1@ == client_secret->0@,
{
    if !eq_exec(&chars_of(rclone_type), &chars_of("drive")) {
        return None;
    }
    match (client_id, client_secret) {
        (Some(id), Some(secret)) => if !id.is_empty() && !secret.is_empty() {
            Some((string_of(&chars_of(id)), string_of(&chars_of(secret))))
        } else {
            None
        },
        _ => None,
    }
}

/// The arguments of `rclone authorize`: the backend type, then the custom
/// client's id and secret when there is one.
pub fn authorize_args(rclone_type: &str, client: &Option<(String, String)>) -> (r: Vec<String>)
    ensures
        crate::text::str_views(r@) == seq!["authorize"@, rclone_type@] + match client {
            Some(c) => seq![c.0@, c.1@],
            None => Seq::empty(),
        },
{
    let mut v: Vec<String> = Vec::new();
    v.push(string_of(&chars_of("authorize")));
    v.push(string_of(&chars_of(rclone_type)));
    if let Some((id, secret)) = client {
        v.push(id.clone());
        v.push(secret.clone());
    }
    assert(crate::text::str_views(v@) =~= seq!["authorize"@, rclone_type@] + match client {
        Some(c) => seq![c.0@, c.1@],
        None => Seq::empty(),
    });
    v
}

/// The arguments of `rclone config create` registering an authorised remote
/// non-interactively with its token, plus the custom client and scope.
pub fn config_create_args(remote_name: &str, rclone_type: &str, token: &str, client: &Option<(String, String)>) -> (r: Vec<String>)
    ensures
        crate::text::str_views(r@) == seq!["config"@, "create"@, remote_name@, rclone_type@, "token="@ + token@,
            "--non-interactive"@] + match client {
            Some(c) => seq!["client_id="@ + c.0@, "client_secret="@ + c.1@, "scope="@ + GDRIVE_SCOPE@],
            None => Seq::empty(),
        },
{
    let mut v: Vec<String> = Vec::new();
    v.push(string_of(&chars_of("config")));
    v.push(string_of(&chars_of("create")));
    v.push(string_of(&chars_of(remote_name)));
    v.push(string_of(&chars_of(rclone_type)));
    v.push(string_of(&concat(&chars_of("token="), &chars_of(token))));
    v.push(string_of(&chars_of("--non-interactive")));
    if let Some((id, secret)) = client {
        v.push(string_of(&concat(&chars_of("client_id="), &chars_of(id.as_str()))));
        v.push(string_of(&concat(&chars_of("client_secret="), &chars_of(secret.as_str()))));
        v.push(string_of(&concat(&chars_of("scope="), &chars_of(GDRIVE_SCOPE))));
    }
    assert(crate::text::str_views(v@) =~= seq!["config"@, "create"@, remote_name@, rclone_type@, "token="@ + token@,
        "--non-interactive"@] + match client {
        Some(c) => seq!["client_id="@ + c.0@, "client_secret="@ + c.1@, "scope="@ + GDRIVE_SCOPE@],
        None => Seq::empty(),
    });
    v
}

/// The state of scanning `rclone authorize`'s output for the token.
pub struct TokenScan {
    /// The `--->` marker was seen: the token follows.
    pub in_token: bool,
    /// The token's JSON, once found.
    pub token: Option<String>,
    /// The `<---End paste` marker was seen.
    pub ended: bool,
    /// Standard-error lines that were none of the above, for the diagnostic.
    pub diag: Vec<String>,
}

/// One output line folded into the scan: a line with `--->` opens the token
/// block; inside it, a line starting (after leading whitespace) with `{` is the
/// token, trimmed; a line with `<---End paste` ends the scan; any other
/// standard-error line is kept for the diagnostic.
pub fn scan_auth_line(scan: &mut TokenScan, line: &str, from_stderr: bool)
    ensures
        contains(line@, "--->"@) ==> final(scan).in_token && final(scan).token == old(scan).token
            && final(scan).ended == old(scan).ended && final(scan).diag == old(scan).diag,
        !contains(line@, "--->"@) && old(scan).in_token && starts_with(trim_start_ws(line@), "{"@) ==> (
            final(scan).token matches Some(t) && t@ == trim(line@)) && final(scan).in_token
            && final(scan).ended == old(scan).ended && final(scan).diag == old(scan).diag,
        !contains(line@, "--->"@) && !(old(scan).in_token && starts_with(trim_start_ws(line@), "{"@))
            && contains(line@, "<---End paste"@) ==> final(scan).ended && final(scan).token == old(scan).token
            && final(scan).in_token == old(scan).in_token && final(scan).diag == old(scan).diag,
        !contains(line@, "--->"@) && !(old(scan).in_token && starts_with(trim_start_ws(line@), "{"@))
            && !contains(line@, "<---End paste"@) ==> final(scan).ended == old(scan).ended
            && final(scan).token == old(scan).token && final(scan).in_token == old(scan).in_token
            && crate::text::str_views(final(scan).diag@) == crate::text::str_views(old(scan).diag@) + if from_stderr {
            seq![line@]
        } else {
            Seq::empty()
        },
{
    let l = chars_of(line);
    if crate::text::contains_exec(&l, &chars_of("--->")) {
        scan.in_token = true;
    } else if scan.in_token && crate::text::starts_with_exec(&crate::text::trim_start_ws_exec(&l), &chars_of("{")) {
        scan.token = Some(string_of(&trim_exec(&l)));
    } else if crate::text::contains_exec(&l, &chars_of("<---End paste")) {
        scan.ended = true;
    } else if from_stderr {
        let ghost before = scan.diag@;
        scan.diag.push(string_of(&l));
        assert(crate::text::str_views(scan.diag@) =~= crate::text::str_views(before) + seq![line@]);
    } else {
        assert(crate::text::str_views(scan.diag@) =~= crate::text::str_views(scan.diag@) + Seq::<Seq<char>>::empty());
    }
}

/// The error of an authorisation that produced no token: the collected
/// diagnostic lines joined by ` | `, or a hint when there were none.
pub fn oauth_incomplete_error(diag: &Vec<String>) -> (r: crate::error::AppError)
    ensures
        r matches crate::error::AppError::Other(m) && m@ == "OAuth flow did not complete: "@ + if diag@.len() == 0 {
            "no output from rclone — check that the bundled rclone binary is executable"@
        } else {
            crate::text::join_str(crate::text::str_views(diag@), " | "@)
        },
{
    let detail = if diag.len() == 0 {
        chars_of("no output from rclone — check that the bundled rclone binary is executable")
    } else {
        crate::text::join_str_exec(diag, &chars_of(" | "))
    };
    crate::error::AppError::Other(string_of(&concat(&chars_of("OAuth flow did not complete: "), &detail)))
}

/// ASCII whitespace as `<[u8]>::trim_ascii` removes it.
pub open spec fn is_ascii_ws(b: u8) -> bool {
    b == 32 || b == 9 || b == 10 || b == 12 || b == 13
}

/// Whether `rclone config show <remote>` proved the remote exists: it
/// succeeded and printed something besides ASCII whitespace.
pub fn remote_exists(success: bool, stdout: &[u8]) -> (r: bool)
    ensures
        r == (success && exists|i: int| 0 <= i < stdout@.len() && !is_ascii_ws(#[trigger] stdout@[i])),
{
    if !success {
        return false;
    }
    let mut i: usize = 0;
    while i < stdout.len()
        invariant
            i <= stdout.len(),
            forall|k: int| 0 <= k < i ==> is_ascii_ws(#[trigger] stdout@[k]),
            success,
        decreases stdout.len() - i,
    {
        let b = stdout[i];
        if !(b == 32 || b == 9 || b == 10 || b == 12 || b == 13) {
            assert(!is_ascii_ws(stdout@[i as int]));
            return true;
        }
        i += 1;
    }
    false
}

/// The backup tool's remote folder under the base folder.
pub fn ludusavi_remote_path(configured_base: &str) -> (r: String)
    ensures
        r@ == spec_base_path(configured_base@) + "/ludusavi-backup"@,
{
    let b = base_path(configured_base);
    string_of(&concat(&chars_of(b.as_str()), &chars_of("/ludusavi-backup")))
}

} // verus!

verus! {

/// The `id` of a tagged remote in the backup tool's `config.yaml`.
pub enum RemoteId {
    /// The tag's value is not a mapping or has no `id`.
    Missing,
    /// A string `id`.
    Text(String),
    /// An `id` that is not a string.
    NotText,
}

/// What `cloud.remote` in the backup tool's `config.yaml` holds.
pub enum CloudRemote {
    /// A bare string (the legacy preset form).
    Preset(String),
    /// A tagged mapping: each tag with its value's `id`, in document order.
    Tagged(Vec<(String, RemoteId)>),
    /// Anything else, or no `cloud.remote` at all.
    Other,
}

/// The tags whose `id` names the rclone remote, in the order they are tried.
pub open spec fn remote_tags() -> Seq<Seq<char>> {
    seq!["Custom"@, "WebDav"@, "Box"@, "Dropbox"@, "GoogleDrive"@, "OneDrive"@, "Ftp"@, "Smb"@]
}

/// The value of `tag` in a tagged mapping (mapping keys are unique; the first
/// entry is taken).
pub open spec fn tag_value(m: Seq<(String, RemoteId)>, tag: Seq<char>) -> Option<RemoteId>
    decreases m.len(),
{
    if m.len() == 0 {
        None
    } else if m[0].0@ == tag {
        Some(m[0].1)
    } else {
        tag_value(m.drop_first(), tag)
    }
}

/// The remote named by the first of `tags` present in `m` with an `id`: its
/// `id` when that is a string, `None` when it is not.
pub open spec fn pick_tag(m: Seq<(String, RemoteId)>, tags: Seq<Seq<char>>) -> Option<Seq<char>>
    decreases tags.len(),
{
    if tags.len() == 0 {
        None
    } else {
        match tag_value(m, tags[0]) {
            Some(RemoteId::Text(s)) => Some(s@),
            Some(RemoteId::NotText) => None,
            _ => pick_tag(m, tags.drop_first()),
        }
    }
}

/// The rclone remote's name from `cloud.remote`.
pub open spec fn spec_remote_name(c: CloudRemote) -> Option<Seq<char>> {
    match c {
        CloudRemote::Preset(s) => Some(s@),
        CloudRemote::Tagged(m) => pick_tag(m@, remote_tags()),
        CloudRemote::Other => None,
    }
}

fn tag_value_exec<'a>(m: &'a Vec<(String, RemoteId)>, tag: &str) -> (r: Option<&'a RemoteId>)
    ensures
        match r {
            Some(v) => tag_value(m@, tag@) == Some(*v),
            None => tag_value(m@, tag@) is None,
        },
{
    let t = chars_of(tag);
    let mut i: usize = 0;
    assert(m@.skip(0) =~= m@);
    while i < m.len()
        invariant
            i <= m.len(),
            t@ == tag@,
            tag_value(m@, tag@) == tag_value(m@.skip(i as int), tag@),
        decreases m.len() - i,
    {
        assert(m@.skip(i as int)[0] == m@[i as int]);
        if eq_exec(&chars_of(m[i].0.as_str()), &t) {
            return Some(&m[i].1);
        }
        assert(m@.skip(i as int).drop_first() =~= m@.skip(i + 1));
        i += 1;
    }
    None
}

/// The rclone remote's name: a bare string as it is; for a tagged mapping, the
/// string `id` under the first known tag that has an `id` (`None` when that
/// `id` is not a string, or no tag has one).
pub fn remote_name_from_config(c: &CloudRemote) -> (r: Option<String>)
    ensures
        opt_view(r) == spec_remote_name(*c),
{
    match c {
        CloudRemote::Preset(s) => Some(s.clone()),
        CloudRemote::Other => None,
        CloudRemote::Tagged(m) => {
            let tags: [&str; 8] = ["Custom", "WebDav", "Box", "Dropbox", "GoogleDrive", "OneDrive", "Ftp", "Smb"];
            assert(tags@.map_values(|s: &str| s@) =~= remote_tags());
            let mut k: usize = 0;
            assert(remote_tags().skip(0) =~= remote_tags());
            while k < 8
                invariant
                    k <= 8,
                    tags@.map_values(|s: &str| s@) == remote_tags(),
                    pick_tag(m@, remote_tags()) == pick_tag(m@, remote_tags().skip(k as int)),
                    spec_remote_name(*c) == pick_tag(m@, remote_tags()),
                decreases 8 - k,
            {
                assert(tags@.map_values(|s: &str| s@)[k as int] == tags@[k as int]@);
                assert(remote_tags().skip(k as int)[0] == remote_tags()[k as int]);
                match tag_value_exec(m, tags[k]) {
                    Some(RemoteId::Text(s)) => return Some(s.clone()),
                    Some(RemoteId::NotText) => return None,
                    _ => {},
                }
                assert(remote_tags().skip(k as int).drop_first() =~= remote_tags().skip(k + 1));
                k += 1;
            }
            None
        },
    }
}

} // verus!
