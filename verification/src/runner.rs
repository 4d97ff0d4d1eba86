//! The launch workflow's decisions: the single-launch slot, the reconciliation
//! of local and cloud save tips, the steps of a pull, the launch plan, and the
//! seed of a play session's id.

use vstd::prelude::*;
use crate::error::AppError;
use crate::redirects::{BackupTip, opt_string, tip_view};
use crate::time::{later, later_exec, parse_rfc3339, spec_rfc3339};
use crate::session::ActiveSession;
use crate::text::{
    chars_of, concat3, eq_exec, is_blank, lemma_lex_lt_order, lex_compare, lex_lt, path_join, string_of, views, words,
    words_exec,
};

verus! {

/// The single-launch slot: the id of the game being run, if any.
pub struct RunState {
    current: Option<String>,
}

impl RunState {
    /// An empty slot.
    pub fn new() -> (r: RunState)
        ensures
            r.running() is None,
    {
        RunState { current: None }
    }

    /// The id of the running game.
    pub closed spec fn running(&self) -> Option<Seq<char>> {
        match self.current {
            Some(s) => Some(s@),
            None => None,
        }
    }

    /// Take the slot for `game_id`; refused, leaving the slot as it was, while
    /// another game runs.
    pub fn try_acquire(&mut self, game_id: &str) -> (r: Result<(), AppError>)
        ensures
            old(self).running() is None ==> r is Ok && final(self).running() == Some(game_id@),
            old(self).running() matches Some(id) ==> (final(self).running() == old(self).running()
                && (r matches Err(AppError::Other(m)) && m@ == "Another game is already running (id "@
                + id + ")"@)),
    {
        match &self.current {
            Some(running) => {
                let m = concat3(
                    &chars_of("Another game is already running (id "),
                    &chars_of(running.as_str()),
                    &chars_of(")"),
                );
                Err(AppError::Other(string_of(&m)))
            },
            None => {
                self.current = Some(string_of(&chars_of(game_id)));
                Ok(())
            },
        }
    }

    /// Free the slot when the workflow ends, whatever its outcome.
    pub fn release(&mut self)
        ensures
            final(self).running() is None,
    {
        self.current = None;
    }
}

/// Whether cloud sync runs right now: a remote is configured and offline mode
/// is off.
pub fn cloud_sync_active(remote_configured: bool, offline_mode: bool) -> (r: bool)
    ensures
        r == (remote_configured && !offline_mode),
{
    remote_configured && !offline_mode
}

/// The live split of a phase: (sync runs, sync is paused by offline mode).
pub fn cloud_split(remote_configured: bool, offline_mode: bool) -> (r: (bool, bool))
    ensures
        r == (remote_configured && !offline_mode, remote_configured && offline_mode),
{
    (remote_configured && !offline_mode, remote_configured && offline_mode)
}

/// The cloud side of a reconciliation.
pub enum CloudTip {
    /// A readable cloud backup tip.
    Present(BackupTip),
    /// The remote answered: this game has no cloud backup.
    Absent,
    /// No definite answer; do not guess.
    Unknown,
}

impl CloudTip {
    /// The tip when present.
    pub fn tip(&self) -> (r: Option<&BackupTip>)
        ensures
            self matches CloudTip::Present(t) ==> r == Some(t),
            !(self is Present) ==> r is None,
    {
        match self {
            CloudTip::Present(t) => Some(t),
            _ => None,
        }
    }
}

/// The view of a cloud tip.
pub enum CloudTipView {
    Present(Seq<char>, (i64, u32)),
    Absent,
    Unknown,
}

pub open spec fn cloud_view(c: CloudTip) -> CloudTipView {
    match c {
        CloudTip::Present(t) => CloudTipView::Present(t.name@, t.when),
        CloudTip::Absent => CloudTipView::Absent,
        CloudTip::Unknown => CloudTipView::Unknown,
    }
}

/// What reading one candidate backup folder in the cloud gave.
pub enum FolderRead {
    /// The mapping was read; its tip, if it has one.
    Found(Option<BackupTip>),
    /// The remote answered that it is not there.
    NotFound,
    /// No definite answer.
    Unreachable,
}

/// The cloud folders a game's backup may live in: its name, then its
/// Windows-safe name when that differs.
pub fn cloud_tip_folders(game_name: &str) -> (r: Vec<String>)
    ensures
        crate::text::str_views(r@) == if crate::redirects::spec_windows_safe_name(game_name@) == game_name@ {
            seq![game_name@]
        } else {
            seq![game_name@, crate::redirects::spec_windows_safe_name(game_name@)]
        },
{
    let mut v: Vec<String> = Vec::new();
    v.push(string_of(&chars_of(game_name)));
    let safe = crate::redirects::windows_safe_name(game_name);
    if !eq_exec(&chars_of(safe.as_str()), &chars_of(game_name)) {
        v.push(safe);
    }
    proof {
        assert(crate::text::str_views(v@) =~= if crate::redirects::spec_windows_safe_name(game_name@) == game_name@ {
            seq![game_name@]
        } else {
            seq![game_name@, crate::redirects::spec_windows_safe_name(game_name@)]
        });
    }
    v
}

/// The cloud tip from the candidate folders' reads, in order: the first
/// readable tip; `Absent` only when every candidate was definitely not found;
/// `Unknown` otherwise (an unreachable read, or a mapping without a tip).
pub open spec fn spec_cloud_tip(reads: Seq<FolderRead>) -> CloudTipView
    decreases reads.len(),
{
    if reads.len() == 0 {
        CloudTipView::Absent
    } else {
        match reads[0] {
            FolderRead::Found(Some(t)) => CloudTipView::Present(t.name@, t.when),
            FolderRead::Found(None) => match spec_cloud_tip(reads.drop_first()) {
                CloudTipView::Present(n, w) => CloudTipView::Present(n, w),
                _ => CloudTipView::Unknown,
            },
            FolderRead::NotFound => spec_cloud_tip(reads.drop_first()),
            FolderRead::Unreachable => match spec_cloud_tip(reads.drop_first()) {
                CloudTipView::Present(n, w) => CloudTipView::Present(n, w),
                _ => CloudTipView::Unknown,
            },
        }
    }
}

/// A folder the remote definitely does not have leaves the cloud tip as it
/// is: the reads with a `NotFound` in front give the tip of the reads alone.
pub proof fn law_not_found_read_is_neutral(rest: Seq<FolderRead>)
    ensures
        spec_cloud_tip(seq![FolderRead::NotFound] + rest) == spec_cloud_tip(rest),
{
    assert((seq![FolderRead::NotFound] + rest).drop_first() =~= rest);
}

/// The first readable tip wins: when read `j` found a mapping with a tip and
/// no read before it did, the cloud tip is that tip, whatever the other reads
/// were.
pub proof fn law_first_found_tip_wins(reads: Seq<FolderRead>, j: int)
    requires
        0 <= j < reads.len(),
        reads[j] matches FolderRead::Found(Some(_)),
        forall|k: int| 0 <= k < j ==> !(#[trigger] reads[k] matches FolderRead::Found(Some(_))),
    ensures
        spec_cloud_tip(reads) == CloudTipView::Present(
            (reads[j]->Found_0)->0.name@,
            (reads[j]->Found_0)->0.when,
        ),
    decreases j,
{
    if j > 0 {
        let d = reads.drop_first();
        assert forall|k: int| 0 <= k < j - 1 implies !(#[trigger] d[k] matches FolderRead::Found(Some(_))) by {
            assert(d[k] == reads[k + 1]);
        }
        assert(d[j - 1] == reads[j]);
        law_first_found_tip_wins(d, j - 1);
        assert(!(reads[0] matches FolderRead::Found(Some(_))));
    }
}

/// Without a readable tip among the reads there is no cloud tip: the result
/// is `Absent` or `Unknown`, never `Present`.
pub proof fn law_no_found_tip_not_present(reads: Seq<FolderRead>)
    requires
        forall|k: int| 0 <= k < reads.len() ==> !(#[trigger] reads[k] matches FolderRead::Found(Some(_))),
    ensures
        !(spec_cloud_tip(reads) is Present),
    decreases reads.len(),
{
    if reads.len() > 0 {
        let d = reads.drop_first();
        assert forall|k: int| 0 <= k < d.len() implies !(#[trigger] d[k] matches FolderRead::Found(Some(_))) by {
            assert(d[k] == reads[k + 1]);
        }
        law_no_found_tip_not_present(d);
        assert(!(reads[0] matches FolderRead::Found(Some(_))));
    }
}

/// The cloud is absent exactly when every candidate folder was definitely
/// not found (no reads at all included).
pub proof fn law_absent_iff_all_not_found(reads: Seq<FolderRead>)
    ensures
        (spec_cloud_tip(reads) == CloudTipView::Absent) <==> (forall|k: int| 0 <= k < reads.len() ==> #[trigger] reads[k] == FolderRead::NotFound),
    decreases reads.len(),
{
    if reads.len() > 0 {
        let d = reads.drop_first();
        law_absent_iff_all_not_found(d);
        if forall|k: int| 0 <= k < reads.len() ==> #[trigger] reads[k] == FolderRead::NotFound {
            assert forall|k: int| 0 <= k < d.len() implies #[trigger] d[k] == FolderRead::NotFound by {
                assert(d[k] == reads[k + 1]);
            }
        }
        if reads[0] == FolderRead::NotFound && (forall|k: int| 0 <= k < d.len() ==> #[trigger] d[k] == FolderRead::NotFound) {
            assert forall|k: int| 0 <= k < reads.len() implies #[trigger] reads[k] == FolderRead::NotFound by {
                if k > 0 {
                    assert(reads[k] == d[k - 1]);
                }
            }
        }
    }
}

/// Combine the folder reads into the cloud tip (see [`spec_cloud_tip`]).
pub fn cloud_tip_from_reads(reads: Vec<FolderRead>) -> (r: CloudTip)
    ensures
        cloud_view(r) == spec_cloud_tip(reads@),
    decreases reads@.len(),
{
    let mut reads = reads;
    if reads.len() == 0 {
        return CloudTip::Absent;
    }
    let ghost all = reads@;
    let first = reads.remove(0);
    assert(reads@ =~= all.drop_first());
    let rest = cloud_tip_from_reads(reads);
    match first {
        FolderRead::Found(Some(t)) => CloudTip::Present(t),
        FolderRead::NotFound => rest,
        _ => match rest {
            CloudTip::Present(t) => CloudTip::Present(t),
            _ => CloudTip::Unknown,
        },
    }
}

/// How to reconcile a cloud conflict the backup tool reported.
#[derive(Debug, Clone, Copy, PartialEq, Eq, Structural)]
pub enum CloudSyncDecision {
    /// Local and cloud already match.
    InSync,
    /// The cloud is cleanly ahead: pull it down.
    FastForwardDownload,
    /// Local is cleanly ahead: push it up.
    FastForwardUpload,
    /// Both sides moved past the baseline: ask the user.
    Diverged,
}

/// The reconciliation of local and cloud tips against the last synced tip
/// `base` of this device.
///
/// With both tips: equal names are in sync; with a baseline, the side still
/// at the baseline did not move, so the other is a clean fast-forward, and
/// neither at the baseline is a divergence; without one, the strictly later
/// tip wins and a tie is a divergence. A local tip with a genuinely absent
/// cloud is a first upload; with an unreadable cloud it is a divergence. No
/// local tip: a present cloud is pulled, an absent one is in sync, an
/// unreadable one is a divergence.
pub open spec fn spec_decide(
    base: Option<Seq<char>>,
    local: Option<(Seq<char>, (i64, u32))>,
    cloud: CloudTipView,
) -> CloudSyncDecision {
    match (local, cloud) {
        (Some(l), CloudTipView::Present(cn, cw)) => if l.0 == cn {
            CloudSyncDecision::InSync
        } else {
            match base {
                Some(b) => if l.0 == b && cn != b {
                    CloudSyncDecision::FastForwardDownload
                } else if l.0 != b && cn == b {
                    CloudSyncDecision::FastForwardUpload
                } else if l.0 != b && cn != b {
                    CloudSyncDecision::Diverged
                } else {
                    CloudSyncDecision::InSync
                },
                None => if crate::time::later(cw, l.1) {
                    CloudSyncDecision::FastForwardDownload
                } else if crate::time::later(l.1, cw) {
                    CloudSyncDecision::FastForwardUpload
                } else {
                    CloudSyncDecision::Diverged
                },
            }
        },
        (Some(_), CloudTipView::Absent) => CloudSyncDecision::FastForwardUpload,
        (Some(_), CloudTipView::Unknown) => CloudSyncDecision::Diverged,
        (None, CloudTipView::Present(_, _)) => CloudSyncDecision::FastForwardDownload,
        (None, CloudTipView::Absent) => CloudSyncDecision::InSync,
        (None, CloudTipView::Unknown) => CloudSyncDecision::Diverged,
    }
}

/// Decide how to reconcile a cloud conflict (see [`spec_decide`]).
pub fn decide_cloud_sync(base: Option<&str>, local: Option<&BackupTip>, cloud: &CloudTip) -> (r: CloudSyncDecision)
    ensures
        r == spec_decide(
            match base {
                Some(b) => Some(b@),
                None => None,
            },
            match local {
                Some(l) => Some((l.name@, l.when)),
                None => None,
            },
            cloud_view(*cloud),
        ),
{
    match (local, cloud) {
        (Some(l), CloudTip::Present(c)) => {
            let ln = chars_of(l.name.as_str());
            let cn = chars_of(c.name.as_str());
            if eq_exec(&ln, &cn) {
                return CloudSyncDecision::InSync;
            }
            match base {
                Some(b) => {
                    let bv = chars_of(b);
                    let lb = eq_exec(&ln, &bv);
                    let cb = eq_exec(&cn, &bv);
                    if lb && !cb {
                        CloudSyncDecision::FastForwardDownload
                    } else if !lb && cb {
                        CloudSyncDecision::FastForwardUpload
                    } else if !lb && !cb {
                        CloudSyncDecision::Diverged
                    } else {
                        CloudSyncDecision::InSync
                    }
                },
                None => if crate::time::later_exec(c.when, l.when) {
                    CloudSyncDecision::FastForwardDownload
                } else if crate::time::later_exec(l.when, c.when) {
                    CloudSyncDecision::FastForwardUpload
                } else {
                    CloudSyncDecision::Diverged
                },
            }
        },
        (Some(_), CloudTip::Absent) => CloudSyncDecision::FastForwardUpload,
        (Some(_), CloudTip::Unknown) => CloudSyncDecision::Diverged,
        (None, CloudTip::Present(_)) => CloudSyncDecision::FastForwardDownload,
        (None, CloudTip::Absent) => CloudSyncDecision::InSync,
        (None, CloudTip::Unknown) => CloudSyncDecision::Diverged,
    }
}

/// The outcome of a pull-from-cloud.
#[derive(Debug, Clone, Copy, PartialEq, Eq, Structural)]
pub enum PullOutcome {
    /// No cloud remote configured (or offline mode): nothing to pull.
    Unconfigured,
    /// Local and cloud already matched.
    UpToDate,
    /// The cloud was ahead and its saves were restored.
    Pulled,
    /// Local saves are newer; left untouched.
    LocalNewer,
}

/// A pull's outcome and the number of games restored.
pub struct PullResult {
    pub outcome: PullOutcome,
    pub game_count: i32,
}

/// The next step of a pull after the reconciliation decision.
pub enum PullStep {
    /// Finish with this result.
    Finish(PullResult),
    /// Download the cloud copy and restore again.
    DownloadAndRestore,
    /// Fail with this error.
    Fail(AppError),
}

/// The first check of a pull: with no remote configured, or in offline mode,
/// the pull ends at once as unconfigured with nothing restored (`Some`); while
/// cloud sync is active the pull goes on (`None`).
pub fn pull_precheck(remote_configured: bool, offline_mode: bool) -> (r: Option<PullResult>)
    ensures
        r is Some <==> !(remote_configured && !offline_mode),
        r matches Some(p) ==> p.outcome == PullOutcome::Unconfigured && p.game_count == 0,
{
    if cloud_sync_active(remote_configured, offline_mode) {
        None
    } else {
        Some(PullResult { outcome: PullOutcome::Unconfigured, game_count: 0 })
    }
}

/// The pull's result when the first restore reported no conflict: up to date
/// with the restored game count; `None` when a conflict must be reconciled.
pub fn pull_after_restore(conflict: bool, game_count: i32) -> (r: Option<PullResult>)
    ensures
        conflict <==> r is None,
        r matches Some(p) ==> p.outcome == PullOutcome::UpToDate && p.game_count == game_count,
{
    if conflict {
        None
    } else {
        Some(PullResult { outcome: PullOutcome::UpToDate, game_count })
    }
}

/// The step a pull takes for a reconciliation decision: in sync is up to
/// date; a cloud fast-forward downloads and restores; a local fast-forward is
/// left alone (a pull never pushes); a divergence is an error.
pub fn pull_step(decision: CloudSyncDecision) -> (r: PullStep)
    ensures
        decision == CloudSyncDecision::InSync ==> (r matches PullStep::Finish(p) && p.outcome
            == PullOutcome::UpToDate && p.game_count == 0),
        decision == CloudSyncDecision::FastForwardDownload ==> r is DownloadAndRestore,
        decision == CloudSyncDecision::FastForwardUpload ==> (r matches PullStep::Finish(p) && p.outcome
            == PullOutcome::LocalNewer && p.game_count == 0),
        decision == CloudSyncDecision::Diverged ==> (r matches PullStep::Fail(AppError::Other(m)) && m@
            == "Cloud sync conflict — local and cloud saves have both changed."@),
{
    match decision {
        CloudSyncDecision::InSync => PullStep::Finish(PullResult { outcome: PullOutcome::UpToDate, game_count: 0 }),
        CloudSyncDecision::FastForwardDownload => PullStep::DownloadAndRestore,
        CloudSyncDecision::FastForwardUpload => PullStep::Finish(PullResult { outcome: PullOutcome::LocalNewer, game_count: 0 }),
        CloudSyncDecision::Diverged => PullStep::Fail(AppError::Other(string_of(&chars_of("Cloud sync conflict — local and cloud saves have both changed.")))),
    }
}

/// The pull's result after downloading and restoring again: pulled with the
/// restored game count, or an error when the restore still conflicts.
pub fn pull_after_download(conflict: bool, game_count: i32) -> (r: Result<PullResult, AppError>)
    ensures
        !conflict ==> (r matches Ok(p) && p.outcome == PullOutcome::Pulled && p.game_count == game_count),
        conflict ==> (r matches Err(AppError::Other(m)) && m@
            == "Cloud sync conflict — local and cloud saves both changed."@),
{
    if conflict {
        Err(AppError::Other(string_of(&chars_of("Cloud sync conflict — local and cloud saves both changed."))))
    } else {
        Ok(PullResult { outcome: PullOutcome::Pulled, game_count })
    }
}

/// The error that stops a launch on a cloud conflict it cannot resolve.
pub open spec fn launch_conflict_msg() -> Seq<char> {
    "Cloud sync conflict — open Ludusavi to resolve before launching."@
}

/// What a launch does about a cloud conflict the restore reported.
pub enum ReconcileStep {
    /// Stop the launch with this error.
    Abort(AppError),
    /// Download the cloud copy and restore again; then record `baseline` as
    /// the synced tip (when the cloud tip is known) and show `notice`.
    Download { baseline: Option<String>, notice: String },
    /// Upload the local copy; then record `baseline` as the synced tip (when
    /// the local tip is known) and show `notice`, if any.
    Upload { baseline: Option<String>, notice: Option<String> },
    /// Nothing to reconcile.
    Proceed,
}

/// The step a launch takes for a reconciliation decision: a divergence stops
/// it; a cloud fast-forward downloads and adopts the cloud tip; a local
/// fast-forward uploads and adopts the local tip, telling the user when the
/// cloud had no backup at all; in sync proceeds.
pub fn reconcile_step(decision: CloudSyncDecision, local: Option<&BackupTip>, cloud: &CloudTip) -> (r: ReconcileStep)
    ensures
        decision == CloudSyncDecision::Diverged ==> (r matches ReconcileStep::Abort(AppError::Other(m)) && m@
            == launch_conflict_msg()),
        decision == CloudSyncDecision::FastForwardDownload ==> (r matches ReconcileStep::Download {
            baseline,
            notice,
        } && crate::rclone::opt_view(baseline) == match cloud {
            CloudTip::Present(t) => Some(t.name@),
            _ => None,
        } && notice@ == "Restored newer saves from the cloud"@),
        decision == CloudSyncDecision::FastForwardUpload ==> (r matches ReconcileStep::Upload { baseline, notice }
            && crate::rclone::opt_view(baseline) == match local {
            Some(t) => Some(t.name@),
            None => None,
        } && crate::rclone::opt_view(notice) == if cloud is Absent {
            Some("Uploaded your saves to the cloud for the first time"@)
        } else {
            None
        }),
        decision == CloudSyncDecision::InSync ==> r is Proceed,
{
    match decision {
        CloudSyncDecision::Diverged => ReconcileStep::Abort(AppError::Other(string_of(&chars_of(
            "Cloud sync conflict — open Ludusavi to resolve before launching.",
        )))),
        CloudSyncDecision::FastForwardDownload => ReconcileStep::Download {
            baseline: match cloud {
                CloudTip::Present(t) => Some(t.name.clone()),
                _ => None,
            },
            notice: string_of(&chars_of("Restored newer saves from the cloud")),
        },
        CloudSyncDecision::FastForwardUpload => ReconcileStep::Upload {
            baseline: match local {
                Some(t) => Some(t.name.clone()),
                None => None,
            },
            notice: match cloud {
                CloudTip::Absent => Some(string_of(&chars_of("Uploaded your saves to the cloud for the first time"))),
                _ => None,
            },
        },
        CloudSyncDecision::InSync => ReconcileStep::Proceed,
    }
}

/// What follows a restore that did not fail.
pub enum RestoreFollowUp {
    /// The backup tool reported a cloud conflict: reconcile it.
    Reconcile,
    /// A clean restore with cloud sync on: record the local tip as the synced
    /// baseline.
    RecordLocalBaseline,
    /// Nothing more.
    Nothing,
}

/// The follow-up of a restore: a conflict is reconciled; otherwise, with
/// cloud sync on, the local tip becomes the baseline.
pub fn restore_follow_up(conflict: bool, cloud_configured: bool) -> (r: RestoreFollowUp)
    ensures
        conflict ==> r is Reconcile,
        !conflict && cloud_configured ==> r is RecordLocalBaseline,
        !conflict && !cloud_configured ==> r is Nothing,
{
    if conflict {
        RestoreFollowUp::Reconcile
    } else if cloud_configured {
        RestoreFollowUp::RecordLocalBaseline
    } else {
        RestoreFollowUp::Nothing
    }
}

/// How the restore phase ends.
pub enum RestorePhaseEnd {
    /// Go on to the launch; `no_saves` when the backup tool does not know the
    /// game (then no backup follows the session, and the session marker is
    /// deleted instead).
    Launch { no_saves: bool },
    /// Stop the launch with this error, first releasing the session marker
    /// claimed for it, so peers are not blocked by a session that never
    /// started.
    StopAndRelease(AppError),
}

/// The end of the restore phase, from its outcome: the number of games the
/// backup tool did not recognise, or the error that stopped it. No saves is
/// only an unrecognised game; a game with no backup yet still gets one.
pub fn restore_phase_end(outcome: Result<usize, AppError>) -> (r: RestorePhaseEnd)
    ensures
        outcome matches Ok(n) ==> (r matches RestorePhaseEnd::Launch { no_saves } && no_saves == (n > 0)),
        outcome matches Err(e) ==> (r matches RestorePhaseEnd::StopAndRelease(f) && f == e),
{
    match outcome {
        Ok(n) => RestorePhaseEnd::Launch { no_saves: n > 0 },
        Err(e) => RestorePhaseEnd::StopAndRelease(e),
    }
}

/// The error when the restore after a cloud download still conflicts.
pub fn launch_conflict_error() -> (r: AppError)
    ensures
        r matches AppError::Other(m) && m@ == launch_conflict_msg(),
{
    AppError::Other(string_of(&chars_of("Cloud sync conflict — open Ludusavi to resolve before launching.")))
}

/// The message of the restore phase: syncing as well when cloud sync runs.
pub fn restore_message(cloud_configured: bool) -> (r: &'static str)
    ensures
        cloud_configured ==> r@ == "Syncing + restoring saves…"@,
        !cloud_configured ==> r@ == "Restoring local saves…"@,
{
    if cloud_configured {
        "Syncing + restoring saves…"
    } else {
        "Restoring local saves…"
    }
}

/// Whether a library entry can be launched: it must be installed and have an
/// executable.
pub fn launch_precheck(installed: bool, exe_path: &str) -> (r: Result<(), AppError>)
    ensures
        !installed ==> (r matches Err(AppError::Other(m)) && m@
            == "This game isn't installed — reinstall it first."@),
        installed && exe_path@.len() == 0 ==> (r matches Err(AppError::Other(m)) && m@
            == "Game has no executable configured"@),
        installed && exe_path@.len() > 0 ==> r is Ok,
{
    if !installed {
        return Err(AppError::Other(string_of(&chars_of("This game isn't installed — reinstall it first."))));
    }
    if chars_of(exe_path).len() == 0 {
        return Err(AppError::Other(string_of(&chars_of("Game has no executable configured"))));
    }
    Ok(())
}

/// Size and modification time of one side of a save conflict.
pub struct RawSaveDetails {
    pub modified: Option<String>,
    pub size_bytes: u64,
}

/// Both sides of a save conflict.
pub struct RawConflictDetails {
    pub local: Option<RawSaveDetails>,
    pub cloud: Option<RawSaveDetails>,
}

/// The result of a manual backup.
pub struct ManualBackupResult {
    pub game_count: i32,
    pub bytes_total: u64,
    /// False when the local backup succeeded but the cloud upload failed.
    pub cloud_synced: bool,
    pub game_name: String,
}

/// The result of a manual restore.
pub struct ManualRestoreResult {
    pub game_count: i32,
}

/// The seed a play session's id derives from: the active-session record's
/// start when this process wrote the record and it is a live (not backed up)
/// record for this game; otherwise `fallback`.
pub fn seed_from_record(
    wrote_start: bool,
    rec: Option<&ActiveSession>,
    game_name: &str,
    fallback: (i64, u32),
) -> (r: (i64, u32))
    ensures
        r == (if wrote_start && (rec matches Some(s) && s.game@ == game_name@ && !s.backed_up) {
            rec->0.started_at
        } else {
            fallback
        }),
{
    if !wrote_start {
        return fallback;
    }
    match rec {
        Some(s) => if eq_exec(&chars_of(s.game.as_str()), &chars_of(game_name)) && !s.backed_up {
            s.started_at
        } else {
            fallback
        },
        None => fallback,
    }
}

/// Instructions for spawning a game.
pub struct LaunchPlan {
    pub use_proton: bool,
    pub umu_run: Option<String>,
    pub proton_path: Option<String>,
    pub prefix_root: String,
    pub extra_args: Vec<String>,
    pub run_as_admin: bool,
}

/// The prefix root a launch uses: the override when not blank, else the
/// game's default prefix.
pub open spec fn spec_plan_prefix(override_path: Option<Seq<char>>, prefixes_dir: Seq<char>, game_id: Seq<char>) -> Seq<char> {
    match override_path {
        Some(o) => if !is_blank(o) {
            o
        } else {
            path_join(prefixes_dir, game_id)
        },
        None => path_join(prefixes_dir, game_id),
    }
}

/// Resolve the launch plan from the game's settings. A Proton launch (a
/// Windows executable on Linux, see [`crate::proton::exe_needs_proton`]) needs
/// `umu_run` (located by the caller; its failure is returned as is), pins the
/// Proton build chosen by `proton_path` (see
/// [`crate::proton::resolve_proton_path`]) and never elevates; a native launch
/// elevates when the game needs admin rights. Both take the words of the
/// launch arguments as extra arguments and the prefix root of
/// [`spec_plan_prefix`].
pub fn build_launch_plan(
    game_id: &str,
    wine_prefix_path: Option<&str>,
    launch_args: Option<&str>,
    needs_admin: bool,
    prefixes_dir: &str,
    use_proton: bool,
    umu_run: Result<String, AppError>,
    proton_path: Option<String>,
) -> (r: Result<LaunchPlan, AppError>)
    ensures
        use_proton && umu_run is Err ==> (r matches Err(e) && umu_run matches Err(e2) && e == e2),
        !(use_proton && umu_run is Err) ==> (r matches Ok(p) && {
            &&& p.use_proton == use_proton
            &&& p.prefix_root@ == spec_plan_prefix(
                match wine_prefix_path {
                    Some(o) => Some(o@),
                    None => None,
                },
                prefixes_dir@,
                game_id@,
            )
            &&& crate::text::str_views(p.extra_args@) == words(match launch_args {
                Some(a) => a@,
                None => Seq::empty(),
            })
            &&& (use_proton ==> p.umu_run == Some(umu_run->Ok_0) && p.proton_path == proton_path
                && !p.run_as_admin)
            &&& (!use_proton ==> p.umu_run is None && p.proton_path is None && p.run_as_admin
                == needs_admin)
        }),
{
    let prefix_root = match wine_prefix_path {
        Some(o) => if !crate::text::is_blank_exec(o) {
            string_of(&chars_of(o))
        } else {
            crate::proton::game_prefix_path(prefixes_dir, game_id)
        },
        None => crate::proton::game_prefix_path(prefixes_dir, game_id),
    };
    let arg_chars = match launch_args {
        Some(a) => chars_of(a),
        None => Vec::new(),
    };
    let ws = words_exec(&arg_chars);
    let mut extra_args: Vec<String> = Vec::new();
    let mut i: usize = 0;
    while i < ws.len()
        invariant
            i <= ws.len(),
            crate::text::str_views(extra_args@) =~= views(ws@).take(i as int),
        decreases ws.len() - i,
    {
        let ghost before = extra_args@;
        extra_args.push(string_of(&ws[i]));
        assert(crate::text::str_views(extra_args@) =~= crate::text::str_views(before).push(ws@[i as int]@));
        i += 1;
    }
    assert(views(ws@).take(ws.len() as int) =~= views(ws@));
    if use_proton {
        match umu_run {
            Err(e) => Err(e),
            Ok(u) => Ok(LaunchPlan {
                use_proton: true,
                umu_run: Some(u),
                proton_path,
                prefix_root,
                extra_args,
                run_as_admin: false,
            }),
        }
    } else {
        Ok(LaunchPlan {
            use_proton: false,
            umu_run: None,
            proton_path: None,
            prefix_root,
            extra_args,
            run_as_admin: needs_admin,
        })
    }
}

} // verus!

verus! {

/// The reconciliation treats the two sides alike: with both tips present,
/// swapping local and cloud swaps a download for an upload and leaves an
/// in-sync or diverged verdict as it is.
pub proof fn law_decide_is_symmetric(base: Option<Seq<char>>, l: (Seq<char>, (i64, u32)), c: (Seq<char>, (i64, u32)))
    ensures
        spec_decide(base, Some(l), CloudTipView::Present(c.0, c.1)) == CloudSyncDecision::FastForwardDownload
            <==> spec_decide(base, Some(c), CloudTipView::Present(l.0, l.1)) == CloudSyncDecision::FastForwardUpload,
        spec_decide(base, Some(l), CloudTipView::Present(c.0, c.1)) == CloudSyncDecision::InSync
            <==> spec_decide(base, Some(c), CloudTipView::Present(l.0, l.1)) == CloudSyncDecision::InSync,
        spec_decide(base, Some(l), CloudTipView::Present(c.0, c.1)) == CloudSyncDecision::Diverged
            <==> spec_decide(base, Some(c), CloudTipView::Present(l.0, l.1)) == CloudSyncDecision::Diverged,
{
}

/// Matching tips are always in sync, whatever the baseline and instants.
pub proof fn law_matching_tips_are_in_sync(base: Option<Seq<char>>, name: Seq<char>, lw: (i64, u32), cw: (i64, u32))
    ensures
        spec_decide(base, Some((name, lw)), CloudTipView::Present(name, cw)) == CloudSyncDecision::InSync,
{
}

/// A cloud that could not be read is never overwritten or trusted: with a
/// local tip the verdict is a divergence (the user is asked).
pub proof fn law_unreadable_cloud_is_never_clobbered(base: Option<Seq<char>>, l: (Seq<char>, (i64, u32)))
    ensures
        spec_decide(base, Some(l), CloudTipView::Unknown) == CloudSyncDecision::Diverged,
{
}

/// With a baseline, a side still at the baseline never wins: the verdict
/// moves toward the side that changed.
pub proof fn law_unchanged_side_yields(b: Seq<char>, l: (Seq<char>, (i64, u32)), c: (Seq<char>, (i64, u32)))
    requires
        l.0 != c.0,
    ensures
        l.0 == b ==> spec_decide(Some(b), Some(l), CloudTipView::Present(c.0, c.1)) == CloudSyncDecision::FastForwardDownload,
        c.0 == b ==> spec_decide(Some(b), Some(l), CloudTipView::Present(c.0, c.1)) == CloudSyncDecision::FastForwardUpload,
{
}

} // verus!

verus! {

/// Whether the post-session upload can be skipped: cloud sync runs, the
/// session changed no save, and the cloud already holds the local tip (the
/// last tip confirmed on the remote is the local one).
pub fn skip_upload(cloud_configured: bool, saves_changed: bool, local_tip: Option<&str>, baseline: Option<&str>) -> (r: bool)
    ensures
        r == (cloud_configured && !saves_changed && (local_tip matches Some(t) && (baseline matches Some(b)
            && t@ == b@))),
{
    if !cloud_configured || saves_changed {
        return false;
    }
    match (local_tip, baseline) {
        (Some(t), Some(b)) => eq_exec(&chars_of(t), &chars_of(b)),
        _ => false,
    }
}

/// The steps after a successful local backup: upload unless cloud sync is off
/// or the upload can be skipped.
pub fn plan_upload(cloud_configured: bool, skip: bool) -> (r: bool)
    ensures
        r == (cloud_configured && !skip),
{
    cloud_configured && !skip
}

/// The end of a backup once the upload's fate is known: a cloud that was
/// reached (or not needed) clears the session marker; the baseline advances
/// to the local tip only when sync runs and the upload did not fail; the badge
/// is `local-newer` when the upload failed or offline mode paused sync, else
/// `synced`.
pub fn plan_after_upload(cloud_configured: bool, cloud_suspended: bool, upload_failed: bool) -> (r: (bool, bool, &'static str))
    ensures
        r.0 == !upload_failed,
        r.1 == (cloud_configured && !upload_failed),
        r.2@ == (if upload_failed || cloud_suspended {
            "local-newer"@
        } else {
            "synced"@
        }),
{
    let badge = if upload_failed || cloud_suspended {
        "local-newer"
    } else {
        "synced"
    };
    (!upload_failed, cloud_configured && !upload_failed, badge)
}

/// The badge of a backup deferred because another process holds the backup
/// lock: the save is not yet in the cloud.
pub fn deferred_backup_badge() -> (r: &'static str)
    ensures
        r@ == "local-newer"@,
{
    "local-newer"
}

/// What to do with the active-session record when a session finishes.
pub enum RecordAction {
    /// No record of this game: nothing.
    Keep,
    /// The upload failed: flag the local backup done, guarded by this id.
    MarkBackedUp(String),
    /// Fully reconciled: delete the record, guarded by this id.
    Clear(String),
}

/// The record action at the end of a session of `game_name`.
pub fn finish_record_action(rec: Option<&ActiveSession>, game_name: &str, upload_failed: bool) -> (r: RecordAction)
    ensures
        match rec {
            Some(s) => if s.game@ == game_name@ {
                if upload_failed {
                    r matches RecordAction::MarkBackedUp(id) && id@ == s.session_id@
                } else {
                    r matches RecordAction::Clear(id) && id@ == s.session_id@
                }
            } else {
                r is Keep
            },
            None => r is Keep,
        },
{
    match rec {
        Some(s) => if eq_exec(&chars_of(s.game.as_str()), &chars_of(game_name)) {
            if upload_failed {
                RecordAction::MarkBackedUp(s.session_id.clone())
            } else {
                RecordAction::Clear(s.session_id.clone())
            }
        } else {
            RecordAction::Keep
        },
        None => RecordAction::Keep,
    }
}

/// The completion notice of a session: the warning carried by the final
/// phase (if any) and the native notification's title and body.
pub struct CompletionNotice {
    pub warning: Option<String>,
    pub title: String,
    pub body: String,
}

/// The completion notice: no tracked saves, a failed upload (with a warning),
/// or a clean backup.
pub fn completion_notice(no_saves: bool, upload_failed: bool, game_name: &str) -> (r: CompletionNotice)
    ensures
        no_saves ==> r.warning is None && r.title@ == "Session complete"@ && r.body@ == game_name@
            + " — no save data tracked"@,
        !no_saves && upload_failed ==> (r.warning matches Some(w) && w@
            == "Saves backed up locally, but cloud upload failed. Check your cloud save settings."@)
            && r.title@ == "Cloud upload failed"@ && r.body@ == game_name@
            + " — saves are safe locally but didn't reach the cloud"@,
        !no_saves && !upload_failed ==> r.warning is None && r.title@ == "Saves backed up"@ && r.body@
            == game_name@ + " — session complete"@,
{
    let g = chars_of(game_name);
    if no_saves {
        CompletionNotice {
            warning: None,
            title: string_of(&chars_of("Session complete")),
            body: string_of(&crate::text::concat(&g, &chars_of(" — no save data tracked"))),
        }
    } else if upload_failed {
        CompletionNotice {
            warning: Some(string_of(&chars_of("Saves backed up locally, but cloud upload failed. Check your cloud save settings."))),
            title: string_of(&chars_of("Cloud upload failed")),
            body: string_of(&crate::text::concat(&g, &chars_of(" — saves are safe locally but didn't reach the cloud"))),
        }
    } else {
        CompletionNotice {
            warning: None,
            title: string_of(&chars_of("Saves backed up")),
            body: string_of(&crate::text::concat(&g, &chars_of(" — session complete"))),
        }
    }
}

} // verus!

verus! {

/// One file of a local save folder: its size and, when the file system gave
/// one, its modification time as RFC 3339 text in whole seconds with `Z`.
pub struct LocalFile {
    pub bytes: u64,
    pub modified: Option<String>,
}

/// The total size of `fs`.
pub open spec fn local_bytes(fs: Seq<LocalFile>) -> int
    decreases fs.len(),
{
    if fs.len() == 0 {
        0
    } else {
        local_bytes(fs.drop_last()) + fs.last().bytes
    }
}

/// `cur` after seeing stamp `s`: a stamp replaces the current one only when
/// it is strictly greater as text (which, for stamps written alike, is later).
pub open spec fn newer_stamp(cur: Option<Seq<char>>, s: Option<Seq<char>>) -> Option<Seq<char>> {
    match s {
        None => cur,
        Some(t) => match cur {
            None => Some(t),
            Some(m) => if lex_lt(m, t) {
                Some(t)
            } else {
                cur
            },
        },
    }
}

/// The greatest modification stamp among `start` and the files of `fs`.
pub open spec fn latest_local(start: Option<Seq<char>>, fs: Seq<LocalFile>) -> Option<Seq<char>>
    decreases fs.len(),
{
    if fs.len() == 0 {
        start
    } else {
        newer_stamp(latest_local(start, fs.drop_last()), opt_string(fs.last().modified))
    }
}

proof fn lemma_local_bytes_prefix(fs: Seq<LocalFile>, i: int)
    requires
        0 <= i <= fs.len(),
    ensures
        local_bytes(fs.take(i)) <= local_bytes(fs),
    decreases fs.len(),
{
    if i == fs.len() {
        assert(fs.take(i) =~= fs);
    } else {
        assert(fs.drop_last().take(i) =~= fs.take(i));
        lemma_local_bytes_prefix(fs.drop_last(), i);
    }
}

/// The total size of `files` and their greatest stamp, `start` included.
fn fold_local_files(start: Option<String>, files: &Vec<LocalFile>) -> (r: (u64, Option<String>))
    requires
        local_bytes(files@) <= u64::MAX,
    ensures
        r.0 == local_bytes(files@),
        opt_string(r.1) == latest_local(opt_string(start), files@),
{
    let ghost s0 = opt_string(start);
    let mut total: u64 = 0;
    let mut latest: Option<String> = start;
    let mut i: usize = 0;
    assert(files@.take(0) =~= Seq::<LocalFile>::empty());
    while i < files.len()
        invariant
            i <= files.len(),
            local_bytes(files@) <= u64::MAX,
            total == local_bytes(files@.take(i as int)),
            opt_string(latest) == latest_local(s0, files@.take(i as int)),
        decreases files.len() - i,
    {
        assert(files@.take(i + 1).drop_last() =~= files@.take(i as int));
        proof {
            lemma_local_bytes_prefix(files@, i + 1);
        }
        total = total + files[i].bytes;
        match &files[i].modified {
            Some(t) => {
                let replace = match &latest {
                    None => true,
                    Some(m) => {
                        let c = lex_compare(&chars_of(m.as_str()), &chars_of(t.as_str()));
                        proof {
                            lemma_lex_lt_order(m@, t@);
                        }
                        c < 0
                    },
                };
                if replace {
                    latest = Some(t.clone());
                }
            },
            None => {},
        }
        i += 1;
    }
    assert(files@.take(files.len() as int) =~= files@);
    (total, latest)
}

/// The details of a local backup folder, from the modification stamp of its
/// `mapping.yaml` (if any) and every file under it: `None` when there is
/// neither a stamp nor a byte.
pub fn backup_dir_details(mapping_modified: Option<String>, files: &Vec<LocalFile>) -> (r: Option<RawSaveDetails>)
    requires
        local_bytes(files@) <= u64::MAX,
    ensures
        r is Some <==> (latest_local(opt_string(mapping_modified), files@) is Some || local_bytes(files@) > 0),
        r matches Some(d) ==> d.size_bytes == local_bytes(files@) && opt_string(d.modified) == latest_local(
            opt_string(mapping_modified),
            files@,
        ),
{
    let (total, modified) = fold_local_files(mapping_modified, files);
    if modified.is_some() || total > 0 {
        Some(RawSaveDetails { modified, size_bytes: total })
    } else {
        None
    }
}

/// The details of the saves the backup tool would back up now: `None` when
/// they hold no byte.
pub fn active_save_details(files: &Vec<LocalFile>) -> (r: Option<RawSaveDetails>)
    requires
        local_bytes(files@) <= u64::MAX,
    ensures
        r is Some <==> local_bytes(files@) > 0,
        r matches Some(d) ==> d.size_bytes == local_bytes(files@) && opt_string(d.modified) == latest_local(
            None,
            files@,
        ),
{
    let (total, modified) = fold_local_files(None, files);
    if total > 0 {
        Some(RawSaveDetails { modified, size_bytes: total })
    } else {
        None
    }
}

/// One entry of a recursive `rclone lsjson` listing.
pub struct RemoteEntry {
    pub size: i64,
    pub mod_time: String,
    pub is_dir: bool,
}

/// The bytes an entry adds: a file's size, negative sizes counting as zero.
pub open spec fn entry_bytes(e: RemoteEntry) -> int {
    if e.is_dir || e.size < 0 {
        0
    } else {
        e.size as int
    }
}

/// The total size of the files of `es`.
pub open spec fn remote_bytes(es: Seq<RemoteEntry>) -> int
    decreases es.len(),
{
    if es.len() == 0 {
        0
    } else {
        remote_bytes(es.drop_last()) + entry_bytes(es.last())
    }
}

/// The file of `es` whose modification time (`ts`, entry by entry) is the
/// latest, the last such on a tie, as its instant and its text; entries whose
/// time did not parse are passed over.
pub open spec fn remote_latest(es: Seq<RemoteEntry>, ts: Seq<Option<(i64, u32)>>) -> Option<((i64, u32), Seq<char>)>
    decreases es.len(),
{
    if es.len() == 0 {
        None
    } else {
        let prev = remote_latest(es.drop_last(), ts.drop_last());
        let e = es.last();
        if e.is_dir {
            prev
        } else {
            match ts.last() {
                None => prev,
                Some(t) => match prev {
                    Some(p) => if later(p.0, t) {
                        prev
                    } else {
                        Some((t, e.mod_time@))
                    },
                    None => Some((t, e.mod_time@)),
                },
            }
        }
    }
}

/// The text of a `remote_latest` result.
pub open spec fn latest_text(o: Option<((i64, u32), Seq<char>)>) -> Option<Seq<char>> {
    match o {
        Some(p) => Some(p.1),
        None => None,
    }
}

/// The parsed modification time of each entry.
pub open spec fn remote_times(es: Seq<RemoteEntry>) -> Seq<Option<(i64, u32)>> {
    es.map_values(|e: RemoteEntry| spec_rfc3339(e.mod_time@))
}

proof fn lemma_remote_bytes_prefix(es: Seq<RemoteEntry>, i: int)
    requires
        0 <= i <= es.len(),
    ensures
        remote_bytes(es.take(i)) <= remote_bytes(es),
    decreases es.len(),
{
    if i == es.len() {
        assert(es.take(i) =~= es);
    } else {
        assert(es.drop_last().take(i) =~= es.take(i));
        lemma_remote_bytes_prefix(es.drop_last(), i);
    }
}

/// The details of a cloud save folder from its listing and the parsed
/// modification time of each entry: `None` for an empty listing; otherwise
/// the files' total size and the text of the latest modification time.
pub fn remote_listing_details(items: &Vec<RemoteEntry>, times: &Vec<Option<(i64, u32)>>) -> (r: Option<RawSaveDetails>)
    requires
        times.len() == items.len(),
        remote_bytes(items@) <= u64::MAX,
    ensures
        r is None <==> items.len() == 0,
        r matches Some(d) ==> d.size_bytes == remote_bytes(items@) && opt_string(d.modified) == latest_text(
            remote_latest(items@, times@),
        ),
{
    if items.len() == 0 {
        return None;
    }
    let mut total: u64 = 0;
    let mut best: Option<((i64, u32), String)> = None;
    let mut i: usize = 0;
    assert(items@.take(0) =~= Seq::<RemoteEntry>::empty());
    while i < items.len()
        invariant
            i <= items.len(),
            times.len() == items.len(),
            remote_bytes(items@) <= u64::MAX,
            total == remote_bytes(items@.take(i as int)),
            (match best {
                Some(b) => Some((b.0, b.1@)),
                None => None,
            }) == remote_latest(items@.take(i as int), times@.take(i as int)),
        decreases items.len() - i,
    {
        assert(items@.take(i + 1).drop_last() =~= items@.take(i as int));
        assert(times@.take(i + 1).drop_last() =~= times@.take(i as int));
        proof {
            lemma_remote_bytes_prefix(items@, i + 1);
        }
        let e = &items[i];
        if !e.is_dir {
            if e.size > 0 {
                total = total + e.size as u64;
            }
            match times[i] {
                Some(t) => {
                    let keep = match &best {
                        Some(b) => later_exec(b.0, t),
                        None => false,
                    };
                    if !keep {
                        best = Some((t, e.mod_time.clone()));
                    }
                },
                None => {},
            }
        }
        i += 1;
    }
    assert(items@.take(items.len() as int) =~= items@);
    assert(times@.take(times.len() as int) =~= times@);
    let modified = match best {
        Some(b) => Some(b.1),
        None => None,
    };
    Some(RawSaveDetails { modified, size_bytes: total })
}

/// The details of a cloud save folder from its listing, each entry's
/// modification time parsed as RFC 3339 by `chrono`.
pub fn summarize_remote_listing(items: &Vec<RemoteEntry>) -> (r: Option<RawSaveDetails>)
    requires
        remote_bytes(items@) <= u64::MAX,
    ensures
        r is None <==> items.len() == 0,
        r matches Some(d) ==> d.size_bytes == remote_bytes(items@) && opt_string(d.modified) == latest_text(
            remote_latest(items@, remote_times(items@)),
        ),
{
    let mut times: Vec<Option<(i64, u32)>> = Vec::new();
    let mut i: usize = 0;
    while i < items.len()
        invariant
            i <= items.len(),
            times@ == remote_times(items@).take(i as int),
        decreases items.len() - i,
    {
        let t = parse_rfc3339(items[i].mod_time.as_str());
        times.push(t);
        assert(remote_times(items@).take(i + 1) =~= remote_times(items@).take(i as int).push(t));
        i += 1;
    }
    assert(remote_times(items@).take(items.len() as int) =~= remote_times(items@));
    remote_listing_details(items, &times)
}

} // verus!

verus! {

/// The decimal rendering of a signed 32-bit integer.
fn signed_decimal_i32(n: i32) -> (r: Vec<char>)
    ensures
        r@ == crate::session::signed_decimal(n as int),
{
    if n < 0 {
        let m: i64 = -(n as i64);
        let d = crate::steam::decimal_exec(m as u64);
        let mut v: Vec<char> = Vec::new();
        v.push('-');
        let r = crate::text::concat(&v, &d);
        assert(r@ =~= seq!['-'] + crate::steam::decimal((-(n as int)) as nat));
        r
    } else {
        crate::steam::decimal_exec(n as u64)
    }
}

/// The message of a launch whose process never started.
pub open spec fn launch_failed_msg(err: Seq<char>) -> Seq<char> {
    "Game failed to launch: "@ + err
}

/// The message of a game that exited at once with a crash hint.
pub open spec fn exited_immediately_msg(code: i32, hint: Seq<char>, log_path: Seq<char>) -> Seq<char> {
    "Game exited immediately (code "@ + crate::session::signed_decimal(code as int) + ").\n\n"@ + hint
        + "\n\nFull log: "@ + log_path
}

/// How a launch ends once the game's process is gone: a spawn that failed
/// (`Err` with its error text) fails the launch; a process that exited with
/// a crash hint (`Ok` with its exit code and the hint) fails it with the hint
/// and the path of the full log; any other exit lets the run go on.
pub fn launch_exit_step(spawn: Result<(i32, Option<String>), String>, log_path: &str) -> (r: Result<(), AppError>)
    ensures
        spawn matches Err(e) ==> (r matches Err(AppError::Other(m)) && m@ == launch_failed_msg(e@)),
        spawn matches Ok((code, Some(hint))) ==> (r matches Err(AppError::Other(m)) && m@
            == exited_immediately_msg(code, hint@, log_path@)),
        spawn matches Ok((_, None)) ==> r is Ok,
{
    match spawn {
        Err(e) => {
            let m = crate::text::concat(&chars_of("Game failed to launch: "), &chars_of(e.as_str()));
            Err(AppError::Other(string_of(&m)))
        },
        Ok((code, Some(hint))) => {
            let a = concat3(&chars_of("Game exited immediately (code "), &signed_decimal_i32(code), &chars_of(").\n\n"));
            let b = concat3(&a, &chars_of(hint.as_str()), &chars_of("\n\nFull log: "));
            let m = crate::text::concat(&b, &chars_of(log_path));
            Err(AppError::Other(string_of(&m)))
        },
        Ok((_, None)) => Ok(()),
    }
}

} // verus!
