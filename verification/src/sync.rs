//! The sync engine's decision logic: given what one sync attempt observed
//! about a clone and its remote, choose the safe next action.  The engine
//! is deliberately conservative: it only ever fast-forwards a clean
//! branch, and otherwise leaves local state untouched.

use vstd::prelude::*;

verus! {

/// Terminal outcome of one sync attempt.  The skip outcomes are not
/// errors: they are successful no-ops that protect local state.
#[derive(Debug, Clone, Copy, PartialEq, Eq, Structural)]
pub enum SyncOutcome {
    /// The local branch was moved forward by this many commits.
    FastForwarded(usize),
    /// Nothing to reconcile.
    UpToDate,
    /// Local and remote each have commits the other lacks; no merge is
    /// attempted.
    DivergedSkipped,
    /// The working directory holds uncommitted modifications; nothing is
    /// merged over them.
    LocalChangesSkipped,
}

/// Why a sync attempt failed outright.
#[derive(Debug, Clone, Copy, PartialEq, Eq, Structural)]
pub enum SyncError {
    /// The record's `local_path` does not exist on disk.
    PathMissing,
    /// The directory is not a valid clone.
    OpenFailed,
    /// No remote named `origin` is configured.
    NoOrigin,
    /// Fetching from `origin` failed.
    FetchFailed,
    /// Reading status, head or commit information failed.
    InspectFailed,
    /// Moving the branch reference or updating the working directory
    /// failed.
    FastForwardFailed,
}

/// What one sync attempt observed after fetching: whether the working
/// directory is dirty, whether the head names a branch, whether that
/// branch has a remote-tracking counterpart, and the ahead/behind commit
/// counts between the two tips.
#[derive(Debug, Clone, Copy, PartialEq, Eq, Structural)]
pub struct SyncObservation {
    pub dirty: bool,
    pub on_branch: bool,
    pub remote_ref_found: bool,
    pub ahead: usize,
    pub behind: usize,
}

/// The decision rule, in order: uncommitted local work is never touched;
/// a detached head or a branch without a remote-tracking counterpart has
/// nothing to reconcile; a clean branch strictly behind its remote is
/// fast-forwarded; divergence is skipped; otherwise the clone is current.
pub open spec fn spec_decide(o: SyncObservation) -> SyncOutcome {
    if o.dirty {
        SyncOutcome::LocalChangesSkipped
    } else if !o.on_branch {
        SyncOutcome::UpToDate
    } else if !o.remote_ref_found {
        SyncOutcome::UpToDate
    } else if o.ahead == 0 && o.behind > 0 {
        SyncOutcome::FastForwarded(o.behind)
    } else if o.ahead > 0 && o.behind > 0 {
        SyncOutcome::DivergedSkipped
    } else {
        SyncOutcome::UpToDate
    }
}

/// Decides the outcome of a sync attempt from its observation, exactly as
/// `spec_decide` says.
pub fn decide_sync(o: SyncObservation) -> (r: SyncOutcome)
    ensures
        r == spec_decide(o),
{
    if o.dirty {
        SyncOutcome::LocalChangesSkipped
    } else if !o.on_branch {
        SyncOutcome::UpToDate
    } else if !o.remote_ref_found {
        SyncOutcome::UpToDate
    } else if o.ahead == 0 && o.behind > 0 {
        SyncOutcome::FastForwarded(o.behind)
    } else if o.ahead > 0 && o.behind > 0 {
        SyncOutcome::DivergedSkipped
    } else {
        SyncOutcome::UpToDate
    }
}

/// A model of the observable state of one local clone: the tip of the
/// checked-out branch, the tip of its remote-tracking reference (if any),
/// the commit counts each side has over the other, and whether the
/// working directory is clean.  Commit identities are abstract numbers.
#[derive(Debug, Clone, Copy, PartialEq, Eq, Structural)]
pub struct RepoState {
    pub dirty: bool,
    pub on_branch: bool,
    pub remote_tracking: Option<u64>,
    pub local_tip: u64,
    pub ahead: usize,
    pub behind: usize,
}

/// Consistency of the counts with the tips: the two tips are equal
/// exactly when neither side has commits over the other.
pub open spec fn state_wf(s: RepoState) -> bool {
    s.remote_tracking matches Some(r) ==> ((s.ahead == 0 && s.behind == 0) <==> s.local_tip == r)
}

/// What one sync attempt observes of a state.
pub open spec fn observe(s: RepoState) -> SyncObservation {
    SyncObservation {
        dirty: s.dirty,
        on_branch: s.on_branch,
        remote_ref_found: s.remote_tracking is Some,
        ahead: s.ahead,
        behind: s.behind,
    }
}

/// How an outcome changes the state: a fast-forward moves the local tip
/// to the remote tip (after which neither side is ahead); every other
/// outcome changes nothing.
pub open spec fn spec_apply(s: RepoState, r: SyncOutcome) -> RepoState {
    match r {
        SyncOutcome::FastForwarded(_) => RepoState {
            local_tip: if s.remote_tracking is Some {
                s.remote_tracking->0
            } else {
                s.local_tip
            },
            ahead: 0,
            behind: 0,
            ..s
        },
        _ => s,
    }
}

/// Syncing an up-to-date repository is idempotent: it changes nothing,
/// and a second attempt over the same state observes `UpToDate` again.
pub proof fn lemma_up_to_date_idempotent(s: RepoState)
    requires
        spec_decide(observe(s)) == SyncOutcome::UpToDate,
    ensures
        spec_apply(s, SyncOutcome::UpToDate) == s,
        spec_decide(observe(spec_apply(s, SyncOutcome::UpToDate))) == SyncOutcome::UpToDate,
{
}

/// Fast-forward correctness: a clean branch strictly behind its remote by
/// `n` commits yields `FastForwarded(n)`, and afterwards the local branch
/// tip equals the remote tip and a further sync observes `UpToDate`.
pub proof fn lemma_fast_forward_correct(s: RepoState)
    requires
        state_wf(s),
        !s.dirty,
        s.on_branch,
        s.remote_tracking is Some,
        s.ahead == 0,
        s.behind > 0,
    ensures
        spec_decide(observe(s)) == SyncOutcome::FastForwarded(s.behind),
        spec_apply(s, SyncOutcome::FastForwarded(s.behind)).local_tip == s.remote_tracking->0,
        state_wf(spec_apply(s, SyncOutcome::FastForwarded(s.behind))),
        spec_decide(observe(spec_apply(s, SyncOutcome::FastForwarded(s.behind))))
            == SyncOutcome::UpToDate,
{
}

/// Safety of local work: any uncommitted modification makes the attempt a
/// `LocalChangesSkipped` no-op, whatever the remote state.
pub proof fn lemma_local_changes_safe(s: RepoState)
    requires
        s.dirty,
    ensures
        spec_decide(observe(s)) == SyncOutcome::LocalChangesSkipped,
        spec_apply(s, SyncOutcome::LocalChangesSkipped) == s,
{
}

/// Divergence safety: commits on both sides make the attempt a
/// `DivergedSkipped` no-op; no reference moves.
pub proof fn lemma_diverged_safe(s: RepoState)
    requires
        !s.dirty,
        s.on_branch,
        s.remote_tracking is Some,
        s.ahead > 0,
        s.behind > 0,
    ensures
        spec_decide(observe(s)) == SyncOutcome::DivergedSkipped,
        spec_apply(s, SyncOutcome::DivergedSkipped) == s,
{
}

} // verus!
