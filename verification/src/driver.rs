//! The convergence driver: walks the two action sets of a reconciliation,
//! delete phase strictly before sync phase, and collects per-item transfer
//! failures instead of aborting, so one broken item never blocks the rest.
//! The caller performs the outside work (removal, fetch, store) and hands
//! each result back; every decision about it is made here.

use vstd::prelude::*;
use crate::gz::gzip_compress;
use crate::gz::gzip_decompress;
use crate::gz::ungzip_of;
use crate::reconcile::SyncActions;
use crate::reconcile::path_views;

verus! {

/// One per-item failure: the path and its cause, kept with enough detail
/// to retry exactly that item.
pub struct Failure {
    pub path: String,
    pub cause: String,
}

/// The (path, cause) pairs of a failure list.
pub open spec fn failures_model(s: Seq<Failure>) -> Seq<(Seq<char>, Seq<char>)> {
    s.map_values(|f: Failure| (f.path@, f.cause@))
}

/// What the caller's removal step reported for one path.
pub enum RemoveOutcome {
    /// The target existed and is gone now.
    Removed,
    /// The target was not there to begin with.
    AlreadyAbsent,
    /// Removal failed for another reason.
    RemoveFailed(String),
}

/// The next piece of outside work a run needs done.
pub enum PendingAction {
    /// Remove this path from the store being converged.
    Remove(String),
    /// Fetch (download) or read (upload) this path's content.
    Transfer(String),
    /// Every action is processed; ask for the report.
    Done,
}

/// Tracks one run's progress through its action sets.
pub struct ConvergenceDriver {
    actions: SyncActions,
    removed: usize,
    transferred: usize,
    failures: Vec<Failure>,
}

impl ConvergenceDriver {
    /// The paths to remove, in order.
    pub closed spec fn delete_paths(&self) -> Seq<Seq<char>> {
        path_views(self.actions.to_delete@)
    }

    /// The paths to transfer, in order.
    pub closed spec fn sync_paths(&self) -> Seq<Seq<char>> {
        path_views(self.actions.to_sync@)
    }

    /// How many removals were concluded.
    pub closed spec fn removed_count(&self) -> int {
        self.removed as int
    }

    /// How many transfers were concluded.
    pub closed spec fn transferred_count(&self) -> int {
        self.transferred as int
    }

    /// The failures recorded so far, oldest first.
    pub closed spec fn failure_log(&self) -> Seq<(Seq<char>, Seq<char>)> {
        failures_model(self.failures@)
    }

    /// Progress never passes the end of either action set.
    pub open spec fn wf(&self) -> bool {
        0 <= self.removed_count() <= self.delete_paths().len() && 0 <= self.transferred_count()
            <= self.sync_paths().len()
    }

    /// Both drivers walk the same action sets.
    pub open spec fn same_plan(&self, other: &Self) -> bool {
        self.delete_paths() == other.delete_paths() && self.sync_paths() == other.sync_paths()
    }

    /// A driver at the start of the given action sets.
    pub fn new(actions: SyncActions) -> (d: ConvergenceDriver)
        ensures
            d.wf(),
            d.delete_paths() == path_views(actions.to_delete@),
            d.sync_paths() == path_views(actions.to_sync@),
            d.removed_count() == 0,
            d.transferred_count() == 0,
            d.failure_log() == Seq::<(Seq<char>, Seq<char>)>::empty(),
    {
        let d = ConvergenceDriver { actions, removed: 0, transferred: 0, failures: Vec::new() };
        proof {
            assert(d.failure_log() =~= Seq::<(Seq<char>, Seq<char>)>::empty());
        }
        d
    }

    /// What to do next: every removal comes before any transfer, so a path
    /// leaving under an old identity and returning under a new one never
    /// collides on disk mid-run.
    pub fn next_action(&self) -> (a: PendingAction)
        requires
            self.wf(),
        ensures
            match a {
                PendingAction::Remove(p) => self.removed_count() < self.delete_paths().len() && p@
                    == self.delete_paths()[self.removed_count()],
                PendingAction::Transfer(p) => self.removed_count() == self.delete_paths().len()
                    && self.transferred_count() < self.sync_paths().len() && p@
                    == self.sync_paths()[self.transferred_count()],
                PendingAction::Done => self.removed_count() == self.delete_paths().len()
                    && self.transferred_count() == self.sync_paths().len(),
            },
    {
        if self.removed < self.actions.to_delete.len() {
            PendingAction::Remove(self.actions.to_delete[self.removed].clone())
        } else if self.transferred < self.actions.to_sync.len() {
            PendingAction::Transfer(self.actions.to_sync[self.transferred].clone())
        } else {
            PendingAction::Done
        }
    }

    /// Concludes the pending removal. A target that was already absent is
    /// no error — the removal is idempotent — and counts as done like a
    /// successful one; nothing is recorded for either. Any other removal
    /// failure is fatal: the run must abort at once.
    pub fn note_remove(&mut self, outcome: RemoveOutcome) -> (fatal: bool)
        requires
            old(self).wf(),
            old(self).removed_count() < old(self).delete_paths().len(),
        ensures
            final(self).wf(),
            final(self).same_plan(old(self)),
            final(self).transferred_count() == old(self).transferred_count(),
            final(self).failure_log() == old(self).failure_log(),
            match outcome {
                RemoveOutcome::Removed | RemoveOutcome::AlreadyAbsent => !fatal
                    && final(self).removed_count() == old(self).removed_count() + 1,
                RemoveOutcome::RemoveFailed(_) => fatal
                    && final(self).removed_count() == old(self).removed_count(),
            },
    {
        match outcome {
            RemoveOutcome::Removed | RemoveOutcome::AlreadyAbsent => {
                let _bound = self.actions.to_delete.len();
                self.removed = self.removed + 1;
                false
            },
            RemoveOutcome::RemoveFailed(_) => true,
        }
    }

    /// Concludes the pending download transfer from what the fetch step
    /// brought. A fetched object is decompressed here; the plain bytes
    /// come back for the caller to write into place. A fetch or
    /// decompression failure is recorded under the path — not raised —
    /// and the run continues with the remaining paths.
    pub fn note_fetched(&mut self, fetched: Result<Vec<u8>, String>) -> (out: Option<Vec<u8>>)
        requires
            old(self).wf(),
            old(self).removed_count() == old(self).delete_paths().len(),
            old(self).transferred_count() < old(self).sync_paths().len(),
        ensures
            final(self).wf(),
            final(self).same_plan(old(self)),
            final(self).removed_count() == old(self).removed_count(),
            final(self).transferred_count() == old(self).transferred_count() + 1,
            match out {
                Some(plain) => {
                    &&& fetched matches Ok(raw) && ungzip_of(raw@) == Some(plain@)
                    &&& final(self).failure_log() == old(self).failure_log()
                },
                None => {
                    &&& final(self).failure_log() == old(self).failure_log().push(
                        final(self).failure_log().last(),
                    )
                    &&& final(self).failure_log().last().0
                        == old(self).sync_paths()[old(self).transferred_count()]
                    &&& (fetched matches Err(c) ==> final(self).failure_log().last().1 == c@)
                    &&& (fetched matches Ok(raw) ==> ungzip_of(raw@) is None)
                },
            },
    {
        let ghost old_log = self.failure_log();
        let _bound = self.actions.to_sync.len();
        let path = self.actions.to_sync[self.transferred].clone();
        self.transferred = self.transferred + 1;
        match fetched {
            Ok(raw) => match gzip_decompress(&raw) {
                Ok(plain) => Some(plain),
                Err(cause) => {
                    let ghost f = (path@, cause@);
                    self.failures.push(Failure { path, cause });
                    proof {
                        assert(self.failure_log() =~= old_log.push(f));
                    }
                    None
                },
            },
            Err(cause) => {
                let ghost f = (path@, cause@);
                self.failures.push(Failure { path, cause });
                proof {
                    assert(self.failure_log() =~= old_log.push(f));
                }
                None
            },
        }
    }

    /// Concludes the pending upload transfer from what the read step
    /// brought. Local content is compressed here; the compressed bytes
    /// come back for the caller to write to the remote location,
    /// overwriting whatever is there. A read failure is recorded under the
    /// path and the run continues.
    pub fn prepare_upload(&mut self, contents: Result<Vec<u8>, String>) -> (out: Option<Vec<u8>>)
        requires
            old(self).wf(),
            old(self).removed_count() == old(self).delete_paths().len(),
            old(self).transferred_count() < old(self).sync_paths().len(),
        ensures
            final(self).wf(),
            final(self).same_plan(old(self)),
            final(self).removed_count() == old(self).removed_count(),
            final(self).transferred_count() == old(self).transferred_count() + 1,
            match out {
                Some(packed) => {
                    &&& contents matches Ok(raw) && ungzip_of(packed@) == Some(raw@)
                    &&& final(self).failure_log() == old(self).failure_log()
                },
                None => {
                    &&& contents matches Err(c)
                    &&& final(self).failure_log() == old(self).failure_log().push(
                        (old(self).sync_paths()[old(self).transferred_count()], c@),
                    )
                },
            },
    {
        let ghost old_log = self.failure_log();
        let _bound = self.actions.to_sync.len();
        let path = self.actions.to_sync[self.transferred].clone();
        self.transferred = self.transferred + 1;
        match contents {
            Ok(raw) => Some(gzip_compress(&raw)),
            Err(cause) => {
                let ghost f = (path@, cause@);
                self.failures.push(Failure { path, cause });
                proof {
                    assert(self.failure_log() =~= old_log.push(f));
                }
                None
            },
        }
    }

    /// The run's outcome once every action is processed: success only when
    /// no per-item failure was recorded; otherwise every failure, each with
    /// its cause, so the caller can report and retry. Completed work stays
    /// committed either way.
    pub fn into_report(self) -> (r: Result<(), Vec<Failure>>)
        requires
            self.wf(),
            self.removed_count() == self.delete_paths().len(),
            self.transferred_count() == self.sync_paths().len(),
        ensures
            match r {
                Ok(_) => self.failure_log().len() == 0,
                Err(v) => failures_model(v@) == self.failure_log() && v@.len() > 0,
            },
    {
        if self.failures.len() == 0 {
            Ok(())
        } else {
            Err(self.failures)
        }
    }
}

} // verus!
