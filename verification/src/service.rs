//! The concurrently shared registry.
//!
//! One [`Registry`] is created at process start and shared by reference
//! between every trigger handler, every job runner and every console
//! reader. It guards the registry state with a reader–writer lock whose
//! invariant is [`RegistryState::wf`], so every writer must hand back a
//! well-formed state and every reader observes one: whatever interleaving
//! the callers produce, each snapshot shows well-formed jobs — per-stream
//! output complete and in write order, status absent exactly until the
//! process ended, identifiers distinct.
//!
//! Writes hold the lock only for the duration of one state transition, so a
//! job runner appending output never blocks readers indefinitely, and a
//! reader never observes a half-applied append.

use crate::job::Termination;
use crate::output::Channel;
use crate::registry::renders;
use crate::registry::JobView;
use crate::registry::RegistryState;
use vstd::prelude::*;
use vstd::rwlock::RwLock;
use vstd::rwlock::RwLockPredicate;

verus! {

/// The lock invariant: the guarded state is always a well-formed registry.
pub struct RegistryInv {}

impl RwLockPredicate<RegistryState> for RegistryInv {
    open spec fn inv(self, v: RegistryState) -> bool {
        v.wf()
    }
}

/// There is a well-formed registry state in which `id` names a job for
/// `application`.
pub open spec fn registered(id: u64, application: Seq<char>) -> bool {
    exists|st: RegistryState|
        #![trigger st.jobs@]
        st.wf() && id < st.jobs@.len() && st.jobs@[id as int].id == id && st.jobs@[
            id as int
        ].application@ == application
}

/// In the well-formed registry state the call observed, `ok` says exactly
/// whether `id` named a job that was still running.
pub open spec fn accepted(st: RegistryState, id: u64, ok: bool) -> bool {
    st.wf() && (ok <==> (id < st.jobs@.len() && st.jobs@[id as int].result.running()))
}

/// The append-only job collection behind a reader–writer lock, safe to
/// share between concurrent triggers, runners and console readers.
pub struct Registry {
    guarded: RwLock<RegistryState, RegistryInv>,
}

impl Registry {
    /// A fresh, empty registry.
    pub fn new() -> Registry {
        Registry { guarded: RwLock::new(RegistryState::new(), Ghost(RegistryInv {})) }
    }

    /// Registers a new job for `application` and returns its identifier,
    /// without waiting for any deploy to run: the caller launches the
    /// runner separately and returns at once.
    pub fn submit(&self, application: String) -> (id: u64)
        ensures
            registered(id, application@),
    {
        let ghost app_chars = application@;
        let (mut st, handle) = self.guarded.acquire_write();
        let id = st.submit(application);
        proof {
            assert(st.wf() && id < st.jobs@.len() && st.jobs@[id as int].id == id && st.jobs@[
                id as int
            ].application@ == app_chars);
        }
        handle.release_write(st);
        id
    }

    /// Feeds one chunk read from the given stream of the job's process.
    /// Returns false when no job has this identifier or the job has already
    /// finished; in either case nothing changes. No other job is touched.
    pub fn feed(&self, id: u64, channel: Channel, chunk: &[u8]) -> (ok: bool)
        ensures
            exists|st: RegistryState| #[trigger] accepted(st, id, ok),
    {
        let (mut st, handle) = self.guarded.acquire_write();
        let ghost observed = st;
        let ok = st.feed(id, channel, chunk);
        proof {
            assert(accepted(observed, id, ok));
        }
        handle.release_write(st);
        ok
    }

    /// Records how the job's process ended. Returns false when no job has
    /// this identifier or the job has already finished; in either case
    /// nothing changes. One job's failure never reaches another.
    pub fn finish(&self, id: u64, how: Termination) -> (ok: bool)
        ensures
            exists|st: RegistryState| #[trigger] accepted(st, id, ok),
    {
        let (mut st, handle) = self.guarded.acquire_write();
        let ghost observed = st;
        let ok = st.finish(id, how);
        proof {
            assert(accepted(observed, id, ok));
        }
        handle.release_write(st);
        ok
    }

    /// A point-in-time snapshot for the console: the rendering of a
    /// well-formed registry state, one view per job in submission order.
    pub fn list_jobs(&self) -> (views: Vec<JobView>)
        ensures
            exists|st: RegistryState| st.wf() && #[trigger] renders(st, views@),
    {
        let read = self.guarded.acquire_read();
        let st = read.borrow();
        let views = st.render();
        proof {
            assert(st.wf() && renders(*st, views@));
        }
        read.release_read();
        views
    }
}

} // verus!
