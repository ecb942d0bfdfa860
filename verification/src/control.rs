use vstd::prelude::*;
use vstd::rwlock::{RwLock, RwLockPredicate};
use std::sync::Arc;
use crate::channel::pause_briefly;
use crate::error::FlowError;

verus! {

/// Relies on std::sync::Arc::clone: another handle on the same shared
/// value.
#[verifier::external_body]
pub(crate) fn arc_clone<T>(v: &Arc<T>) -> (res: Arc<T>)
    ensures
        res == *v,
{
    Arc::clone(v)
}

/// The shared run-status every worker polls: the single cancellation and
/// pause mechanism of the whole graph.
#[derive(Clone, Copy, Debug, PartialEq, Eq, Structural)]
pub enum RunStatus {
    Running,
    Paused,
    Ending,
}

/// The whole cross-thread control surface: one status value and one
/// error slot, the only state more than one thread mutates.
pub struct ControlState {
    pub status: RunStatus,
    pub error: Option<FlowError>,
}

impl ControlState {
    /// Once an error is recorded the graph is ending: the slot is written
    /// only together with the shutdown signal.
    pub open spec fn inv(self) -> bool {
        self.error is Some ==> self.status == RunStatus::Ending
    }

    /// Pausing takes effect only from the running state; a graph that is
    /// ending stays ending.
    pub fn on_pause(self) -> (r: ControlState)
        requires
            self.inv(),
        ensures
            r.inv(),
            self.status == RunStatus::Running ==> r.status == RunStatus::Paused,
            self.status != RunStatus::Running ==> r == self,
            r.error == self.error,
    {
        match self.status {
            RunStatus::Running => ControlState { status: RunStatus::Paused, ..self },
            _ => self,
        }
    }

    /// Resuming takes effect only from the paused state.
    pub fn on_resume(self) -> (r: ControlState)
        requires
            self.inv(),
        ensures
            r.inv(),
            self.status == RunStatus::Paused ==> r.status == RunStatus::Running,
            self.status != RunStatus::Paused ==> r == self,
            r.error == self.error,
    {
        match self.status {
            RunStatus::Paused => ControlState { status: RunStatus::Running, ..self },
            _ => self,
        }
    }

    /// Cancelling always ends the graph; a recorded error is kept.
    pub fn on_cancel(self) -> (r: ControlState)
        requires
            self.inv(),
        ensures
            r.inv(),
            r.status == RunStatus::Ending,
            r.error == self.error,
    {
        ControlState { status: RunStatus::Ending, ..self }
    }

    /// What recording an error yields: the first writer wins, every later
    /// error is discarded, and the status always flips to ending.
    pub open spec fn spec_on_error(self, e: FlowError) -> ControlState {
        match self.error {
            None => ControlState { status: RunStatus::Ending, error: Some(e) },
            Some(_) => ControlState { status: RunStatus::Ending, ..self },
        }
    }

    /// Records a terminal error: the first writer wins, every later error
    /// is discarded, and recording always flips the status to ending.
    pub fn on_error(self, e: FlowError) -> (r: ControlState)
        requires
            self.inv(),
        ensures
            r == self.spec_on_error(e),
            r.inv(),
            r.status == RunStatus::Ending,
            self.error is None ==> r.error == Some(e),
            self.error is Some ==> r.error == self.error,
    {
        match self.error {
            None => ControlState { status: RunStatus::Ending, error: Some(e) },
            Some(_) => ControlState { status: RunStatus::Ending, ..self },
        }
    }
}

/// Whatever later errors arrive, the error recorded first is the one the
/// slot keeps surfacing.
pub proof fn lemma_first_error_wins(s: ControlState, e1: FlowError, e2: FlowError)
    requires
        s.inv(),
        s.error is None,
    ensures
        s.spec_on_error(e1).spec_on_error(e2).error == Some(e1),
{
}

/// The lock predicate tying the control state to its invariant.
pub struct ControlPred {
    pub unused: (),
}

impl RwLockPredicate<ControlState> for ControlPred {
    open spec fn inv(self, v: ControlState) -> bool {
        v.inv()
    }
}

/// A shared handle on the scheduler's control state.  Every worker holds
/// one; reads and writes go through a verified reader-writer lock whose
/// invariant is `ControlState::inv`.
pub struct SchedulerControl {
    pub lock: Arc<RwLock<ControlState, ControlPred>>,
}

impl SchedulerControl {
    /// Fresh control state: running, no error.
    pub fn new() -> (r: SchedulerControl) {
        let state = ControlState { status: RunStatus::Running, error: None };
        SchedulerControl {
            lock: Arc::new(RwLock::new(state, Ghost(ControlPred { unused: () }))),
        }
    }

    /// Another handle on the same control state, for another worker.
    pub fn clone_handle(&self) -> (r: SchedulerControl)
        ensures
            r.lock == self.lock,
    {
        SchedulerControl { lock: arc_clone(&self.lock) }
    }

    /// The status at the moment of the read.
    pub fn status(&self) -> (s: RunStatus) {
        let handle = self.lock.acquire_read();
        let s = handle.borrow().status;
        handle.release_read();
        s
    }

    /// Asks every worker to pause after its current unit.
    pub fn pause(&self) {
        let (v, handle) = self.lock.acquire_write();
        handle.release_write(v.on_pause());
    }

    /// Lets paused workers continue.
    pub fn resume(&self) {
        let (v, handle) = self.lock.acquire_write();
        handle.release_write(v.on_resume());
    }

    /// Asks every worker to exit at its next status check.
    pub fn cancel(&self) {
        let (v, handle) = self.lock.acquire_write();
        handle.release_write(v.on_cancel());
    }

    /// Escalates a worker's error: records it if the slot is empty and
    /// flips the status to ending either way.  Returns whether this call
    /// was the one that filled the slot.
    pub fn set_error(&self, e: FlowError) -> (won: bool) {
        let (v, handle) = self.lock.acquire_write();
        let won = match v.error {
            None => true,
            Some(_) => false,
        };
        handle.release_write(v.on_error(e));
        won
    }

    /// Takes the recorded error out of the slot, leaving the status as it
    /// is: what `wait` surfaces once every worker has joined.
    pub fn take_result(&self) -> (r: Result<(), FlowError>) {
        let (v, handle) = self.lock.acquire_write();
        let ControlState { status, error } = v;
        handle.release_write(ControlState { status: RunStatus::Ending, error: None });
        match error {
            None => Ok(()),
            Some(e) => Err(e),
        }
    }

    /// Blocks cooperatively while the graph is paused, polling the status
    /// with a short sleep between reads so cancellation stays responsive.
    ///
    /// The poll budget bounds the wait; it is far beyond any realistic
    /// pause, and a worker whose budget somehow ran dry behaves as if it
    /// were cancelled.  Never returns the paused status.
    pub fn wait_until_not_paused(&self, mut budget: u64) -> (s: RunStatus)
        ensures
            s != RunStatus::Paused,
    {
        loop
            decreases budget,
        {
            let s = self.status();
            match s {
                RunStatus::Paused => {
                    if budget == 0 {
                        return RunStatus::Ending;
                    }
                    budget = budget - 1;
                    pause_briefly(1);
                }
                RunStatus::Running => {
                    return RunStatus::Running;
                }
                RunStatus::Ending => {
                    return RunStatus::Ending;
                }
            }
        }
    }
}

} // verus!
