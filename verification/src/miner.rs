//! The control protocol between the supervisor of the solvers and its
//! workers: the messages, the state machine of a worker, what a worker does
//! with the output of a run, and how the supervisor starts the workers and
//! waits for them to stop.

use crate::plugin::{SolverSolutions, SolverStats, MAX_SOLS};
use crate::random::random_u64;
use crate::shared_data::{JobSharedData, JobSnapshot, JobView, PublishOutcome};
use vstd::prelude::*;

verus! {

/// A message between the supervisor and a worker.
#[derive(Clone, Copy, Debug, PartialEq, Eq, Structural)]
pub enum ControlMessage {
    /// Stop everything.
    Stop,
    /// Stop the current run and wait.
    Pause,
    /// Go on solving.
    Resume,
    /// The worker with this index has stopped and cleaned up.
    SolverStopped(usize),
}

/// Why the supervisor or a worker gave up.
#[derive(Clone, Copy, Debug, PartialEq, Eq, Structural)]
pub enum CuckooMinerError {
    /// The backend of the solver with this index could not be loaded.
    LoadError(usize),
    /// The backend of the worker with this index reported a fault during a
    /// run.
    RuntimeError(usize),
}

/// What a worker is doing.
#[derive(Clone, Copy, Debug, PartialEq, Eq, Structural)]
pub enum WorkerState {
    /// Waiting to be resumed; the state a worker starts in.
    Paused,
    /// Solving.
    Running,
    /// Done for good.
    Stopped,
}

/// What a worker has to do next.
#[derive(Clone, Copy, Debug, PartialEq, Eq, Structural)]
pub enum WorkerAction {
    /// Sleep a moment and look at the messages again.
    Sleep,
    /// Start a run of the backend.
    Solve,
    /// Leave the loop, release the backend and report that it has stopped.
    Exit,
}

/// What the monitor of a worker has to do on a message.
#[derive(Clone, Copy, Debug, PartialEq, Eq, Structural)]
pub enum MonitorAction {
    /// Nothing.
    Ignore,
    /// Ask the backend to stop the run in progress, and go on listening.
    Interrupt,
    /// Ask the backend to stop the run in progress, and end.
    InterruptAndExit,
}

impl WorkerState {
    /// The state of a worker that was in this state and got `message`: a
    /// stopped worker stays stopped; otherwise `Stop` stops it, `Pause`
    /// pauses it, `Resume` sets it running, and anything else changes
    /// nothing.
    pub open spec fn after(self, message: ControlMessage) -> WorkerState {
        match (self, message) {
            (WorkerState::Stopped, _) => WorkerState::Stopped,
            (_, ControlMessage::Stop) => WorkerState::Stopped,
            (_, ControlMessage::Pause) => WorkerState::Paused,
            (_, ControlMessage::Resume) => WorkerState::Running,
            (state, ControlMessage::SolverStopped(_)) => state,
        }
    }

    /// The state after a row of messages, taken in order.
    pub open spec fn after_all(self, messages: Seq<ControlMessage>) -> WorkerState
        decreases messages.len(),
    {
        if messages.len() == 0 {
            self
        } else {
            self.after_all(messages.drop_last()).after(messages.last())
        }
    }
}

/// The job and the nonce of one run.
#[derive(Debug, PartialEq, Eq)]
pub struct RunTicket {
    /// The job as it stood when the run started.
    pub job: JobSnapshot,
    /// The nonce of the run.
    pub nonce: u64,
}

/// One worker of the pool, as far as the control protocol goes.
#[derive(Debug, PartialEq, Eq)]
pub struct SolverWorker {
    /// The index of the worker: its slot in the statistics.
    pub instance: usize,
    /// What the worker is doing.
    pub state: WorkerState,
    /// The number of runs that the worker has made; it stays at the largest
    /// 32-bit number once it has reached it.
    pub iterations: u32,
}

/// What the monitor of a worker does on `message`: `Stop` and `Pause`
/// interrupt the run in progress, and `Stop` ends the monitor.
pub fn monitor_action(message: ControlMessage) -> (action: MonitorAction)
    ensures
        action == (match message {
            ControlMessage::Stop => MonitorAction::InterruptAndExit,
            ControlMessage::Pause => MonitorAction::Interrupt,
            _ => MonitorAction::Ignore,
        }),
{
    match message {
        ControlMessage::Stop => MonitorAction::InterruptAndExit,
        ControlMessage::Pause => MonitorAction::Interrupt,
        _ => MonitorAction::Ignore,
    }
}

impl SolverWorker {
    /// The worker with index `instance`: paused, with no run made.
    pub fn new(instance: usize) -> (worker: SolverWorker)
        ensures
            worker == (SolverWorker { instance, state: WorkerState::Paused, iterations: 0 }),
    {
        SolverWorker { instance, state: WorkerState::Paused, iterations: 0 }
    }

    /// Takes one message of the loop channel.
    pub fn handle(&mut self, message: ControlMessage)
        ensures
            *final(self) == (SolverWorker {
                state: old(self).state.after(message),
                ..*old(self)
            }),
    {
        match self.state {
            WorkerState::Stopped => {},
            _ => {
                match message {
                    ControlMessage::Stop => {
                        self.state = WorkerState::Stopped;
                    },
                    ControlMessage::Pause => {
                        self.state = WorkerState::Paused;
                    },
                    ControlMessage::Resume => {
                        self.state = WorkerState::Running;
                    },
                    ControlMessage::SolverStopped(_) => {},
                }
            },
        }
    }

    /// Takes the messages that have gathered on the loop channel, in order.
    pub fn drain(&mut self, messages: &[ControlMessage])
        ensures
            *final(self) == (SolverWorker {
                state: old(self).state.after_all(messages@),
                ..*old(self)
            }),
    {
        let mut i: usize = 0;
        assert(messages@.take(0) =~= Seq::<ControlMessage>::empty());
        while i < messages.len()
            invariant
                i <= messages@.len(),
                *self == (SolverWorker {
                    state: old(self).state.after_all(messages@.take(i as int)),
                    ..*old(self)
                }),
            decreases messages@.len() - i,
        {
            proof {
                messages@.lemma_take_succ_push(i as int);
                assert(messages@.take(i + 1).drop_last() =~= messages@.take(i as int));
            }
            self.handle(messages[i]);
            i = i + 1;
        }
        assert(messages@.take(messages@.len() as int) =~= messages@);
    }

    /// What the worker has to do next: a paused worker sleeps, a running one
    /// solves, a stopped one leaves.
    pub fn next_action(&self) -> (action: WorkerAction)
        ensures
            action == (match self.state {
                WorkerState::Paused => WorkerAction::Sleep,
                WorkerState::Running => WorkerAction::Solve,
                WorkerState::Stopped => WorkerAction::Exit,
            }),
    {
        match self.state {
            WorkerState::Paused => WorkerAction::Sleep,
            WorkerState::Running => WorkerAction::Solve,
            WorkerState::Stopped => WorkerAction::Exit,
        }
    }

    /// Starts a run: the name of the plugin is written to the worker's
    /// statistics, the job is taken as it stands, and a nonce is drawn at
    /// random.
    pub fn begin_run(&self, shared: &mut JobSharedData, plugin_name: &[u8]) -> (ticket: RunTicket)
        requires
            self.instance < old(shared)@.stats.len(),
        ensures
            ticket.job@ == old(shared)@.snapshot(),
            final(shared)@ == (JobView { stats: final(shared)@.stats, ..old(shared)@ }),
            final(shared)@.stats == old(shared)@.stats.update(
                self.instance as int,
                SolverStats {
                    plugin_name: final(shared)@.stats[self.instance as int].plugin_name,
                    ..old(shared)@.stats[self.instance as int]
                },
            ),
            final(shared)@.stats[self.instance as int].plugin_name@ == crate::plugin::padded_name(
                plugin_name@,
            ),
    {
        self.begin_run_with_nonce(shared, plugin_name, random_u64())
    }

    /// Starts a run under the given nonce: the name of the plugin is written
    /// to the worker's statistics and the job is taken as it stands.
    pub fn begin_run_with_nonce(
        &self,
        shared: &mut JobSharedData,
        plugin_name: &[u8],
        nonce: u64,
    ) -> (ticket: RunTicket)
        requires
            self.instance < old(shared)@.stats.len(),
        ensures
            ticket.nonce == nonce,
            ticket.job@ == old(shared)@.snapshot(),
            final(shared)@ == (JobView { stats: final(shared)@.stats, ..old(shared)@ }),
            final(shared)@.stats == old(shared)@.stats.update(
                self.instance as int,
                SolverStats {
                    plugin_name: final(shared)@.stats[self.instance as int].plugin_name,
                    ..old(shared)@.stats[self.instance as int]
                },
            ),
            final(shared)@.stats[self.instance as int].plugin_name@ == crate::plugin::padded_name(
                plugin_name@,
            ),
    {
        shared.set_plugin_name(self.instance, plugin_name);
        RunTicket { job: shared.snapshot(), nonce }
    }

    /// Ends a run: the run is counted and its output handed in (see
    /// `JobSharedData::publish`). Where the output was accepted and the
    /// backend has reported a fault, the worker stops and the fault comes
    /// back as an error.
    pub fn complete_run(
        &mut self,
        shared: &mut JobSharedData,
        ticket: &RunTicket,
        stats: SolverStats,
        found: &SolverSolutions,
        difficulties: &[u64; MAX_SOLS],
    ) -> (r: Result<PublishOutcome, CuckooMinerError>)
        requires
            old(self).instance < old(shared)@.stats.len(),
            found.num_sols <= MAX_SOLS,
        ensures
            final(self).instance == old(self).instance,
            final(self).iterations == (if old(self).iterations == u32::MAX {
                u32::MAX
            } else {
                (old(self).iterations + 1) as u32
            }),
            r is Err <==> old(shared)@.accepts(ticket.job@) && stats.has_errored,
            r matches Err(e) ==> e == CuckooMinerError::RuntimeError(old(self).instance),
            final(self).state == (if r is Err {
                WorkerState::Stopped
            } else {
                old(self).state
            }),
            r == Ok::<PublishOutcome, CuckooMinerError>(PublishOutcome::Stale) <==> !old(shared)@.accepts(
                ticket.job@,
            ),
            !old(shared)@.accepts(ticket.job@) ==> final(shared)@ == old(shared)@,
            old(shared)@.accepts(ticket.job@) ==> old(shared)@.published_to(
                final(shared)@,
                old(self).instance,
                ticket.job@,
                ticket.nonce,
                final(self).iterations,
                stats,
                *found,
                difficulties@,
            ),
    {
        self.iterations = self.iterations.saturating_add(1);
        let outcome = shared.publish(
            self.instance,
            &ticket.job,
            ticket.nonce,
            self.iterations,
            stats,
            found,
            difficulties,
        );
        match outcome {
            PublishOutcome::Errored => {
                self.state = WorkerState::Stopped;
                Err(CuckooMinerError::RuntimeError(self.instance))
            },
            _ => Ok(outcome),
        }
    }

    /// Ends the worker: what it has to send on its acknowledgment channel.
    /// The worker is used up, so it cannot report twice.
    pub fn finish(self) -> (message: ControlMessage)
        ensures
            message == ControlMessage::SolverStopped(self.instance),
    {
        ControlMessage::SolverStopped(self.instance)
    }
}

/// Whether all the backends were loaded, `loaded` saying of each solver
/// whether its backend was. The workers are started only if all were; else
/// the first solver whose backend is missing is named.
pub fn check_loaded(loaded: &[bool]) -> (r: Result<(), CuckooMinerError>)
    ensures
        r is Ok <==> forall|i: int| 0 <= i < loaded@.len() ==> loaded@[i],
        r matches Err(e) ==> exists|first: int|
            0 <= first < loaded@.len() && !loaded@[first] && e == CuckooMinerError::LoadError(
                first as usize,
            ) && forall|i: int| 0 <= i < first ==> loaded@[i],
{
    let mut i: usize = 0;
    while i < loaded.len()
        invariant
            i <= loaded@.len(),
            forall|j: int| 0 <= j < i ==> loaded@[j],
        decreases loaded@.len() - i,
    {
        if !loaded[i] {
            return Err(CuckooMinerError::LoadError(i));
        }
        i = i + 1;
    }
    Ok(())
}

/// The reports after worker `worker` has sent `message` on its
/// acknowledgment channel: a `SolverStopped` marks the worker as stopped,
/// anything else and any message of an unknown worker changes nothing.
pub open spec fn reported(stopped: Seq<bool>, worker: usize, message: ControlMessage) -> Seq<bool> {
    if worker < stopped.len() && message is SolverStopped {
        stopped.update(worker as int, true)
    } else {
        stopped
    }
}

/// The reports after a row of messages, each with the worker that sent it.
pub open spec fn reported_all(stopped: Seq<bool>, events: Seq<(usize, ControlMessage)>) -> Seq<bool>
    decreases events.len(),
{
    if events.len() == 0 {
        stopped
    } else {
        reported(reported_all(stopped, events.drop_last()), events.last().0, events.last().1)
    }
}

/// The supervisor's wait for the workers to stop: which workers have
/// reported.
#[derive(Debug, PartialEq, Eq)]
pub struct ShutdownWait {
    /// For each worker, whether it has reported that it stopped.
    pub stopped: Vec<bool>,
}

impl View for ShutdownWait {
    type V = Seq<bool>;

    open spec fn view(&self) -> Seq<bool> {
        self.stopped@
    }
}

impl ShutdownWait {
    /// A wait for `workers` workers, none of which has reported.
    pub fn new(workers: usize) -> (wait: ShutdownWait)
        ensures
            wait@.len() == workers,
            forall|i: int| 0 <= i < workers ==> !wait@[i],
    {
        let mut stopped: Vec<bool> = Vec::new();
        let mut i: usize = 0;
        while i < workers
            invariant
                i <= workers,
                stopped@.len() == i,
                forall|j: int| 0 <= j < i ==> !stopped@[j],
            decreases workers - i,
        {
            stopped.push(false);
            i = i + 1;
        }
        ShutdownWait { stopped }
    }

    /// Takes a message that worker `worker` sent on its acknowledgment
    /// channel. The result says whether that worker has reported by now. A
    /// worker that reports again changes nothing.
    pub fn record(&mut self, worker: usize, message: ControlMessage) -> (done: bool)
        ensures
            final(self)@ == reported(old(self)@, worker, message),
            done == (worker < final(self)@.len() && final(self)@[worker as int]),
    {
        if worker >= self.stopped.len() {
            return false;
        }
        match message {
            ControlMessage::SolverStopped(_) => {
                self.stopped[worker] = true;
                true
            },
            _ => self.stopped[worker],
        }
    }

    /// The first worker that has not reported, if there is one: the worker
    /// whose acknowledgment the supervisor waits for next.
    pub fn next_waiting(&self) -> (next: Option<usize>)
        ensures
            next matches Some(worker) ==> worker < self@.len() && !self@[worker as int]
                && forall|i: int| 0 <= i < worker ==> self@[i],
            next is None ==> forall|i: int| 0 <= i < self@.len() ==> self@[i],
    {
        let mut i: usize = 0;
        while i < self.stopped.len()
            invariant
                i <= self@.len(),
                forall|j: int| 0 <= j < i ==> self@[j],
            decreases self@.len() - i,
        {
            if !self.stopped[i] {
                return Some(i);
            }
            i = i + 1;
        }
        None
    }

    /// Whether every worker has reported.
    pub fn is_complete(&self) -> (complete: bool)
        ensures
            complete <==> forall|i: int| 0 <= i < self@.len() ==> self@[i],
    {
        self.next_waiting().is_none()
    }
}

/// The miner as plain mathematics: the shared job data and the state of
/// every worker.
pub ghost struct PoolView {
    pub job: JobView,
    pub workers: Seq<WorkerState>,
}

impl PoolView {
    /// The miner after every worker has taken `message` from its loop
    /// channel. The job data are not touched: no message leads to a write.
    pub open spec fn after_broadcast(self, message: ControlMessage) -> PoolView {
        PoolView {
            workers: Seq::new(self.workers.len(), |i: int| self.workers[i].after(message)),
            ..self
        }
    }
}

/// A worker that is paused and then resumed is running, whatever it did
/// before, unless it had stopped; and a stopped worker stays stopped.
pub proof fn lemma_pause_then_resume(state: WorkerState)
    ensures
        state != WorkerState::Stopped ==> state.after(ControlMessage::Pause).after(
            ControlMessage::Resume,
        ) == WorkerState::Running,
        state == WorkerState::Stopped ==> state.after(ControlMessage::Pause).after(
            ControlMessage::Resume,
        ) == WorkerState::Stopped,
{
}

/// Pausing the solvers and resuming them at once leaves the job data as
/// they were and every worker running that has not stopped.
pub proof fn lemma_pause_then_resume_all(pool: PoolView)
    ensures
        ({
            let after = pool.after_broadcast(ControlMessage::Pause).after_broadcast(
                ControlMessage::Resume,
            );
            &&& after.job == pool.job
            &&& after.workers.len() == pool.workers.len()
            &&& forall|i: int|
                0 <= i < pool.workers.len() ==> #[trigger] after.workers[i] == (if pool.workers[i]
                    == WorkerState::Stopped {
                    WorkerState::Stopped
                } else {
                    WorkerState::Running
                })
        }),
{
}

/// After the solvers were told to stop every worker is stopped, whatever it
/// did before.
pub proof fn lemma_stop_all(pool: PoolView)
    ensures
        ({
            let after = pool.after_broadcast(ControlMessage::Stop);
            &&& after.job == pool.job
            &&& after.workers.len() == pool.workers.len()
            &&& forall|i: int|
                0 <= i < pool.workers.len() ==> #[trigger] after.workers[i] == WorkerState::Stopped
        }),
{
}

/// Once a worker has got `Stop` it is stopped, whatever comes after.
pub proof fn lemma_stop_is_final(state: WorkerState, messages: Seq<ControlMessage>)
    ensures
        state.after(ControlMessage::Stop).after_all(messages) == WorkerState::Stopped,
    decreases messages.len(),
{
    if messages.len() > 0 {
        lemma_stop_is_final(state, messages.drop_last());
    }
}

/// Whether `events` holds a `SolverStopped` of worker `worker`.
pub open spec fn has_reported(events: Seq<(usize, ControlMessage)>, worker: usize) -> bool {
    exists|k: int| 0 <= k < events.len() && (#[trigger] events[k]).0 == worker && events[k].1 is SolverStopped
}

/// After any row of messages, a worker counts as stopped exactly when it was
/// so before or a `SolverStopped` of it is among the messages: one report is
/// enough, and further reports change nothing.
pub proof fn lemma_reports_counted_once(stopped: Seq<bool>, events: Seq<(usize, ControlMessage)>)
    ensures
        reported_all(stopped, events).len() == stopped.len(),
        forall|worker: usize|
            worker < stopped.len() ==> (#[trigger] reported_all(stopped, events)[worker as int] <==> (
            stopped[worker as int] || has_reported(events, worker))),
    decreases events.len(),
{
    if events.len() > 0 {
        let earlier = events.drop_last();
        lemma_reports_counted_once(stopped, earlier);
        assert forall|worker: usize| worker < stopped.len() implies (#[trigger] reported_all(
            stopped,
            events,
        )[worker as int] <==> (stopped[worker as int] || has_reported(events, worker))) by {
            if has_reported(earlier, worker) {
                let k = choose|k: int|
                    0 <= k < earlier.len() && (#[trigger] earlier[k]).0 == worker
                        && earlier[k].1 is SolverStopped;
                assert(events[k].0 == worker && events[k].1 is SolverStopped);
            }
            if has_reported(events, worker) {
                let k = choose|k: int|
                    0 <= k < events.len() && (#[trigger] events[k]).0 == worker
                        && events[k].1 is SolverStopped;
                if k < earlier.len() {
                    assert(earlier[k].0 == worker && earlier[k].1 is SolverStopped);
                }
            }
            if events.last().0 == worker && events.last().1 is SolverStopped {
                assert(events[events.len() - 1].0 == worker);
            }
        }
    }
}

} // verus!
