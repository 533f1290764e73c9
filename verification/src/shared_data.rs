//! The mining job that the supervisor hands to the workers, with the
//! workers' statistics and the solutions they have published.

use crate::plugin::{Solution, SolverSolutions, SolverStats, MAX_SOLS};
use vstd::prelude::*;

verus! {

/// The job that the workers search, as one worker saw it when it started a
/// run.
#[derive(Debug, PartialEq, Eq)]
pub struct JobSnapshot {
    /// The header to solve for.
    pub header: Vec<u8>,
    /// The height of the block that the job is for.
    pub height: u64,
    /// The id of the job.
    pub job_id: u32,
    /// The difficulty that a solution has to reach.
    pub difficulty: u64,
}

/// Data shared between the supervisor and its workers.
#[derive(Debug)]
pub struct JobSharedData {
    /// The id of the current job.
    pub job_id: u32,
    /// The height of the block that the current job is for.
    pub height: u64,
    /// The header to solve for.
    pub header: Vec<u8>,
    /// The difficulty that a solution has to reach.
    pub difficulty: u64,
    /// The batches of solutions that the workers have published; the last one
    /// is retrieved first.
    pub solutions: Vec<SolverSolutions>,
    /// The statistics of the workers, one slot for each.
    pub stats: Vec<SolverStats>,
}

/// A snapshot as plain mathematics.
pub ghost struct SnapshotView {
    pub header: Seq<u8>,
    pub height: u64,
    pub job_id: u32,
    pub difficulty: u64,
}

/// The shared data as plain mathematics.
pub ghost struct JobView {
    pub job_id: u32,
    pub height: u64,
    pub header: Seq<u8>,
    pub difficulty: u64,
    pub solutions: Seq<SolverSolutions>,
    pub stats: Seq<SolverStats>,
}

impl View for JobSnapshot {
    type V = SnapshotView;

    open spec fn view(&self) -> SnapshotView {
        SnapshotView {
            header: self.header@,
            height: self.height,
            job_id: self.job_id,
            difficulty: self.difficulty,
        }
    }
}

impl Clone for JobSnapshot {
    fn clone(&self) -> (copy: JobSnapshot)
        ensures
            copy@ == self@,
    {
        JobSnapshot {
            header: self.header.clone(),
            height: self.height,
            job_id: self.job_id,
            difficulty: self.difficulty,
        }
    }
}

impl View for JobSharedData {
    type V = JobView;

    open spec fn view(&self) -> JobView {
        JobView {
            job_id: self.job_id,
            height: self.height,
            header: self.header@,
            difficulty: self.difficulty,
            solutions: self.solutions@,
            stats: self.stats@,
        }
    }
}

/// What became of the output of a run.
#[derive(Clone, Copy, Debug, PartialEq, Eq, Structural)]
pub enum PublishOutcome {
    /// The job had moved to another height during the run: the output was
    /// dropped and nothing was changed.
    Stale,
    /// The statistics were recorded and the solutions that reach the target
    /// difficulty were published.
    Published,
    /// As `Published`, and the backend has reported a fault: the worker has
    /// to stop.
    Errored,
}

/// A job that the supervisor is notified of.
pub ghost struct JobRequest {
    pub job_id: u32,
    pub height: u64,
    pub header: Seq<u8>,
    pub difficulty: u64,
}

/// The places, among the first `count` solutions of a run, of the solutions
/// whose difficulty reaches `target`, in order.
pub open spec fn surviving(difficulties: Seq<u64>, count: nat, target: u64) -> Seq<int> {
    Seq::new(count, |i: int| i).filter(|i: int| difficulties[i] >= target)
}

/// The solution at `place` of `found`, marked with the nonce of the run and
/// the id of the job.
pub open spec fn stamped(found: SolverSolutions, nonce: u64, job_id: u32, place: int) -> Solution {
    Solution { id: job_id as u64, nonce, proof: found.sols@[place].proof }
}

/// The solutions of `found` whose difficulty reaches `target`, in order, each
/// marked with the nonce of the run and the id of the job.
pub open spec fn accepted(
    found: SolverSolutions,
    difficulties: Seq<u64>,
    target: u64,
    nonce: u64,
    job_id: u32,
) -> Seq<Solution> {
    surviving(difficulties, found.num_sols as nat, target).map_values(
        |place: int| stamped(found, nonce, job_id, place),
    )
}

/// Whether `batch` is `found` after the filter: its first slots hold the
/// accepted solutions, `num_sols` counts them, and the other slots and the
/// proof size are those of `found`.
pub open spec fn is_filtered_batch(
    batch: SolverSolutions,
    found: SolverSolutions,
    difficulties: Seq<u64>,
    target: u64,
    nonce: u64,
    job_id: u32,
) -> bool {
    let kept = accepted(found, difficulties, target, nonce, job_id);
    &&& batch.edge_bits == found.edge_bits
    &&& batch.num_sols == kept.len()
    &&& batch.sols@ == kept + found.sols@.skip(kept.len() as int)
}

impl JobView {
    /// What a worker sees of the job.
    pub open spec fn snapshot(self) -> SnapshotView {
        SnapshotView {
            header: self.header,
            height: self.height,
            job_id: self.job_id,
            difficulty: self.difficulty,
        }
    }

    /// The shared data after the supervisor was notified of `job`.
    pub open spec fn notified(self, job: JobRequest) -> JobView {
        JobView {
            job_id: job.job_id,
            height: job.height,
            header: job.header,
            difficulty: job.difficulty,
            ..self
        }
    }

    /// The shared data after the supervisor was notified of `jobs`, one after
    /// the other.
    pub open spec fn notified_all(self, jobs: Seq<JobRequest>) -> JobView
        decreases jobs.len(),
    {
        if jobs.len() == 0 {
            self
        } else {
            self.notified_all(jobs.drop_last()).notified(jobs.last())
        }
    }

    /// Whether `next` is the shared data after worker `instance` has handed
    /// in the output of a run that was accepted: its statistics, with
    /// `iterations` as the number of runs, have taken its slot, and where
    /// solutions were found the filtered batch has been added behind the
    /// batches published before.
    pub open spec fn published_to(
        self,
        next: JobView,
        instance: usize,
        job: SnapshotView,
        nonce: u64,
        iterations: u32,
        stats: SolverStats,
        found: SolverSolutions,
        difficulties: Seq<u64>,
    ) -> bool {
        &&& next == (JobView {
            stats: self.stats.update(instance as int, SolverStats { iterations, ..stats }),
            solutions: next.solutions,
            ..self
        })
        &&& found.num_sols == 0 ==> next.solutions == self.solutions
        &&& found.num_sols > 0 ==> {
            &&& next.solutions.len() == self.solutions.len() + 1
            &&& next.solutions.drop_last() == self.solutions
            &&& is_filtered_batch(
                next.solutions.last(),
                found,
                difficulties,
                job.difficulty,
                nonce,
                job.job_id,
            )
        }
    }

    /// Whether the output of a run that started from `job` is still wanted:
    /// the job is at the height at which the run started.
    pub open spec fn accepts(self, job: SnapshotView) -> bool {
        job.height == self.height
    }
}

/// Whether each job of `jobs` is for a greater height than the one before
/// it, the first for a greater height than `height`.
pub open spec fn heights_rise(height: u64, jobs: Seq<JobRequest>) -> bool {
    &&& jobs.len() > 0 ==> height < jobs[0].height
    &&& forall|i: int| 0 < i < jobs.len() ==> jobs[i - 1].height < (#[trigger] jobs[i]).height
}

impl JobSharedData {
    /// Shared data for `num_solvers` workers: no job yet, no solutions, and
    /// for each worker the statistics of a solver that has not run.
    pub fn new(num_solvers: usize) -> (data: JobSharedData)
        ensures
            data@.job_id == 0,
            data@.height == 0,
            data@.header == Seq::<u8>::empty(),
            data@.difficulty == 0,
            data@.solutions == Seq::<SolverSolutions>::empty(),
            data@.stats.len() == num_solvers,
            forall|i: int| 0 <= i < num_solvers ==> (#[trigger] data@.stats[i]).is_unused(),
    {
        let fresh = SolverStats::default();
        let mut stats: Vec<SolverStats> = Vec::new();
        let mut i: usize = 0;
        while i < num_solvers
            invariant
                i <= num_solvers,
                stats@.len() == i,
                forall|j: int| 0 <= j < i ==> stats@[j] == fresh,
            decreases num_solvers - i,
        {
            stats.push(fresh);
            i = i + 1;
        }
        JobSharedData {
            job_id: 0,
            height: 0,
            header: Vec::new(),
            difficulty: 0,
            solutions: Vec::new(),
            stats,
        }
    }

    /// Whether a job for `height` is for another height than the current
    /// one, so that the workers have to be paused while it is written and
    /// resumed afterwards.
    pub fn needs_restart(&self, height: u64) -> (restart: bool)
        ensures
            restart == (height != self@.height),
    {
        height != self.height
    }

    /// Writes a new job. The result says whether the job is for another
    /// height than the one before.
    pub fn notify(&mut self, job_id: u32, height: u64, header: &[u8], difficulty: u64) -> (restart:
        bool)
        ensures
            restart == (height != old(self)@.height),
            final(self)@ == old(self)@.notified(
                JobRequest { job_id, height, header: header@, difficulty },
            ),
    {
        let restart = self.needs_restart(height);
        self.job_id = job_id;
        self.height = height;
        self.header = vstd::slice::slice_to_vec(header);
        self.difficulty = difficulty;
        restart
    }

    /// Takes out the batch of solutions that was published last; nothing
    /// where none is waiting.
    pub fn get_solutions(&mut self) -> (batch: Option<SolverSolutions>)
        ensures
            old(self)@.solutions.len() == 0 ==> batch is None && final(self)@ == old(self)@,
            old(self)@.solutions.len() > 0 ==> batch == Some(old(self)@.solutions.last())
                && final(self)@ == (JobView {
                solutions: old(self)@.solutions.drop_last(),
                ..old(self)@
            }),
    {
        if self.solutions.len() > 0 {
            self.solutions.pop()
        } else {
            None
        }
    }

    /// A copy of the statistics of all workers.
    pub fn get_stats(&self) -> (stats: Vec<SolverStats>)
        ensures
            stats@ == self@.stats,
    {
        let mut stats: Vec<SolverStats> = Vec::with_capacity(self.stats.len());
        let mut i: usize = 0;
        while i < self.stats.len()
            invariant
                i <= self.stats@.len(),
                stats@ == self.stats@.take(i as int),
            decreases self.stats@.len() - i,
        {
            stats.push(self.stats[i]);
            proof {
                self.stats@.lemma_take_succ_push(i as int);
            }
            i = i + 1;
        }
        assert(self.stats@.take(self.stats@.len() as int) =~= self.stats@);
        stats
    }

    /// The job as it stands, for a worker that starts a run.
    pub fn snapshot(&self) -> (job: JobSnapshot)
        ensures
            job@ == self@.snapshot(),
    {
        JobSnapshot {
            header: self.header.clone(),
            height: self.height,
            job_id: self.job_id,
            difficulty: self.difficulty,
        }
    }

    /// Records the name of the plugin that worker `instance` runs.
    pub fn set_plugin_name(&mut self, instance: usize, name: &[u8])
        requires
            instance < old(self)@.stats.len(),
        ensures
            final(self)@ == (JobView {
                stats: old(self)@.stats.update(
                    instance as int,
                    SolverStats {
                        plugin_name: final(self)@.stats[instance as int].plugin_name,
                        ..old(self)@.stats[instance as int]
                    },
                ),
                ..old(self)@
            }),
            final(self)@.stats[instance as int].plugin_name@ == crate::plugin::padded_name(name@),
    {
        let mut stats = self.stats[instance];
        stats.set_plugin_name(name);
        self.stats[instance] = stats;
        assert(self@.stats =~= old(self)@.stats.update(instance as int, stats));
    }

    /// Keeps, of the solutions of a run, those whose difficulty reaches
    /// `target`, and marks each with the nonce of the run and the id of the
    /// job. `difficulties` holds the difficulty of each solution, in the
    /// order of `found`.
    pub fn filter_solutions(
        found: &SolverSolutions,
        difficulties: &[u64; MAX_SOLS],
        target: u64,
        nonce: u64,
        job_id: u32,
    ) -> (batch: SolverSolutions)
        requires
            found.num_sols <= MAX_SOLS,
        ensures
            is_filtered_batch(batch, *found, difficulties@, target, nonce, job_id),
    {
        let mut sols = found.sols;
        let mut kept: usize = 0;
        let mut i: usize = 0;
        let count = found.num_sols as usize;
        let ghost keep = |place: int| difficulties@[place] >= target;
        let ghost stamp = |place: int| stamped(*found, nonce, job_id, place);
        proof {
            reveal(Seq::filter);
            assert(Seq::new(0, |i: int| i).filter(keep) =~= Seq::<int>::empty());
            assert(sols@ =~= Seq::new(0, |i: int| i).filter(keep).map_values(stamp)
                + found.sols@.skip(0));
        }
        while i < count
            invariant
                i <= count,
                count == found.num_sols,
                count <= MAX_SOLS,
                kept <= i,
                keep == (|place: int| difficulties@[place] >= target),
                stamp == (|place: int| stamped(*found, nonce, job_id, place)),
                kept == Seq::new(i as nat, |i: int| i).filter(keep).len(),
                sols@ == Seq::new(i as nat, |i: int| i).filter(keep).map_values(stamp)
                    + found.sols@.skip(kept as int),
            decreases count - i,
        {
            let ghost places = Seq::new(i as nat, |i: int| i);
            proof {
                assert(Seq::new((i + 1) as nat, |i: int| i) =~= places.push(i as int));
                places.lemma_filter_push(i as int, keep);
            }
            if difficulties[i] >= target {
                sols[kept] = Solution { id: job_id as u64, nonce, proof: found.sols[i].proof };
                proof {
                    assert(sols@ =~= places.filter(keep).push(i as int).map_values(stamp)
                        + found.sols@.skip(kept + 1));
                }
                kept = kept + 1;
            }
            i = i + 1;
        }
        SolverSolutions { edge_bits: found.edge_bits, num_sols: kept as u32, sols }
    }

    /// Hands in the output of a run of worker `instance` that started from
    /// `job` under `nonce`: the statistics of the run, the solutions found
    /// and the difficulty of each.
    ///
    /// Where the job is no longer at the height of `job`, nothing is changed.
    /// Otherwise the statistics, with `iterations` as the number of runs,
    /// take the worker's slot, and where solutions were found the batch of
    /// those that reach the difficulty of `job` is published, each marked
    /// with `nonce` and the job id of `job`.
    pub fn publish(
        &mut self,
        instance: usize,
        job: &JobSnapshot,
        nonce: u64,
        iterations: u32,
        stats: SolverStats,
        found: &SolverSolutions,
        difficulties: &[u64; MAX_SOLS],
    ) -> (outcome: PublishOutcome)
        requires
            instance < old(self)@.stats.len(),
            found.num_sols <= MAX_SOLS,
        ensures
            outcome == PublishOutcome::Stale <==> !old(self)@.accepts(job@),
            outcome == PublishOutcome::Errored <==> old(self)@.accepts(job@) && stats.has_errored,
            outcome == PublishOutcome::Stale ==> final(self)@ == old(self)@,
            outcome != PublishOutcome::Stale ==> old(self)@.published_to(
                final(self)@,
                instance,
                job@,
                nonce,
                iterations,
                stats,
                *found,
                difficulties@,
            ),
    {
        if job.height != self.height {
            return PublishOutcome::Stale;
        }
        let mut recorded = stats;
        recorded.iterations = iterations;
        self.stats[instance] = recorded;
        if found.num_sols > 0 {
            let batch = Self::filter_solutions(
                found,
                difficulties,
                job.difficulty,
                nonce,
                job.job_id,
            );
            self.solutions.push(batch);
            assert(self@.solutions.drop_last() =~= old(self)@.solutions);
        }
        if recorded.has_errored {
            PublishOutcome::Errored
        } else {
            PublishOutcome::Published
        }
    }
}

/// Every solution of a filtered batch carries the id of the job and the
/// nonce of the run, and its difficulty reaches the target; no solution that
/// reaches the target is left out.
pub proof fn lemma_filtered_batch_contents(
    batch: SolverSolutions,
    found: SolverSolutions,
    difficulties: Seq<u64>,
    target: u64,
    nonce: u64,
    job_id: u32,
)
    requires
        is_filtered_batch(batch, found, difficulties, target, nonce, job_id),
        found.num_sols <= MAX_SOLS,
    ensures
        batch.num_sols <= found.num_sols,
        forall|k: int|
            0 <= k < batch.num_sols ==> (#[trigger] batch.sols@[k]).id == job_id
                && batch.sols@[k].nonce == nonce && exists|place: int|
                0 <= place < found.num_sols && difficulties[place] >= target && batch.sols@[k].proof
                    == found.sols@[place].proof,
        forall|place: int|
            0 <= place < found.num_sols && difficulties[place] >= target ==> exists|k: int|
                0 <= k < batch.num_sols && (#[trigger] batch.sols@[k]).proof
                    == found.sols@[place].proof,
{
    let keep = |place: int| difficulties[place] >= target;
    let places = Seq::new(found.num_sols as nat, |i: int| i);
    let kept = places.filter(keep);
    places.lemma_filter_len(keep);
    assert forall|k: int| 0 <= k < batch.num_sols implies (#[trigger] batch.sols@[k]).id == job_id
        && batch.sols@[k].nonce == nonce && exists|place: int|
        0 <= place < found.num_sols && difficulties[place] >= target && batch.sols@[k].proof
            == found.sols@[place].proof by {
        places.lemma_filter_pred(keep, k);
        assert(kept.contains(kept[k]));
        places.lemma_filter_contains_rev(keep, kept[k]);
        let place = kept[k];
        assert(0 <= place < found.num_sols && difficulties[place] >= target);
    }
    assert forall|place: int|
        0 <= place < found.num_sols && difficulties[place] >= target implies exists|k: int|
        0 <= k < batch.num_sols && (#[trigger] batch.sols@[k]).proof
            == found.sols@[place].proof by {
        assert(places[place] == place);
        places.lemma_filter_contains(keep, place);
        let k = choose|k: int| 0 <= k < kept.len() && kept[k] == place;
        assert(batch.sols@[k].proof == found.sols@[place].proof);
    }
}

/// While every new job is for a greater height than the one before, the
/// output of a run is accepted only if no job has come since the run started;
/// so the job id that the run marks its solutions with is the id of the job
/// that is current when they are published.
pub proof fn lemma_no_stale_solution(start: JobView, jobs: Seq<JobRequest>)
    requires
        heights_rise(start.height, jobs),
    ensures
        start.notified_all(jobs).accepts(start.snapshot()) ==> jobs.len() == 0
            && start.snapshot().job_id == start.notified_all(jobs).job_id,
        jobs.len() > 0 ==> start.height < start.notified_all(jobs).height,
    decreases jobs.len(),
{
    if jobs.len() > 0 {
        let earlier = jobs.drop_last();
        assert(heights_rise(start.height, earlier)) by {
            assert forall|i: int| 0 < i < earlier.len() implies earlier[i - 1].height < (
            #[trigger] earlier[i]).height by {
                assert(jobs[i - 1].height < jobs[i].height);
            }
        }
        lemma_no_stale_solution(start, earlier);
        if earlier.len() > 0 {
            assert(jobs[jobs.len() - 2].height < jobs[jobs.len() - 1].height);
            lemma_last_height(start, earlier);
        }
    }
}

/// After one or more notifications the job is at the height of the last one.
pub proof fn lemma_last_height(start: JobView, jobs: Seq<JobRequest>)
    requires
        jobs.len() > 0,
    ensures
        start.notified_all(jobs).height == jobs.last().height,
        start.notified_all(jobs).job_id == jobs.last().job_id,
{
}

} // verus!
