//! What a solver backend hands back: the solutions it found and the
//! statistics of its device.

use vstd::prelude::*;

verus! {

/// The number of elements of a proof.
pub const PROOFSIZE: usize = 42;

/// The largest number of solutions that one run of a backend hands back.
pub const MAX_SOLS: usize = 4;

/// The room for a name in the statistics of a solver.
pub const MAX_NAME_LEN: usize = 256;

/// A solution of the proof-of-work puzzle.
#[derive(Clone, Copy, Debug, PartialEq, Eq)]
pub struct Solution {
    /// The id of the job that the solution was computed against.
    pub id: u64,
    /// The nonce of the run that found the solution.
    pub nonce: u64,
    /// The elements of the proof, in order.
    pub proof: [u64; PROOFSIZE],
}

/// The solutions of one run: the first `num_sols` slots of `sols` count.
#[derive(Clone, Copy, Debug, PartialEq, Eq)]
pub struct SolverSolutions {
    /// The proof size of the run, in edge bits.
    pub edge_bits: u32,
    /// The number of solutions.
    pub num_sols: u32,
    /// The solutions.
    pub sols: [Solution; MAX_SOLS],
}

/// The statistics of one solver.
#[derive(Clone, Copy, Debug, PartialEq, Eq)]
pub struct SolverStats {
    /// The id of the device.
    pub device_id: u32,
    /// The proof size that the device works on, in edge bits.
    pub edge_bits: u32,
    /// The name of the plugin, padded with zero bytes.
    pub plugin_name: [u8; MAX_NAME_LEN],
    /// The name of the device, padded with zero bytes.
    pub device_name: [u8; MAX_NAME_LEN],
    /// Whether the backend has reported a fault.
    pub has_errored: bool,
    /// The reason for the fault, padded with zero bytes.
    pub error_reason: [u8; MAX_NAME_LEN],
    /// The number of runs so far.
    pub iterations: u32,
    /// When the last run started.
    pub last_start_time: u64,
    /// When the last run ended.
    pub last_end_time: u64,
    /// How long the last solution took.
    pub last_solution_time: u64,
}

/// `name` cut to the room for a name less one byte and padded with zero
/// bytes, so that at least one zero byte ends it.
pub open spec fn padded_name(name: Seq<u8>) -> Seq<u8> {
    Seq::new(
        MAX_NAME_LEN as nat,
        |i: int|
            if i < name.len() && i < MAX_NAME_LEN - 1 {
                name[i]
            } else {
                0u8
            },
    )
}

impl Solution {
    /// The solution with an all-zero proof, for no job.
    pub fn empty() -> (solution: Solution)
        ensures
            solution.id == 0,
            solution.nonce == 0,
            forall|i: int| 0 <= i < PROOFSIZE ==> solution.proof@[i] == 0,
    {
        Solution { id: 0, nonce: 0, proof: [0u64; PROOFSIZE] }
    }
}

impl Default for SolverSolutions {
    /// No solutions.
    fn default() -> (solutions: SolverSolutions)
        ensures
            solutions.num_sols == 0,
            solutions.edge_bits == 0,
    {
        SolverSolutions { edge_bits: 0, num_sols: 0, sols: [Solution::empty(); MAX_SOLS] }
    }
}

impl Default for SolverStats {
    /// The statistics of a solver that has not run: every number zero, every
    /// name empty, no fault.
    fn default() -> (stats: SolverStats)
        ensures
            stats.is_unused(),
    {
        let stats = SolverStats {
            device_id: 0,
            edge_bits: 0,
            plugin_name: [0u8; MAX_NAME_LEN],
            device_name: [0u8; MAX_NAME_LEN],
            has_errored: false,
            error_reason: [0u8; MAX_NAME_LEN],
            iterations: 0,
            last_start_time: 0,
            last_end_time: 0,
            last_solution_time: 0,
        };
        assert(stats.plugin_name@ =~= padded_name(Seq::empty()));
        assert(stats.device_name@ =~= padded_name(Seq::empty()));
        assert(stats.error_reason@ =~= padded_name(Seq::empty()));
        stats
    }
}

impl SolverStats {
    /// Whether these are the statistics of a solver that has not run: every
    /// number zero, every name empty, no fault.
    pub open spec fn is_unused(self) -> bool {
        &&& self.device_id == 0
        &&& self.edge_bits == 0
        &&& self.plugin_name@ == padded_name(Seq::empty())
        &&& self.device_name@ == padded_name(Seq::empty())
        &&& !self.has_errored
        &&& self.error_reason@ == padded_name(Seq::empty())
        &&& self.iterations == 0
        &&& self.last_start_time == 0
        &&& self.last_end_time == 0
        &&& self.last_solution_time == 0
    }

    /// Records the name of the plugin: as many bytes of `name` as fit before
    /// a closing zero byte, the rest of the room zero.
    pub fn set_plugin_name(&mut self, name: &[u8])
        ensures
            final(self).plugin_name@ == padded_name(name@),
            *final(self) == (SolverStats { plugin_name: final(self).plugin_name, ..*old(self) }),
    {
        let mut padded = [0u8; MAX_NAME_LEN];
        let mut i: usize = 0;
        while i < name.len() && i < MAX_NAME_LEN - 1
            invariant
                i <= name@.len(),
                i <= MAX_NAME_LEN - 1,
                forall|j: int| 0 <= j < i ==> padded@[j] == name@[j],
                forall|j: int| i <= j < MAX_NAME_LEN ==> padded@[j] == 0,
            decreases MAX_NAME_LEN - i,
        {
            padded[i] = name[i];
            i = i + 1;
        }
        assert(padded@ =~= padded_name(name@));
        self.plugin_name = padded;
    }
}

} // verus!
