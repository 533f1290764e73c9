//! The policy by which the difficulty and the proof size follow the pace of
//! the chain.

use vstd::prelude::*;

verus! {

/// A rule that gives the difficulty and the proof size for the next block.
pub trait RetargetPolicy {
    /// The difficulty and the proof size (in edge bits) that hold after a
    /// block at `height` was accepted `observed_interval` after its parent,
    /// where `difficulty` and `edge_bits` held before.
    spec fn next_target(
        &self,
        difficulty: u64,
        edge_bits: u8,
        height: u64,
        observed_interval: u64,
    ) -> (u64, u8);

    /// Computes `next_target`.
    fn retarget(&self, difficulty: u64, edge_bits: u8, height: u64, observed_interval: u64) -> (target:
        (u64, u8))
        ensures
            target == self.next_target(difficulty, edge_bits, height, observed_interval),
    ;
}

/// The policy that scales the difficulty by the ratio of the wanted interval
/// between blocks to the observed one, within a largest adjustment per step,
/// and holds the proof size within fixed bounds.
#[derive(Clone, Copy, Debug, PartialEq, Eq)]
pub struct ClampedRetarget {
    /// The interval wanted between two blocks.
    pub target_interval: u64,
    /// The largest factor by which one step raises or lowers the difficulty;
    /// zero counts as one.
    pub max_adjustment: u64,
    /// The smallest proof size, in edge bits.
    pub min_edge_bits: u8,
    /// The largest proof size, in edge bits.
    pub max_edge_bits: u8,
}

impl ClampedRetarget {
    /// The factor by which one step may change the difficulty.
    pub open spec fn ratio(self) -> int {
        if self.max_adjustment == 0 {
            1
        } else {
            self.max_adjustment as int
        }
    }

    /// The difficulty scaled by `target_interval / observed_interval`, held
    /// between `difficulty / ratio` and `difficulty * ratio`, then raised to
    /// 1 if it is zero and lowered to the largest 64-bit number if it is
    /// beyond it. An observed interval of zero asks for the largest raise.
    pub open spec fn scaled_difficulty(self, difficulty: u64, observed_interval: u64) -> int {
        let upper = difficulty * self.ratio();
        let lower = (difficulty as int) / self.ratio();
        let scaled = if observed_interval == 0 {
            upper
        } else {
            (difficulty * self.target_interval) / (observed_interval as int)
        };
        let clamped = if scaled < lower {
            lower
        } else if scaled > upper {
            upper
        } else {
            scaled
        };
        if clamped < 1 {
            1
        } else if clamped > u64::MAX {
            u64::MAX as int
        } else {
            clamped
        }
    }

    /// `edge_bits` brought into the bounds of the policy.
    pub open spec fn bounded_edge_bits(self, edge_bits: u8) -> u8 {
        if edge_bits < self.min_edge_bits {
            self.min_edge_bits
        } else if edge_bits > self.max_edge_bits {
            self.max_edge_bits
        } else {
            edge_bits
        }
    }
}

impl RetargetPolicy for ClampedRetarget {
    open spec fn next_target(
        &self,
        difficulty: u64,
        edge_bits: u8,
        height: u64,
        observed_interval: u64,
    ) -> (u64, u8) {
        (
            self.scaled_difficulty(difficulty, observed_interval) as u64,
            self.bounded_edge_bits(edge_bits),
        )
    }

    fn retarget(&self, difficulty: u64, edge_bits: u8, height: u64, observed_interval: u64) -> (target:
        (u64, u8)) {
        let ratio: u128 = if self.max_adjustment == 0 {
            1
        } else {
            self.max_adjustment as u128
        };
        assert(difficulty as u128 * ratio <= 0xffff_ffff_ffff_ffff * 0xffff_ffff_ffff_ffff)
            by (nonlinear_arith)
            requires
                difficulty <= 0xffff_ffff_ffff_ffff,
                ratio <= 0xffff_ffff_ffff_ffff,
        ;
        assert(difficulty as u128 * self.target_interval as u128 <= 0xffff_ffff_ffff_ffff
            * 0xffff_ffff_ffff_ffff) by (nonlinear_arith)
            requires
                difficulty <= 0xffff_ffff_ffff_ffff,
                self.target_interval <= 0xffff_ffff_ffff_ffff,
        ;
        let upper: u128 = difficulty as u128 * ratio;
        let lower: u128 = difficulty as u128 / ratio;
        let scaled: u128 = if observed_interval == 0 {
            upper
        } else {
            (difficulty as u128 * self.target_interval as u128) / (observed_interval as u128)
        };
        let clamped: u128 = if scaled < lower {
            lower
        } else if scaled > upper {
            upper
        } else {
            scaled
        };
        let next_difficulty: u64 = if clamped < 1 {
            1
        } else if clamped > u64::MAX as u128 {
            u64::MAX
        } else {
            clamped as u64
        };
        let next_edge_bits: u8 = if edge_bits < self.min_edge_bits {
            self.min_edge_bits
        } else if edge_bits > self.max_edge_bits {
            self.max_edge_bits
        } else {
            edge_bits
        };
        (next_difficulty, next_edge_bits)
    }
}

/// One step changes the difficulty by the factor of the policy at most: the
/// new difficulty is not below the old one divided by the factor, and not
/// above the old one times the factor, unless that is zero and it is 1.
pub proof fn lemma_adjustment_bounded(
    policy: ClampedRetarget,
    difficulty: u64,
    edge_bits: u8,
    height: u64,
    observed_interval: u64,
)
    ensures
        ({
            let next = policy.next_target(difficulty, edge_bits, height, observed_interval).0;
            &&& next >= 1
            &&& next >= (difficulty as int) / policy.ratio()
            &&& next <= difficulty * policy.ratio() || next == 1
        }),
{
    let ratio = policy.ratio();
    assert((difficulty as int) / ratio <= difficulty) by (nonlinear_arith)
        requires
            ratio >= 1,
            difficulty >= 0,
    ;
    assert(difficulty * ratio >= (difficulty as int) / ratio) by (nonlinear_arith)
        requires
            ratio >= 1,
            difficulty >= 0,
    ;
}

} // verus!
