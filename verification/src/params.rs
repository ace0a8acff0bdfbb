//! Round parameters for the Poseidon permutation: round counts, the S-box
//! exponent, the additive round keys, and the mixing (MDS) matrix.

use vstd::prelude::*;

verus! {

use crate::field::Felt;

/// Immutable round parameters, supplied by the caller as validated data.
#[derive(Debug)]
pub struct PoseidonParameters {
    /// Number of full rounds, in which the S-box touches every state element.
    pub full_rounds: u32,
    /// Number of partial rounds, in which the S-box touches only the last
    /// state element.
    pub partial_rounds: u32,
    /// The S-box exponent: the nonlinear step is `x ^ alpha`.
    pub alpha: u64,
    /// Additive round keys, indexed by `ark[round][state_index]`.
    pub ark: Vec<Vec<Felt>>,
    /// The mixing matrix, square of the state width.
    pub mds: Vec<Vec<Felt>>,
}

impl PoseidonParameters {
    /// Total number of rounds of the permutation.
    pub open spec fn rounds(self) -> int {
        self.full_rounds + self.partial_rounds
    }

    /// Index of the first partial round: the full rounds are split evenly
    /// around the partial rounds.
    pub open spec fn half_full(self) -> int {
        self.full_rounds as int / 2
    }

    /// Whether round `r` applies the S-box to every state element.
    pub open spec fn is_full_round(self, r: int) -> bool {
        r < self.half_full() || r >= self.half_full() + self.partial_rounds
    }

    /// The round key added to state element `i` in round `r`.
    pub open spec fn ark_at(self, r: int, i: int) -> int {
        self.ark@[r]@[i].val()
    }

    /// The mixing-matrix entry in row `i`, column `j`.
    pub open spec fn mds_at(self, i: int, j: int) -> int {
        self.mds@[i]@[j].val()
    }

    /// Shape invariant: one reduced round key per round and state element,
    /// and a square mixing matrix of reduced entries.
    pub open spec fn wf(self, width: int) -> bool {
        &&& width >= 1
        &&& self.rounds() <= u32::MAX
        &&& self.ark@.len() == self.rounds()
        &&& (forall|r: int| 0 <= r < self.rounds() ==> (#[trigger] self.ark@[r])@.len() == width)
        &&& (forall|r: int, i: int|
            0 <= r < self.rounds() && 0 <= i < width ==> (#[trigger] self.ark@[r]@[i]).wf())
        &&& self.mds@.len() == width
        &&& (forall|i: int| 0 <= i < width ==> (#[trigger] self.mds@[i])@.len() == width)
        &&& (forall|i: int, j: int|
            0 <= i < width && 0 <= j < width ==> (#[trigger] self.mds@[i]@[j]).wf())
    }
}

} // verus!
