//! Ranks and triangular vote weights.
//!
//! A member's rank is an integer 0 through 4. The vote weight of a rank is
//! the triangular number `rank * (rank + 1) / 2`, so higher ranks carry
//! disproportionately more weight: 0, 1, 3, 6, 10.

use vstd::prelude::*;

verus! {

/// Highest rank a member can hold.
pub const MAX_RANK: u8 = 4;

/// Triangular vote weight of a rank; ranks above `MAX_RANK` carry no weight.
pub open spec fn spec_vote_weight(rank: u8) -> nat {
    if rank <= MAX_RANK {
        (rank * (rank + 1) / 2) as nat
    } else {
        0
    }
}

/// Vote weight for a bare rank value: `rank * (rank + 1) / 2` for ranks
/// 0 through 4, and 0 for anything larger.
pub fn calculate_vote_weight_for_rank(rank: u8) -> (weight: u64)
    ensures
        weight == spec_vote_weight(rank),
{
    if rank > MAX_RANK {
        0
    } else {
        let r = rank as u64;
        assert(r * (r + 1) <= 20) by (nonlinear_arith)
            requires
                r <= 4,
        ;
        r * (r + 1) / 2
    }
}

/// For every rank 0 through 4, the triangular vote weight is respectively
/// 0, 1, 3, 6 and 10.
pub proof fn lemma_vote_weight_table()
    ensures
        spec_vote_weight(0) == 0,
        spec_vote_weight(1) == 1,
        spec_vote_weight(2) == 3,
        spec_vote_weight(3) == 6,
        spec_vote_weight(4) == 10,
{
}

/// Vote weight never decreases as rank rises through the valid range.
pub proof fn lemma_vote_weight_monotonic(lo: u8, hi: u8)
    requires
        lo <= hi,
        hi <= MAX_RANK,
    ensures
        spec_vote_weight(lo) <= spec_vote_weight(hi),
{
    assert(lo * (lo + 1) / 2 <= hi * (hi + 1) / 2) by (nonlinear_arith)
        requires
            lo <= hi,
    ;
}

/// The vote weight of any rank is at most 10.
pub proof fn lemma_vote_weight_bounded(rank: u8)
    ensures
        spec_vote_weight(rank) <= 10,
{
    if rank <= MAX_RANK {
        assert(rank * (rank + 1) / 2 <= 10) by (nonlinear_arith)
            requires
                rank <= 4,
        ;
    }
}

} // verus!
