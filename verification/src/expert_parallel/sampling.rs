//! Sampling on one rank and handing its choice to all.

use vstd::prelude::*;

use crate::rows::pad_rows;

verus! {

/// Tokens that all ranks agree on.
#[derive(Debug, PartialEq, Eq)]
pub struct SynchronizedToken {
    /// One token for each sequence of the batch.
    pub token: Vec<u32>,
    /// Whether generation has finished.
    pub finished: bool,
}

/// What a rank adds to the sum of sampled tokens: its own where it samples, and zeros
/// elsewhere.
pub open spec fn token_share(sampled: Seq<u32>, rank: int, sampling_rank: int) -> Seq<u32> {
    if rank == sampling_rank {
        sampled
    } else {
        crate::rows::repeated(0u32, sampled.len())
    }
}

/// What a rank adds to the sum of stop states.
pub open spec fn finished_share(finished: bool, rank: int, sampling_rank: int) -> int {
    if rank == sampling_rank && finished {
        1
    } else {
        0
    }
}

/// Returns what this rank adds to the sum of sampled tokens.
pub fn token_contribution(sampled: Vec<u32>, rank: usize, sampling_rank: usize) -> (share: Vec<u32>)
    ensures
        share@ == token_share(sampled@, rank as int, sampling_rank as int),
{
    if rank == sampling_rank {
        sampled
    } else {
        let mut share: Vec<u32> = Vec::new();
        pad_rows(&mut share, 0u32, sampled.len());
        assert(share@ =~= crate::rows::repeated(0u32, sampled@.len()));
        share
    }
}

/// Returns what this rank adds to the sum of stop states.
pub fn finished_contribution(finished: bool, rank: usize, sampling_rank: usize) -> (share: i32)
    ensures
        share == finished_share(finished, rank as int, sampling_rank as int),
{
    if rank == sampling_rank && finished {
        1
    } else {
        0
    }
}

/// Reads the sums over all ranks.
pub fn synchronized_token(token_sum: Vec<u32>, finished_sum: i32) -> (synchronized: SynchronizedToken)
    ensures
        synchronized.token == token_sum,
        synchronized.finished == (finished_sum != 0),
{
    SynchronizedToken { token: token_sum, finished: finished_sum != 0 }
}

/// The sum of one entry over the first `ranks` ranks.
pub open spec fn token_sum(sampled: Seq<Seq<u32>>, sampling_rank: int, ranks: int, entry: int) -> int
    decreases ranks,
{
    if ranks <= 0 {
        0
    } else {
        token_sum(sampled, sampling_rank, ranks - 1, entry) + token_share(
            sampled[ranks - 1],
            ranks - 1,
            sampling_rank,
        )[entry]
    }
}

/// The sum of stop states over the first `ranks` ranks.
pub open spec fn finished_sum(finished: Seq<bool>, sampling_rank: int, ranks: int) -> int
    decreases ranks,
{
    if ranks <= 0 {
        0
    } else {
        finished_sum(finished, sampling_rank, ranks - 1) + finished_share(
            finished[ranks - 1],
            ranks - 1,
            sampling_rank,
        )
    }
}

proof fn sums_below(
    sampled: Seq<Seq<u32>>,
    finished: Seq<bool>,
    sampling_rank: int,
    ranks: int,
    entry: int,
)
    requires
        0 <= ranks <= sampled.len(),
        sampled.len() == finished.len(),
        0 <= sampling_rank < sampled.len(),
        forall|i: int|
            0 <= i < sampled.len() ==> (#[trigger] sampled[i]).len() == sampled[sampling_rank].len(),
        0 <= entry < sampled[sampling_rank].len(),
    ensures
        token_sum(sampled, sampling_rank, ranks, entry) == (if sampling_rank < ranks {
            sampled[sampling_rank][entry] as int
        } else {
            0
        }),
        finished_sum(finished, sampling_rank, ranks) == (if sampling_rank < ranks
            && finished[sampling_rank] {
            1int
        } else {
            0
        }),
    decreases ranks,
{
    if ranks > 0 {
        sums_below(sampled, finished, sampling_rank, ranks - 1, entry);
        assert(sampled[ranks - 1].len() == sampled[sampling_rank].len());
    }
}

/// Whatever the other ranks sampled, the sums over all ranks are the tokens and the stop
/// state of the sampling rank.
pub proof fn all_ranks_get_the_sampled_token(
    sampled: Seq<Seq<u32>>,
    finished: Seq<bool>,
    sampling_rank: int,
    entry: int,
)
    requires
        sampled.len() == finished.len(),
        0 <= sampling_rank < sampled.len(),
        forall|i: int|
            0 <= i < sampled.len() ==> (#[trigger] sampled[i]).len() == sampled[sampling_rank].len(),
        0 <= entry < sampled[sampling_rank].len(),
    ensures
        token_sum(sampled, sampling_rank, sampled.len() as int, entry)
            == sampled[sampling_rank][entry],
        (finished_sum(finished, sampling_rank, sampled.len() as int) != 0)
            == finished[sampling_rank],
{
    sums_below(sampled, finished, sampling_rank, sampled.len() as int, entry);
}

} // verus!
