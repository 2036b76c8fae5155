//! Multi-token prediction with a Gemma 4 target and an external assistant.

use vstd::prelude::*;
use vstd::string::StringExecFns;

use crate::cache::StateArray;
use crate::error::{Error, Failure};
use crate::text::usize_text;

verus! {

/// Kind of attention that layers share states of.
#[derive(Debug, Clone, Copy, PartialEq, Eq, Structural)]
pub enum LayerType {
    /// Attention over a window.
    SlidingAttention,
    /// Attention over everything.
    FullAttention,
}

/// Key/value states that layers of one kind share.
#[derive(Debug)]
pub struct SharedStates<R> {
    /// Kind of the layers.
    pub kind: LayerType,
    /// Keys in token order.
    pub keys: StateArray<R>,
    /// Values in token order.
    pub values: StateArray<R>,
}

/// What a step of the target gives: hidden states of the new tokens and shared states.
#[derive(Debug)]
pub struct StepOutput<R> {
    /// Hidden states, one row for each new token.
    pub hidden: StateArray<R>,
    /// Shared key/value states.
    pub shared: Vec<SharedStates<R>>,
}

/// The target state that drafting goes on from.
#[derive(Debug)]
pub struct Gemma4TargetState<R> {
    /// Hidden state of the last token.
    pub hidden: R,
    /// Shared key/value states.
    pub shared: Vec<SharedStates<R>>,
    /// Tokens in the cache.
    pub cache_len: usize,
}

/// The first `limit` rows, or all where there are fewer.
pub open spec fn at_most<R>(rows: Seq<R>, limit: int) -> Seq<R> {
    if rows.len() <= limit {
        rows
    } else {
        rows.take(limit)
    }
}

/// Whether shared states are others cut down to so many tokens.
pub open spec fn cut_to<R>(
    cut: Seq<SharedStates<R>>,
    shared: Seq<SharedStates<R>>,
    limit: int,
) -> bool {
    &&& cut.len() == shared.len()
    &&& forall|i: int|
        0 <= i < cut.len() ==> {
            &&& (#[trigger] cut[i]).kind == shared[i].kind
            &&& cut[i].keys.rows@ == at_most(shared[i].keys.rows@, limit)
            &&& cut[i].keys.zero == shared[i].keys.zero
            &&& cut[i].values.rows@ == at_most(shared[i].values.rows@, limit)
            &&& cut[i].values.zero == shared[i].values.zero
        }
}

fn cut_array<R: Copy>(array: &StateArray<R>, limit: usize) -> (cut: StateArray<R>)
    ensures
        cut.rows@ == at_most(array.rows@, limit as int),
        cut.zero == array.zero,
{
    let length: usize = if array.rows.len() <= limit {
        array.rows.len()
    } else {
        limit
    };
    let cut = array.slice(0, length);
    assert(cut.rows@ =~= at_most(array.rows@, limit as int));
    cut
}

fn cut_shared<R: Copy>(shared: &Vec<SharedStates<R>>, limit: usize) -> (cut: Vec<SharedStates<R>>)
    ensures
        cut_to(cut@, shared@, limit as int),
{
    let mut cut: Vec<SharedStates<R>> = Vec::new();
    let mut index: usize = 0;
    while index < shared.len()
        invariant
            index <= shared@.len(),
            cut_to(cut@, shared@.take(index as int), limit as int),
        decreases shared@.len() - index,
    {
        let ghost before = cut@;
        let states = &shared[index];
        cut.push(
            SharedStates {
                kind: states.kind,
                keys: cut_array(&states.keys, limit),
                values: cut_array(&states.values, limit),
            },
        );
        proof {
            let known = shared@.take(index + 1);
            assert forall|i: int| 0 <= i < cut@.len() implies {
                &&& (#[trigger] cut@[i]).kind == known[i].kind
                &&& cut@[i].keys.rows@ == at_most(known[i].keys.rows@, limit as int)
                &&& cut@[i].keys.zero == known[i].keys.zero
                &&& cut@[i].values.rows@ == at_most(known[i].values.rows@, limit as int)
                &&& cut@[i].values.zero == known[i].values.zero
            } by {
                if i < index {
                    assert(cut@[i] == before[i]);
                    assert(known[i] == shared@.take(index as int)[i]);
                }
            }
        }
        index = index + 1;
    }
    assert(shared@.take(index as int) =~= shared@);
    cut
}

/// The target state after one row of a step, with so many tokens in the cache: shared
/// states do not reach beyond these tokens.
pub fn state_at<R: Copy>(output: &StepOutput<R>, row: usize, cache_len: usize) -> (outcome: Result<
    Gemma4TargetState<R>,
    Error,
>)
    requires
        row < output.hidden.rows@.len(),
    ensures
        crate::error::failed(outcome) == (if cache_len > i32::MAX {
            Some(Failure::Exception("Gemma 4 MTP state length exceeds i32"@))
        } else {
            None
        }),
        outcome matches Ok(state) ==> {
            &&& state.hidden == output.hidden.rows@[row as int]
            &&& cut_to(state.shared@, output.shared@, cache_len as int)
            &&& state.cache_len == cache_len
        },
{
    let hidden = output.hidden.rows[row];
    if cache_len > i32::MAX as usize {
        return Err(Error::Exception("Gemma 4 MTP state length exceeds i32".to_owned()));
    }
    let shared = cut_shared(&output.shared, cache_len);
    Ok(Gemma4TargetState { hidden, shared, cache_len })
}

/// Copies a target state for another stream.
pub fn state_on_draft_stream<R: Copy>(state: &Gemma4TargetState<R>) -> (copy: Gemma4TargetState<R>)
    ensures
        copy.hidden == state.hidden,
        same_states(copy.shared@, state.shared@),
        copy.cache_len == state.cache_len,
{
    let mut shared: Vec<SharedStates<R>> = Vec::new();
    let mut index: usize = 0;
    while index < state.shared.len()
        invariant
            index <= state.shared@.len(),
            same_states(shared@, state.shared@.take(index as int)),
        decreases state.shared@.len() - index,
    {
        let ghost before = shared@;
        let states = &state.shared[index];
        shared.push(
            SharedStates {
                kind: states.kind,
                keys: states.keys.copy(),
                values: states.values.copy(),
            },
        );
        proof {
            let known = state.shared@.take(index + 1);
            assert forall|i: int| 0 <= i < shared@.len() implies {
                &&& (#[trigger] shared@[i]).kind == known[i].kind
                &&& shared@[i].keys.rows@ == known[i].keys.rows@
                &&& shared@[i].keys.zero == known[i].keys.zero
                &&& shared@[i].values.rows@ == known[i].values.rows@
                &&& shared@[i].values.zero == known[i].values.zero
            } by {
                if i < index {
                    assert(shared@[i] == before[i]);
                    assert(known[i] == state.shared@.take(index as int)[i]);
                }
            }
        }
        index = index + 1;
    }
    assert(state.shared@.take(index as int) =~= state.shared@);
    Gemma4TargetState { hidden: state.hidden, shared, cache_len: state.cache_len }
}

/// Whether two lists hold the same shared states.
pub open spec fn same_states<R>(left: Seq<SharedStates<R>>, right: Seq<SharedStates<R>>) -> bool {
    &&& left.len() == right.len()
    &&& forall|i: int|
        0 <= i < left.len() ==> {
            &&& (#[trigger] left[i]).kind == right[i].kind
            &&& left[i].keys.rows@ == right[i].keys.rows@
            &&& left[i].keys.zero == right[i].keys.zero
            &&& left[i].values.rows@ == right[i].values.rows@
            &&& left[i].values.zero == right[i].values.zero
        }
}

/// How many tokens an assistant with blocks of this size drafts at most.
pub fn max_draft_tokens(block_size: usize) -> (tokens: usize)
    ensures
        tokens == (if block_size == 0 {
            0
        } else {
            block_size - 1
        }),
{
    block_size.saturating_sub(1)
}

/// The row of a prompt's output that generation goes on from: the last one.
pub fn last_prompt_row(tokens: usize) -> (outcome: Result<usize, Error>)
    ensures
        crate::error::failed(outcome) == (if tokens == 0 {
            Some(Failure::Exception("MTP input must contain at least one token"@))
        } else {
            None
        }),
        outcome matches Ok(row) ==> row == tokens - 1,
{
    if tokens == 0 {
        return Err(Error::Exception("MTP input must contain at least one token".to_owned()));
    }
    Ok(tokens - 1)
}

/// The offset at which drafting starts.
pub fn draft_offset(cache_len: usize) -> (outcome: Result<i32, Error>)
    ensures
        crate::error::failed(outcome) == (if cache_len > i32::MAX {
            Some(Failure::Exception("Gemma 4 MTP cache offset exceeds i32"@))
        } else {
            None
        }),
        outcome matches Ok(offset) ==> offset == cache_len,
{
    if cache_len > i32::MAX as usize {
        return Err(Error::Exception("Gemma 4 MTP cache offset exceeds i32".to_owned()));
    }
    Ok(cache_len as i32)
}

/// Checks that the embedding that drafts read is there.
pub fn check_draft_embedding(initialized: bool) -> (outcome: Result<(), Error>)
    ensures
        crate::error::failed(outcome) == (if initialized {
            None
        } else {
            Some(Failure::Exception("Gemma 4 draft embedding is not initialized"@))
        }),
{
    if initialized {
        Ok(())
    } else {
        Err(Error::Exception("Gemma 4 draft embedding is not initialized".to_owned()))
    }
}

/// Takes the hidden states that a target pass kept for drafting.
pub fn take_draft_hidden<H>(kept: Option<H>) -> (outcome: Result<H, Error>)
    ensures
        match kept {
            Some(hidden) => outcome == Ok::<H, Error>(hidden),
            None => crate::error::failed(outcome) == Some(
                Failure::Exception(
                    "Gemma 4 layerwise pass did not retain target draft state"@,
                ),
            ),
        },
{
    match kept {
        Some(hidden) => Ok(hidden),
        None => Err(
            Error::Exception(
                "Gemma 4 layerwise pass did not retain target draft state".to_owned(),
            ),
        ),
    }
}

/// How a verified block is committed.
#[derive(Debug, Clone, Copy, PartialEq, Eq, Structural)]
pub struct CommitPlan {
    /// Tokens that the cache is cut down to, where it is.
    pub truncate_to: Option<usize>,
    /// Row of the block's output that generation goes on from.
    pub row: usize,
    /// Tokens in the cache afterwards.
    pub cache_len: usize,
    /// Tokens that the target has to run again.
    pub replayed_tokens: usize,
}

/// Why a block cannot be committed, if it cannot.
pub open spec fn commit_failure(
    verified_inputs: usize,
    input_len: usize,
    checkpoint_len: usize,
    cache_len: usize,
) -> Option<Failure> {
    if verified_inputs > input_len {
        Some(
            Failure::Exception(
                "cannot commit "@ + crate::text::decimal(verified_inputs as nat)
                    + " verified inputs from a block of "@ + crate::text::decimal(
                    input_len as nat,
                ),
            ),
        )
    } else if verified_inputs == input_len {
        None
    } else if checkpoint_len + verified_inputs > usize::MAX {
        Some(Failure::Exception("Gemma 4 MTP retained cache length overflow"@))
    } else if checkpoint_len + input_len > usize::MAX {
        Some(Failure::Exception("Gemma 4 MTP verified cache length overflow"@))
    } else if cache_len != checkpoint_len + input_len {
        Some(
            Failure::Exception(
                "Gemma 4 MTP verification cache has length "@ + crate::text::decimal(
                    cache_len as nat,
                ) + ", expected "@ + crate::text::decimal((checkpoint_len + input_len) as nat),
            ),
        )
    } else {
        None
    }
}

/// How a block is committed: a wholly verified one stays as it is, and of another the
/// cache keeps the verified inputs.
pub open spec fn commit_plan(
    verified_inputs: usize,
    input_len: usize,
    checkpoint_len: usize,
    cache_len: usize,
) -> CommitPlan {
    let row = if verified_inputs == 0 {
        0
    } else {
        (verified_inputs - 1) as usize
    };
    if verified_inputs == input_len {
        CommitPlan { truncate_to: None, row, cache_len, replayed_tokens: 0 }
    } else {
        let kept = (checkpoint_len + verified_inputs) as usize;
        CommitPlan { truncate_to: Some(kept), row, cache_len: kept, replayed_tokens: 0 }
    }
}

/// Plans how a block is committed of which so many inputs were verified. The cache had
/// `checkpoint_len` tokens before the block and has `cache_len` now.
pub fn commit_verification(
    verified_inputs: usize,
    input_len: usize,
    checkpoint_len: usize,
    cache_len: usize,
) -> (outcome: Result<CommitPlan, Error>)
    ensures
        crate::error::failed(outcome) == commit_failure(
            verified_inputs,
            input_len,
            checkpoint_len,
            cache_len,
        ),
        outcome matches Ok(plan) ==> plan == commit_plan(
            verified_inputs,
            input_len,
            checkpoint_len,
            cache_len,
        ),
        outcome matches Ok(plan) ==> {
            &&& verified_inputs <= input_len
            &&& plan.truncate_to is Some <==> verified_inputs < input_len
            &&& plan.truncate_to matches Some(kept) ==> kept == plan.cache_len
            &&& verified_inputs > 0 ==> plan.row + 1 == verified_inputs
            &&& verified_inputs == 0 ==> plan.row == 0
            &&& cache_len == checkpoint_len + input_len ==> plan.cache_len == checkpoint_len
                + verified_inputs
            &&& verified_inputs == input_len ==> plan.cache_len == cache_len
            &&& plan.replayed_tokens == 0
        },
{
    if verified_inputs > input_len {
        let mut text = "cannot commit ".to_owned();
        text.append(usize_text(verified_inputs).as_str());
        text.append(" verified inputs from a block of ");
        text.append(usize_text(input_len).as_str());
        return Err(Error::Exception(text));
    }
    let row: usize = verified_inputs.saturating_sub(1);
    if verified_inputs == input_len {
        return Ok(CommitPlan { truncate_to: None, row, cache_len, replayed_tokens: 0 });
    }
    let retained: usize = match checkpoint_len.checked_add(verified_inputs) {
        Some(length) => length,
        None => {
            return Err(Error::Exception("Gemma 4 MTP retained cache length overflow".to_owned()));
        },
    };
    let expected: usize = match checkpoint_len.checked_add(input_len) {
        Some(length) => length,
        None => {
            return Err(Error::Exception("Gemma 4 MTP verified cache length overflow".to_owned()));
        },
    };
    if cache_len != expected {
        let mut text = "Gemma 4 MTP verification cache has length ".to_owned();
        text.append(usize_text(cache_len).as_str());
        text.append(", expected ");
        text.append(usize_text(expected).as_str());
        return Err(Error::Exception(text));
    }
    Ok(
        CommitPlan {
            truncate_to: Some(retained),
            row,
            cache_len: retained,
            replayed_tokens: 0,
        },
    )
}

/// Whatever part of a block is verified, exactly that part stays in the cache.
pub proof fn commit_keeps_verified_inputs(
    verified_inputs: usize,
    input_len: usize,
    checkpoint_len: usize,
    cache_len: usize,
)
    requires
        commit_failure(verified_inputs, input_len, checkpoint_len, cache_len) is None,
        cache_len == checkpoint_len + input_len,
    ensures
        commit_plan(verified_inputs, input_len, checkpoint_len, cache_len).cache_len
            == checkpoint_len + verified_inputs,
{
}

/// Generation goes on from the last token that is left in the cache: whenever an input is
/// verified, the row that is taken is that token's, for wholly and partly verified blocks
/// alike. The cache is cut down exactly where inputs were not verified, and then to the
/// tokens that are left; the target runs nothing again.
pub proof fn generation_goes_on_from_the_last_kept_token(
    verified_inputs: usize,
    input_len: usize,
    checkpoint_len: usize,
    cache_len: usize,
)
    requires
        commit_failure(verified_inputs, input_len, checkpoint_len, cache_len) is None,
        cache_len == checkpoint_len + input_len,
    ensures
        ({
            let plan = commit_plan(verified_inputs, input_len, checkpoint_len, cache_len);
            &&& verified_inputs > 0 ==> checkpoint_len + plan.row + 1 == plan.cache_len
            &&& plan.cache_len - checkpoint_len == verified_inputs
            &&& plan.truncate_to == if verified_inputs < input_len {
                Some(plan.cache_len)
            } else {
                None
            }
            &&& plan.replayed_tokens == 0
        }),
{
}

/// A block is committed exactly where no more of it was verified than it has, and where the
/// cache holds the tokens before it and its own, unless all of it was verified.
pub proof fn commits_are_refused_only_for_cause(
    verified_inputs: usize,
    input_len: usize,
    checkpoint_len: usize,
    cache_len: usize,
)
    ensures
        verified_inputs > input_len ==> commit_failure(
            verified_inputs,
            input_len,
            checkpoint_len,
            cache_len,
        ) is Some,
        verified_inputs == input_len ==> commit_failure(
            verified_inputs,
            input_len,
            checkpoint_len,
            cache_len,
        ) is None,
        verified_inputs < input_len ==> (commit_failure(
            verified_inputs,
            input_len,
            checkpoint_len,
            cache_len,
        ) is None <==> cache_len == checkpoint_len + input_len),
{
}

/// Committing less of a block keeps less of it: of two commits of one block, the one with
/// fewer verified inputs keeps a shorter part of the cache and an earlier row.
pub proof fn fewer_verified_inputs_keep_less(
    fewer: usize,
    more: usize,
    input_len: usize,
    checkpoint_len: usize,
    cache_len: usize,
)
    requires
        0 < fewer < more <= input_len,
        cache_len == checkpoint_len + input_len,
    ensures
        ({
            let short = commit_plan(fewer, input_len, checkpoint_len, cache_len);
            let long = commit_plan(more, input_len, checkpoint_len, cache_len);
            &&& long.cache_len - short.cache_len == more - fewer
            &&& long.row - short.row == more - fewer
        }),
{
}

/// Shared states end with the cache: no more tokens are kept than the cache holds, none
/// of those that it holds is lost, and those that are kept are the first ones.
pub proof fn shared_states_end_with_the_cache<R>(
    cut: Seq<SharedStates<R>>,
    shared: Seq<SharedStates<R>>,
    limit: int,
    i: int,
    token: int,
)
    requires
        0 <= limit,
        cut_to(cut, shared, limit),
        0 <= i < shared.len(),
    ensures
        cut.len() == shared.len(),
        cut[i].kind == shared[i].kind,
        cut[i].keys.rows@.len() <= limit,
        cut[i].values.rows@.len() <= limit,
        0 <= token < limit && token < shared[i].keys.rows@.len() ==> token < cut[i].keys.rows@.len()
            && cut[i].keys.rows@[token] == shared[i].keys.rows@[token],
        0 <= token < limit && token < shared[i].values.rows@.len() ==> token
            < cut[i].values.rows@.len() && cut[i].values.rows@[token]
            == shared[i].values.rows@[token],
{
    let here = cut[i];
}

/// Drafts leave room for the token that the target adds, a prompt goes on from its last
/// token, and drafting starts behind what the cache holds.
pub proof fn drafts_go_on_behind_the_cache(
    block_size: usize,
    drafts: usize,
    tokens: usize,
    row: Result<usize, Error>,
    cache_len: usize,
    offset: Result<i32, Error>,
)
    requires
        call_ensures(max_draft_tokens, (block_size,), drafts),
        call_ensures(last_prompt_row, (tokens,), row),
        call_ensures(draft_offset, (cache_len,), offset),
    ensures
        block_size > 0 ==> drafts + 1 == block_size,
        block_size == 0 ==> drafts == 0,
        row is Ok <==> tokens > 0,
        row is Ok ==> row->Ok_0 + 1 == tokens,
        offset is Ok <==> cache_len <= i32::MAX,
        offset is Ok ==> offset->Ok_0 == cache_len,
{
}

} // verus!
