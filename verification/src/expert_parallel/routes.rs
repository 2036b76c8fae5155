//! Compaction of the routes that a rank owns and their exact recombination.

use vstd::prelude::*;
use vstd::string::StringExecFns;

use crate::array::Dtype;
use crate::cache_residency::block::same_shape;
use crate::error::{Error, Failure};
use crate::expert_parallel::assignment::{ExpertAssignment, Ownership};
use crate::expert_parallel::statistics::RoutingStatistics;
use crate::text::list_text;

verus! {

/// Token ownership layout used by expert dispatch.
#[derive(Debug, Clone, Copy, PartialEq, Eq, Structural)]
pub enum TokenLayout {
    /// Every EP rank has identical hidden rows and router results.
    Replicated,
    /// Each source rank owns disjoint hidden rows and exchanges routes.
    Sharded,
}

/// Transport selected for expert routes.
#[derive(Debug, Clone, Copy, PartialEq, Eq, Structural)]
pub enum ExpertExchangeStrategy {
    /// Compact local routes, execute local experts, and all-sum token outputs.
    ReplicatedInputAllSum,
    /// Variable-count all-to-all emulated with padded all-gather.
    AllGatherAllToAllV,
}

/// Hidden states of tokens: one row for each token.
#[derive(Debug, Clone)]
pub struct HiddenStates<R> {
    /// Shape of the array.
    pub shape: Vec<i32>,
    /// Element type.
    pub dtype: Dtype,
    /// Rows along the leading axis.
    pub rows: Vec<R>,
}

/// Experts that the router selected, flattened row by row.
#[derive(Debug, Clone)]
pub struct ExpertIds {
    /// Shape of the array.
    pub shape: Vec<i32>,
    /// Element type.
    pub dtype: Dtype,
    /// Global expert ids as 32-bit integers.
    pub values: Vec<i32>,
}

/// Weights of the selected routes, flattened row by row.
#[derive(Debug, Clone)]
pub struct RouteWeights<W> {
    /// Shape of the array.
    pub shape: Vec<i32>,
    /// Element type.
    pub dtype: Dtype,
    /// Weights.
    pub values: Vec<W>,
}

impl<R> HiddenStates<R> {
    /// A rank-2 array has as many rows as its leading dimension says.
    pub open spec fn wf(self) -> bool {
        self.shape@.len() == 2 ==> self.rows@.len() == self.shape@[0]
    }
}

impl ExpertIds {
    /// A rank-2 array has as many values as its dimensions say.
    pub open spec fn wf(self) -> bool {
        self.shape@.len() == 2 ==> {
            &&& 0 <= self.shape@[0]
            &&& 0 <= self.shape@[1]
            &&& self.values@.len() == self.shape@[0] * self.shape@[1]
        }
    }
}

impl<W> RouteWeights<W> {
    /// A rank-2 array has as many values as its dimensions say.
    pub open spec fn wf(self) -> bool {
        self.shape@.len() == 2 ==> {
            &&& 0 <= self.shape@[0]
            &&& 0 <= self.shape@[1]
            &&& self.values@.len() == self.shape@[0] * self.shape@[1]
        }
    }
}

/// Compact routes owned by the current rank.
#[derive(Debug, Clone)]
pub struct DispatchedRoutes<R, W> {
    /// Hidden rows in stable original route order.
    pub hidden: Vec<R>,
    /// Checkpoint-global expert ids.
    pub global_expert_ids: Vec<usize>,
    /// Dense owner-local ids passed to grouped kernels.
    pub local_expert_ids: Vec<usize>,
    /// Original flattened route positions.
    pub original_route_indices: Vec<usize>,
    /// Source token indices.
    pub token_indices: Vec<usize>,
    /// Top-k slot indices.
    pub slot_indices: Vec<usize>,
    /// Route weights, not yet applied.
    pub weights: Vec<W>,
}

/// Whether a route leads to an expert of the model.
pub open spec fn route_valid(ids: Seq<i32>, table: Ownership, position: int) -> bool {
    0 <= ids[position] < table.owners.len()
}

/// Whether every route leads to an expert of the model.
pub open spec fn routes_valid(ids: Seq<i32>, table: Ownership) -> bool {
    forall|p: int| 0 <= p < ids.len() ==> #[trigger] route_valid(ids, table, p)
}

/// Whether a rank owns the expert of a route.
pub open spec fn route_owned(ids: Seq<i32>, owners: Seq<usize>, rank: usize, position: int) -> bool {
    owners[ids[position] as int] == rank
}

/// Positions of the routes among the first `count` that a rank owns, in order.
pub open spec fn owned_positions(
    ids: Seq<i32>,
    owners: Seq<usize>,
    rank: usize,
    count: int,
) -> Seq<int>
    decreases count,
{
    if count <= 0 {
        Seq::empty()
    } else if route_owned(ids, owners, rank, count - 1) {
        owned_positions(ids, owners, rank, count - 1).push(count - 1)
    } else {
        owned_positions(ids, owners, rank, count - 1)
    }
}

/// Why routes cannot be compacted, if they cannot.
pub open spec fn compaction_failure<R, W>(
    hidden: HiddenStates<R>,
    ids: ExpertIds,
    weights: RouteWeights<W>,
    table: Ownership,
) -> Option<Failure> {
    if ids.shape@.len() != 2 || weights.shape@ != ids.shape@ {
        Some(
            Failure::Parallel(
                "expert ids and weights must have matching [tokens, top_k] shapes, got "@
                    + crate::text::listed(ids.shape@) + " and "@ + crate::text::listed(
                    weights.shape@,
                ),
            ),
        )
    } else if hidden.shape@.len() != 2 || hidden.shape@[0] != ids.shape@[0] {
        Some(
            Failure::Parallel(
                "hidden states must be [tokens, hidden] matching route tokens, got "@
                    + crate::text::listed(hidden.shape@),
            ),
        )
    } else if !ids.dtype.routable() {
        Some(
            Failure::Parallel(
                "expert ids must use an integer dtype, got "@ + crate::array::dtype_name(ids.dtype),
            ),
        )
    } else if !weights.dtype.floating() || !hidden.dtype.floating() {
        Some(Failure::Parallel("route weights and hidden states must be floating point"@))
    } else if !routes_valid(ids.values@, table) {
        Some(Failure::Parallel("route contains a globally invalid expert id"@))
    } else {
        None
    }
}

/// Whether compacted routes are those at the given positions.
pub open spec fn holds_routes<R, W>(
    routes: DispatchedRoutes<R, W>,
    hidden: Seq<R>,
    ids: Seq<i32>,
    weights: Seq<W>,
    top_k: int,
    table: Ownership,
    positions: Seq<int>,
) -> bool {
    &&& routes.hidden@.len() == positions.len()
    &&& routes.global_expert_ids@.len() == positions.len()
    &&& routes.local_expert_ids@.len() == positions.len()
    &&& routes.original_route_indices@.len() == positions.len()
    &&& routes.token_indices@.len() == positions.len()
    &&& routes.slot_indices@.len() == positions.len()
    &&& routes.weights@.len() == positions.len()
    &&& forall|i: int|
        #![trigger positions[i]]
        0 <= i < positions.len() ==> {
            let position = positions[i];
            &&& routes.original_route_indices@[i] == position
            &&& routes.token_indices@[i] == position / top_k
            &&& routes.slot_indices@[i] == position % top_k
            &&& routes.global_expert_ids@[i] == ids[position]
            &&& routes.local_expert_ids@[i] == table.local_id(ids[position] as int)
            &&& routes.hidden@[i] == hidden[position / top_k]
            &&& routes.weights@[i] == weights[position]
        }
}

/// The counters of one compaction.
pub open spec fn compaction_statistics(
    total_routes: nat,
    local_routes: nat,
    synchronization_time: u128,
) -> RoutingStatistics {
    RoutingStatistics {
        total_routes: total_routes as usize,
        local_routes: local_routes as usize,
        synchronization_count: 1,
        synchronization_time,
        ..RoutingStatistics::zero()
    }
}

fn validate_routes<R, W>(
    hidden: &HiddenStates<R>,
    ids: &ExpertIds,
    weights: &RouteWeights<W>,
    assignment: &ExpertAssignment,
) -> (outcome: Result<(), Error>)
    requires
        hidden.wf(),
        ids.wf(),
        weights.wf(),
    ensures
        crate::error::failed(outcome) == compaction_failure(*hidden, *ids, *weights, assignment@),
{
    if ids.shape.len() != 2 || !same_shape(&weights.shape, &ids.shape) {
        let mut text =
            "expert ids and weights must have matching [tokens, top_k] shapes, got ".to_owned();
        text.append(list_text(&ids.shape).as_str());
        text.append(" and ");
        text.append(list_text(&weights.shape).as_str());
        return Err(Error::Parallel(text));
    }
    if hidden.shape.len() != 2 || hidden.shape[0] != ids.shape[0] {
        let mut text =
            "hidden states must be [tokens, hidden] matching route tokens, got ".to_owned();
        text.append(list_text(&hidden.shape).as_str());
        return Err(Error::Parallel(text));
    }
    if !ids.dtype.is_routable() {
        let mut text = "expert ids must use an integer dtype, got ".to_owned();
        text.append(ids.dtype.name());
        return Err(Error::Parallel(text));
    }
    if !weights.dtype.is_float() || !hidden.dtype.is_float() {
        return Err(
            Error::Parallel("route weights and hidden states must be floating point".to_owned()),
        );
    }
    let experts: usize = assignment.global_expert_count();
    let mut position: usize = 0;
    while position < ids.values.len()
        invariant
            position <= ids.values@.len(),
            experts == assignment@.owners.len(),
            ids.shape@.len() == 2,
            weights.shape@ == ids.shape@,
            hidden.shape@.len() == 2,
            hidden.shape@[0] == ids.shape@[0],
            ids.dtype.routable(),
            weights.dtype.floating(),
            hidden.dtype.floating(),
            forall|p: int|
                0 <= p < position ==> #[trigger] route_valid(ids.values@, assignment@, p),
        decreases ids.values@.len() - position,
    {
        let id: i32 = ids.values[position];
        if id < 0 || id as usize >= experts {
            assert(!route_valid(ids.values@, assignment@, position as int));
            return Err(Error::Parallel("route contains a globally invalid expert id".to_owned()));
        }
        position = position + 1;
    }
    Ok(())
}

/// Compacts routes owned by this rank. `synchronization_time` is what waiting for the
/// router's decisions took.
pub fn compact_local_routes<R: Copy, W: Copy>(
    hidden: &HiddenStates<R>,
    ids: &ExpertIds,
    weights: &RouteWeights<W>,
    assignment: &ExpertAssignment,
    synchronization_time: u128,
) -> (outcome: Result<(DispatchedRoutes<R, W>, RoutingStatistics), Error>)
    requires
        hidden.wf(),
        ids.wf(),
        weights.wf(),
    ensures
        crate::error::failed(outcome) == compaction_failure(*hidden, *ids, *weights, assignment@),
        outcome matches Ok((routes, statistics)) ==> {
            let positions = owned_positions(
                ids.values@,
                assignment@.owners,
                assignment@.rank,
                ids.values@.len() as int,
            );
            &&& holds_routes(
                routes,
                hidden.rows@,
                ids.values@,
                weights.values@,
                ids.shape@[1] as int,
                assignment@,
                positions,
            )
            &&& statistics == compaction_statistics(
                ids.values@.len(),
                positions.len(),
                synchronization_time,
            )
        },
{
    match validate_routes(hidden, ids, weights, assignment) {
        Ok(_) => {},
        Err(error) => {
            return Err(error);
        },
    }
    let owners = assignment.owners();
    let locals = assignment.owner_local_ids();
    let rank: usize = assignment.rank();
    let top_k: usize = ids.shape[1] as usize;
    let ghost tokens = ids.shape@[0] as int;
    let mut routes: DispatchedRoutes<R, W> = DispatchedRoutes {
        hidden: Vec::new(),
        global_expert_ids: Vec::new(),
        local_expert_ids: Vec::new(),
        original_route_indices: Vec::new(),
        token_indices: Vec::new(),
        slot_indices: Vec::new(),
        weights: Vec::new(),
    };
    let mut position: usize = 0;
    while position < ids.values.len()
        invariant
            position <= ids.values@.len(),
            owners@ == assignment@.owners,
            rank == assignment@.rank,
            assignment@.valid(),
            locals@.len() == owners@.len(),
            forall|i: int|
                0 <= i < locals@.len() ==> (#[trigger] locals@[i]) as int
                    == assignment@.local_id(i),
            routes_valid(ids.values@, assignment@),
            top_k == ids.shape@[1],
            tokens == ids.shape@[0],
            hidden.rows@.len() == tokens,
            ids.values@.len() == tokens * top_k,
            weights.values@.len() == ids.values@.len(),
            holds_routes(
                routes,
                hidden.rows@,
                ids.values@,
                weights.values@,
                top_k as int,
                assignment@,
                owned_positions(ids.values@, owners@, rank, position as int),
            ),
        decreases ids.values@.len() - position,
    {
        assert(route_valid(ids.values@, assignment@, position as int));
        let global: usize = ids.values[position] as usize;
        let ghost before = owned_positions(ids.values@, owners@, rank, position as int);
        if owners[global] == rank {
            proof {
                let place = position as int;
                let wide = top_k as int;
                assert(wide > 0) by (nonlinear_arith)
                    requires
                        0 <= place < tokens * wide,
                        wide >= 0,
                ;
                assert(0 <= place / wide < tokens) by (nonlinear_arith)
                    requires
                        0 <= place < tokens * wide,
                        wide > 0,
                ;
            }
            let token: usize = position / top_k;
            let slot: usize = position % top_k;
            routes.hidden.push(hidden.rows[token]);
            routes.global_expert_ids.push(global);
            routes.local_expert_ids.push(locals[global]);
            routes.original_route_indices.push(position);
            routes.token_indices.push(token);
            routes.slot_indices.push(slot);
            routes.weights.push(weights.values[position]);
        }
        position = position + 1;
        proof {
            let after = owned_positions(ids.values@, owners@, rank, position as int);
            assert forall|i: int|
                #![trigger after[i]]
                0 <= i < after.len() implies {
                let place = after[i];
                &&& routes.original_route_indices@[i] == place
                &&& routes.token_indices@[i] == place / (top_k as int)
                &&& routes.slot_indices@[i] == place % (top_k as int)
                &&& routes.global_expert_ids@[i] == ids.values@[place]
                &&& routes.local_expert_ids@[i] == assignment@.local_id(ids.values@[place] as int)
                &&& routes.hidden@[i] == hidden.rows@[place / (top_k as int)]
                &&& routes.weights@[i] == weights.values@[place]
            } by {
                if i < before.len() {
                    assert(after[i] == before[i]);
                }
            }
        }
    }
    let mut statistics = RoutingStatistics::default();
    statistics.total_routes = ids.values.len();
    statistics.local_routes = routes.token_indices.len();
    statistics.synchronization_count = 1;
    statistics.synchronization_time = synchronization_time;
    Ok((routes, statistics))
}

/// Why an assignment does not belong to a group, if it does not.
pub open spec fn group_failure(
    table: Ownership,
    group_rank: usize,
    group_size: usize,
) -> Option<Failure> {
    if group_rank != table.rank || group_size != table.group_size {
        Some(Failure::Parallel("expert assignment does not match the supplied group"@))
    } else {
        None
    }
}

/// Checks that an assignment belongs to a group.
pub fn check_group(assignment: &ExpertAssignment, group_rank: usize, group_size: usize) -> (outcome:
    Result<(), Error>)
    ensures
        crate::error::failed(outcome) == group_failure(assignment@, group_rank, group_size),
{
    if group_rank != assignment.rank() || group_size != assignment.group_size() {
        return Err(
            Error::Parallel("expert assignment does not match the supplied group".to_owned()),
        );
    }
    Ok(())
}

/// Selects the routes that this rank executes on replicated hidden states. Their
/// weighted outputs are then recombined by token and summed over the group.
pub fn dispatch_replicated<R: Copy, W: Copy>(
    hidden: &HiddenStates<R>,
    ids: &ExpertIds,
    weights: &RouteWeights<W>,
    assignment: &ExpertAssignment,
    group_rank: usize,
    group_size: usize,
    synchronization_time: u128,
) -> (outcome: Result<(DispatchedRoutes<R, W>, RoutingStatistics), Error>)
    requires
        hidden.wf(),
        ids.wf(),
        weights.wf(),
    ensures
        crate::error::failed(outcome) == (match group_failure(assignment@, group_rank, group_size) {
            Some(failure) => Some(failure),
            None => compaction_failure(*hidden, *ids, *weights, assignment@),
        }),
        outcome matches Ok((routes, statistics)) ==> {
            let positions = owned_positions(
                ids.values@,
                assignment@.owners,
                assignment@.rank,
                ids.values@.len() as int,
            );
            &&& holds_routes(
                routes,
                hidden.rows@,
                ids.values@,
                weights.values@,
                ids.shape@[1] as int,
                assignment@,
                positions,
            )
            &&& statistics == compaction_statistics(
                ids.values@.len(),
                positions.len(),
                synchronization_time,
            )
        },
{
    match check_group(assignment, group_rank, group_size) {
        Ok(_) => {},
        Err(error) => {
            return Err(error);
        },
    }
    compact_local_routes(hidden, ids, weights, assignment, synchronization_time)
}

/// Checks that a bank returned one row for each route that it executed.
pub fn check_bank_output(shape: &Vec<i32>, local_routes: usize) -> (outcome: Result<(), Error>)
    ensures
        crate::error::failed(outcome) == (if shape@.len() != 2 || shape@[0] != local_routes as i32 {
            Some(
                Failure::Parallel(
                    "local expert bank returned invalid shape "@ + crate::text::listed(shape@),
                ),
            )
        } else {
            None
        }),
{
    if shape.len() != 2 || shape[0] != local_routes as i32 {
        let mut text = "local expert bank returned invalid shape ".to_owned();
        text.append(list_text(shape).as_str());
        return Err(Error::Parallel(text));
    }
    Ok(())
}

/// The routes among the first `count` that contribute to a token, in order.
pub open spec fn contributions_to(token_indices: Seq<usize>, token: usize, count: int) -> Seq<usize>
    decreases count,
{
    if count <= 0 {
        Seq::empty()
    } else if token_indices[count - 1] == token {
        contributions_to(token_indices, token, count - 1).push((count - 1) as usize)
    } else {
        contributions_to(token_indices, token, count - 1)
    }
}

/// Groups compact routes by the token that their weighted outputs are summed into.
/// Tokens without a local route get nothing.
pub fn token_contributions(token_indices: &Vec<usize>, tokens: usize) -> (contributions: Vec<
    Vec<usize>,
>)
    requires
        forall|i: int| 0 <= i < token_indices@.len() ==> #[trigger] token_indices@[i] < tokens,
    ensures
        contributions@.len() == tokens,
        forall|t: int|
            0 <= t < tokens ==> (#[trigger] contributions@[t])@ == contributions_to(
                token_indices@,
                t as usize,
                token_indices@.len() as int,
            ),
{
    let mut contributions: Vec<Vec<usize>> = Vec::new();
    let mut token: usize = 0;
    while token < tokens
        invariant
            token <= tokens,
            contributions@.len() == token,
            forall|t: int|
                0 <= t < token ==> (#[trigger] contributions@[t])@ == contributions_to(
                    token_indices@,
                    t as usize,
                    token_indices@.len() as int,
                ),
        decreases tokens - token,
    {
        let mut mine: Vec<usize> = Vec::new();
        let mut route: usize = 0;
        while route < token_indices.len()
            invariant
                route <= token_indices@.len(),
                mine@ == contributions_to(token_indices@, token, route as int),
            decreases token_indices@.len() - route,
        {
            if token_indices[route] == token {
                mine.push(route);
            }
            route = route + 1;
        }
        contributions.push(mine);
        token = token + 1;
    }
    contributions
}

/// What one replicated dispatch took, in nanoseconds.
#[derive(Debug, Clone, Copy, PartialEq, Eq, Structural)]
pub struct DispatchTimings {
    /// Validating and compacting routes.
    pub compaction: u128,
    /// Executing local experts.
    pub expert: u128,
    /// Reducing over the group.
    pub reduction: u128,
    /// The whole dispatch.
    pub total: u128,
}

/// Completes the counters of one replicated dispatch.
pub fn finish_dispatch(statistics: RoutingStatistics, timings: DispatchTimings) -> (finished:
    RoutingStatistics)
    requires
        statistics.compaction_time + timings.compaction <= u128::MAX,
        statistics.expert_time + timings.expert <= u128::MAX,
        statistics.reduction_time + timings.reduction <= u128::MAX,
    ensures
        finished == (RoutingStatistics {
            compaction_time: (statistics.compaction_time + timings.compaction) as u128,
            expert_time: (statistics.expert_time + timings.expert) as u128,
            reduction_time: (statistics.reduction_time + timings.reduction) as u128,
            total_time: timings.total,
            ..statistics
        }),
{
    let mut finished = statistics;
    finished.compaction_time = finished.compaction_time + timings.compaction;
    finished.expert_time = finished.expert_time + timings.expert;
    finished.reduction_time = finished.reduction_time + timings.reduction;
    finished.total_time = timings.total;
    finished
}

/// Positions of owned routes are positions of routes that the rank owns.
pub proof fn owned_positions_are_owned(ids: Seq<i32>, owners: Seq<usize>, rank: usize, count: int)
    requires
        0 <= count <= ids.len(),
    ensures
        forall|i: int|
            0 <= i < owned_positions(ids, owners, rank, count).len() ==> 0 <= (
            #[trigger] owned_positions(ids, owners, rank, count)[i]) < count && route_owned(
                ids,
                owners,
                rank,
                owned_positions(ids, owners, rank, count)[i],
            ),
    decreases count,
{
    if count > 0 {
        owned_positions_are_owned(ids, owners, rank, count - 1);
        let before = owned_positions(ids, owners, rank, count - 1);
        let all = owned_positions(ids, owners, rank, count);
        assert forall|i: int| 0 <= i < all.len() implies 0 <= (#[trigger] all[i]) < count
            && route_owned(ids, owners, rank, all[i]) by {
            if i < before.len() {
                assert(all[i] == before[i]);
            }
        }
    }
}

proof fn positions_ascend(ids: Seq<i32>, owners: Seq<usize>, rank: usize, count: int)
    requires
        0 <= count <= ids.len(),
    ensures
        forall|i: int|
            0 <= i < owned_positions(ids, owners, rank, count).len() ==> 0 <= (
            #[trigger] owned_positions(ids, owners, rank, count)[i]) < count,
        forall|i: int, j: int|
            0 <= i < j < owned_positions(ids, owners, rank, count).len() ==> (
            #[trigger] owned_positions(ids, owners, rank, count)[i]) < (
            #[trigger] owned_positions(ids, owners, rank, count)[j]),
    decreases count,
{
    if count > 0 {
        positions_ascend(ids, owners, rank, count - 1);
        let before = owned_positions(ids, owners, rank, count - 1);
        let all = owned_positions(ids, owners, rank, count);
        assert forall|i: int| 0 <= i < all.len() implies 0 <= (#[trigger] all[i]) < count by {
            if i < before.len() {
                assert(all[i] == before[i]);
            }
        }
        assert forall|i: int, j: int| 0 <= i < j < all.len() implies (#[trigger] all[i]) < (
        #[trigger] all[j]) by {
            assert(all[i] == before[i]);
            if j < before.len() {
                assert(all[j] == before[j]);
            }
        }
    }
}

proof fn position_is_owned(ids: Seq<i32>, owners: Seq<usize>, rank: usize, count: int, position: int)
    requires
        0 <= count <= ids.len(),
    ensures
        owned_positions(ids, owners, rank, count).contains(position) <==> 0 <= position < count
            && route_owned(ids, owners, rank, position),
    decreases count,
{
    let all = owned_positions(ids, owners, rank, count);
    if count > 0 {
        position_is_owned(ids, owners, rank, count - 1, position);
        let before = owned_positions(ids, owners, rank, count - 1);
        if before.contains(position) {
            let i = choose|i: int| 0 <= i < before.len() && before[i] == position;
            assert(all[i] == position);
        }
        if all.contains(position) {
            let i = choose|i: int| 0 <= i < all.len() && all[i] == position;
            if i < before.len() {
                assert(before[i] == position);
            }
        }
        if position == count - 1 && route_owned(ids, owners, rank, position) {
            assert(all[all.len() - 1] == position);
        }
    }
}

/// Every valid route is executed by exactly one rank of the group: the owner of its
/// expert compacts it, once, and no other rank does.
pub proof fn routes_are_partitioned(
    ids: Seq<i32>,
    owners: Seq<usize>,
    rank: usize,
    position: int,
)
    requires
        0 <= position < ids.len(),
    ensures
        owned_positions(ids, owners, rank, ids.len() as int).contains(position) <==>
            owners[ids[position] as int] == rank,
        forall|i: int, j: int|
            0 <= i < j < owned_positions(ids, owners, rank, ids.len() as int).len()
                ==> owned_positions(ids, owners, rank, ids.len() as int)[i]
                != owned_positions(ids, owners, rank, ids.len() as int)[j],
{
    position_is_owned(ids, owners, rank, ids.len() as int, position);
    positions_ascend(ids, owners, rank, ids.len() as int);
}

proof fn contribution_is_listed(token_indices: Seq<usize>, token: usize, count: int, route: usize)
    requires
        0 <= count <= token_indices.len() <= usize::MAX,
    ensures
        contributions_to(token_indices, token, count).contains(route) <==> route < count
            && token_indices[route as int] == token,
    decreases count,
{
    let all = contributions_to(token_indices, token, count);
    if count > 0 {
        contribution_is_listed(token_indices, token, count - 1, route);
        let before = contributions_to(token_indices, token, count - 1);
        if before.contains(route) {
            let i = choose|i: int| 0 <= i < before.len() && before[i] == route;
            assert(all[i] == route);
        }
        if all.contains(route) {
            let i = choose|i: int| 0 <= i < all.len() && all[i] == route;
            if i < before.len() {
                assert(before[i] == route);
            }
        }
        if route == count - 1 && token_indices[route as int] == token {
            assert(all[all.len() - 1] == route);
        }
    }
}

/// Replicated dispatch recombines exactly: whatever the router selected for a token in
/// a slot, the rank that owns the selected expert, and only that rank, sums that route's
/// weighted output into that token, from that token's hidden row and with that route's
/// weight.
pub proof fn replicated_dispatch_is_exact<R, W>(
    routes: DispatchedRoutes<R, W>,
    hidden: Seq<R>,
    ids: Seq<i32>,
    weights: Seq<W>,
    top_k: int,
    table: Ownership,
    token: usize,
    slot: int,
)
    requires
        table.valid(),
        routes_valid(ids, table),
        0 <= slot < top_k,
        0 <= token * top_k + slot < ids.len() <= usize::MAX,
        holds_routes(
            routes,
            hidden,
            ids,
            weights,
            top_k,
            table,
            owned_positions(ids, table.owners, table.rank, ids.len() as int),
        ),
    ensures
        ({
            let position = token * top_k + slot;
            let summed = contributions_to(
                routes.token_indices@,
                token,
                routes.token_indices@.len() as int,
            );
            (exists|route: usize|
                {
                    &&& #[trigger] summed.contains(route)
                    &&& routes.original_route_indices@[route as int] == position
                    &&& routes.slot_indices@[route as int] == slot
                    &&& routes.global_expert_ids@[route as int] == ids[position]
                    &&& routes.hidden@[route as int] == hidden[token as int]
                    &&& routes.weights@[route as int] == weights[position]
                }) <==> table.owners[ids[position] as int] == table.rank
        }),
{
    let position = token * top_k + slot;
    let positions = owned_positions(ids, table.owners, table.rank, ids.len() as int);
    let summed = contributions_to(
        routes.token_indices@,
        token,
        routes.token_indices@.len() as int,
    );
    position_is_owned(ids, table.owners, table.rank, ids.len() as int, position);
    positions_ascend(ids, table.owners, table.rank, ids.len() as int);
    assert(position / top_k == token && position % top_k == slot) by (nonlinear_arith)
        requires
            0 <= slot < top_k,
            position == token * top_k + slot,
    ;
    owned_count_is_bounded(ids, table.owners, table.rank, ids.len() as int);
    if table.owners[ids[position] as int] == table.rank {
        let i = choose|i: int| 0 <= i < positions.len() && positions[i] == position;
        contribution_is_listed(
            routes.token_indices@,
            token,
            routes.token_indices@.len() as int,
            i as usize,
        );
        assert(summed.contains(i as usize));
    }
    if exists|route: usize|
        {
            &&& #[trigger] summed.contains(route)
            &&& routes.original_route_indices@[route as int] == position
        } {
        let route = choose|route: usize|
            {
                &&& #[trigger] summed.contains(route)
                &&& routes.original_route_indices@[route as int] == position
            };
        contribution_is_listed(
            routes.token_indices@,
            token,
            routes.token_indices@.len() as int,
            route,
        );
        assert(positions[route as int] == position);
        assert(positions.contains(position));
    }
}

proof fn owned_count_is_bounded(ids: Seq<i32>, owners: Seq<usize>, rank: usize, count: int)
    requires
        0 <= count,
    ensures
        owned_positions(ids, owners, rank, count).len() <= count,
    decreases count,
{
    if count > 0 {
        owned_count_is_bounded(ids, owners, rank, count - 1);
    }
}

/// Routes are accepted exactly where they can be dispatched: ids and weights are
/// matrices of one shape, every token has a hidden row, ids are 32- or 64-bit integers,
/// weights and hidden states are real numbers, and every id is one of the model's experts.
pub proof fn accepted_routes_can_be_dispatched<R, W>(
    hidden: HiddenStates<R>,
    ids: ExpertIds,
    weights: RouteWeights<W>,
    table: Ownership,
)
    ensures
        compaction_failure(hidden, ids, weights, table) is None <==> {
            &&& ids.shape@.len() == 2
            &&& weights.shape@ == ids.shape@
            &&& hidden.shape@.len() == 2
            &&& hidden.shape@[0] == ids.shape@[0]
            &&& (ids.dtype is Int32 || ids.dtype is Uint32 || ids.dtype is Int64 || ids.dtype is Uint64)
            &&& (weights.dtype is Float16 || weights.dtype is Float32 || weights.dtype is Float64
                || weights.dtype is Bfloat16)
            &&& (hidden.dtype is Float16 || hidden.dtype is Float32 || hidden.dtype is Float64
                || hidden.dtype is Bfloat16)
            &&& forall|p: int|
                0 <= p < ids.values@.len() ==> 0 <= #[trigger] ids.values@[p]
                    < table.owners.len()
        },
{
    let values = ids.values@;
    if routes_valid(values, table) {
        assert forall|p: int| 0 <= p < values.len() implies 0 <= #[trigger] values[p]
            < table.owners.len() by {
            assert(route_valid(values, table, p));
        }
    }
}

/// A compacted route is the route that it says it is: its token and slot lead back to
/// its place among the routes, its hidden row is that token's, its weight that route's,
/// and its owner-local expert is the selected expert, which this rank owns. Routes stay
/// in their order.
pub proof fn compacted_routes_are_what_they_say<R, W>(
    routes: DispatchedRoutes<R, W>,
    hidden: Seq<R>,
    ids: Seq<i32>,
    weights: Seq<W>,
    top_k: int,
    table: Ownership,
    i: int,
)
    requires
        table.valid(),
        routes_valid(ids, table),
        0 < top_k,
        holds_routes(
            routes,
            hidden,
            ids,
            weights,
            top_k,
            table,
            owned_positions(ids, table.owners, table.rank, ids.len() as int),
        ),
        0 <= i < routes.hidden@.len(),
    ensures
        ({
            let route = routes.original_route_indices@[i] as int;
            let token = routes.token_indices@[i] as int;
            let slot = routes.slot_indices@[i] as int;
            let global = routes.global_expert_ids@[i] as int;
            let local = routes.local_expert_ids@[i] as int;
            &&& 0 <= route < ids.len()
            &&& 0 <= slot < top_k
            &&& route == token * top_k + slot
            &&& routes.hidden@[i] == hidden[token]
            &&& routes.weights@[i] == weights[route]
            &&& global == ids[route]
            &&& table.owners[global] == table.rank
            &&& 0 <= local < table.local_experts().len()
            &&& table.local_experts()[local] == global
        }),
        forall|j: int|
            i < j < routes.original_route_indices@.len() ==> routes.original_route_indices@[i]
                < #[trigger] routes.original_route_indices@[j],
{
    let positions = owned_positions(ids, table.owners, table.rank, ids.len() as int);
    owned_positions_are_owned(ids, table.owners, table.rank, ids.len() as int);
    positions_ascend(ids, table.owners, table.rank, ids.len() as int);
    let position = positions[i];
    assert(route_valid(ids, table, position));
    assert(position == (position / top_k) * top_k + position % top_k && 0 <= position % top_k
        < top_k) by (nonlinear_arith)
        requires
            0 < top_k,
    ;
    crate::expert_parallel::assignment::assignment_round_trips(table, ids[position] as int, 0);
    assert forall|j: int| i < j < routes.original_route_indices@.len() implies routes.original_route_indices@[i]
        < #[trigger] routes.original_route_indices@[j] by {
        assert(positions[j] == routes.original_route_indices@[j]);
    }
}

/// A token sums each of its own routes once, in route order, and no other route.
pub proof fn tokens_sum_their_own_routes_once(token_indices: Seq<usize>, token: usize, route: usize)
    requires
        token_indices.len() <= usize::MAX,
    ensures
        contributions_to(token_indices, token, token_indices.len() as int).contains(route) <==> (
        route < token_indices.len() && token_indices[route as int] == token),
        forall|i: int, j: int|
            0 <= i < j < contributions_to(token_indices, token, token_indices.len() as int).len()
                ==> contributions_to(token_indices, token, token_indices.len() as int)[i]
                < contributions_to(token_indices, token, token_indices.len() as int)[j],
{
    contribution_is_listed(token_indices, token, token_indices.len() as int, route);
    contributions_ascend(token_indices, token, token_indices.len() as int);
}

proof fn contributions_ascend(token_indices: Seq<usize>, token: usize, count: int)
    requires
        0 <= count <= token_indices.len() <= usize::MAX,
    ensures
        forall|i: int|
            0 <= i < contributions_to(token_indices, token, count).len() ==> (
            #[trigger] contributions_to(token_indices, token, count)[i]) < count,
        forall|i: int, j: int|
            0 <= i < j < contributions_to(token_indices, token, count).len() ==> (
            #[trigger] contributions_to(token_indices, token, count)[i]) < (
            #[trigger] contributions_to(token_indices, token, count)[j]),
    decreases count,
{
    if count > 0 {
        contributions_ascend(token_indices, token, count - 1);
        let before = contributions_to(token_indices, token, count - 1);
        let all = contributions_to(token_indices, token, count);
        assert forall|i: int| 0 <= i < all.len() implies (#[trigger] all[i]) < count by {
            if i < before.len() {
                assert(all[i] == before[i]);
            }
        }
        assert forall|i: int, j: int| 0 <= i < j < all.len() implies (#[trigger] all[i]) < (
        #[trigger] all[j]) by {
            assert(all[i] == before[i]);
            if j < before.len() {
                assert(all[j] == before[j]);
            }
        }
    }
}

/// Local routes of the first `ranks` ranks together, as their compactions count them.
pub open spec fn counted_routes(ids: Seq<i32>, owners: Seq<usize>, ranks: int) -> int
    decreases ranks,
{
    if ranks <= 0 {
        0
    } else {
        counted_routes(ids, owners, ranks - 1) + compaction_statistics(
            ids.len(),
            owned_positions(ids, owners, (ranks - 1) as usize, ids.len() as int).len(),
            0,
        ).local_routes
    }
}

/// The local routes that the ranks of a group count are all routes together: every rank
/// counts the same total, and what it leaves out another rank counts.
pub proof fn ranks_count_every_route_once(ids: Seq<i32>, table: Ownership)
    requires
        table.valid(),
        routes_valid(ids, table),
        ids.len() <= usize::MAX,
    ensures
        counted_routes(ids, table.owners, table.group_size as int) == ids.len(),
        forall|local: nat, time: u128|
            (#[trigger] compaction_statistics(ids.len(), local, time)).total_routes == ids.len(),
{
    counted_below(ids, table, table.group_size as int);
    below_all(ids, table, table.group_size as int, ids.len() as int);
}

/// Routes among the first `count` whose owner is below a rank.
spec fn owned_below(ids: Seq<i32>, owners: Seq<usize>, ranks: int, count: int) -> int
    decreases count,
{
    if count <= 0 {
        0
    } else {
        owned_below(ids, owners, ranks, count - 1) + if owners[ids[count - 1] as int] < ranks {
            1int
        } else {
            0int
        }
    }
}

proof fn counted_below(ids: Seq<i32>, table: Ownership, ranks: int)
    requires
        table.valid(),
        routes_valid(ids, table),
        ids.len() <= usize::MAX,
        0 <= ranks <= table.group_size,
    ensures
        counted_routes(ids, table.owners, ranks) == owned_below(
            ids,
            table.owners,
            ranks,
            ids.len() as int,
        ),
    decreases ranks,
{
    if ranks > 0 {
        counted_below(ids, table, ranks - 1);
        one_rank_more(ids, table, ranks, ids.len() as int);
        owned_count_is_bounded(ids, table.owners, (ranks - 1) as usize, ids.len() as int);
    } else {
        none_below(ids, table.owners, ids.len() as int);
    }
}

proof fn one_rank_more(ids: Seq<i32>, table: Ownership, ranks: int, count: int)
    requires
        0 < ranks <= table.group_size,
        0 <= count,
    ensures
        owned_below(ids, table.owners, ranks, count) == owned_below(
            ids,
            table.owners,
            ranks - 1,
            count,
        ) + owned_positions(ids, table.owners, (ranks - 1) as usize, count).len(),
    decreases count,
{
    if count > 0 {
        one_rank_more(ids, table, ranks, count - 1);
    }
}

proof fn none_below(ids: Seq<i32>, owners: Seq<usize>, count: int)
    requires
        0 <= count,
    ensures
        owned_below(ids, owners, 0, count) == 0,
    decreases count,
{
    if count > 0 {
        none_below(ids, owners, count - 1);
    }
}

proof fn below_all(ids: Seq<i32>, table: Ownership, ranks: int, count: int)
    requires
        table.valid(),
        routes_valid(ids, table),
        ranks == table.group_size,
        0 <= count <= ids.len(),
    ensures
        owned_below(ids, table.owners, ranks, count) == count,
    decreases count,
{
    if count > 0 {
        below_all(ids, table, ranks, count - 1);
        assert(route_valid(ids, table, count - 1));
    }
}

/// Timings of a dispatch are added where they were measured, and counters stay.
pub proof fn timings_are_added_where_they_were_measured(
    statistics: RoutingStatistics,
    timings: DispatchTimings,
    finished: RoutingStatistics,
)
    requires
        statistics.compaction_time + timings.compaction <= u128::MAX,
        statistics.expert_time + timings.expert <= u128::MAX,
        statistics.reduction_time + timings.reduction <= u128::MAX,
        call_ensures(finish_dispatch, (statistics, timings), finished),
    ensures
        finished.compaction_time - statistics.compaction_time == timings.compaction,
        finished.expert_time - statistics.expert_time == timings.expert,
        finished.reduction_time - statistics.reduction_time == timings.reduction,
        finished.total_time == timings.total,
        finished.total_routes == statistics.total_routes,
        finished.local_routes == statistics.local_routes,
        finished.synchronization_count == statistics.synchronization_count,
        finished.synchronization_time == statistics.synchronization_time,
{
}

/// A bank's output is taken exactly where it is a matrix with a row for each local route.
pub proof fn bank_outputs_have_a_row_for_each_route(
    shape: Vec<i32>,
    local_routes: usize,
    checked: Result<(), Error>,
)
    requires
        local_routes <= i32::MAX,
        call_ensures(check_bank_output, (&shape, local_routes), checked),
    ensures
        checked is Ok <==> shape@.len() == 2 && shape@[0] == local_routes,
{
}

/// Every route is summed into the token that it belongs to, and into no other.
pub proof fn routes_are_summed_into_their_token(
    token_indices: Vec<usize>,
    tokens: usize,
    contributions: Vec<Vec<usize>>,
    token: int,
    route: usize,
)
    requires
        token_indices@.len() <= usize::MAX,
        call_ensures(token_contributions, (&token_indices, tokens), contributions),
        0 <= token < tokens,
    ensures
        contributions@.len() == tokens,
        contributions@[token]@.contains(route) <==> route < token_indices@.len()
            && token_indices@[route as int] == token,
{
    let here = contributions@[token];
    tokens_sum_their_own_routes_once(token_indices@, token as usize, route);
}

} // verus!
