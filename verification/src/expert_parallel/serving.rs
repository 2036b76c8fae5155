//! Serving the routes of a rank from its expert cache.

use vstd::prelude::*;

use crate::expert_cache::acquire::{ExpertCache, RoutePlan};
use crate::expert_cache::catalog::{ExpertIdentity, OwnedExpert};
use crate::expert_cache::error::{ExpertCacheError, ExpertCacheFailure};
use crate::expert_parallel::assignment::Ownership;
use crate::expert_parallel::routes::DispatchedRoutes;

verus! {

/// Global expert ids as an expert cache takes them.
pub open spec fn as_routes(ids: Seq<usize>) -> Seq<i32> {
    ids.map_values(|id: usize| id as i32)
}

/// Plans the acquisition of the experts that the compacted routes of a layer lead to.
pub fn plan_cached_routes<M, R, W>(
    cache: &ExpertCache<M>,
    layer: usize,
    routes: &DispatchedRoutes<R, W>,
) -> (outcome: Result<RoutePlan, ExpertCacheError>)
    requires
        cache.wf(),
        routes.global_expert_ids@.len() <= i32::MAX,
        forall|i: int|
            0 <= i < routes.global_expert_ids@.len() ==> #[trigger] routes.global_expert_ids@[i]
                <= i32::MAX,
    ensures
        crate::expert_cache::error::refused(outcome)
            == crate::expert_cache::acquire::routes_failure(
            cache.catalog@,
            cache.scratch_limit,
            layer,
            as_routes(routes.global_expert_ids@),
            seq![routes.global_expert_ids@.len() as i32],
        ),
        outcome matches Ok(plan) ==> plan.plans(
            cache.catalog@,
            layer,
            as_routes(routes.global_expert_ids@),
            seq![routes.global_expert_ids@.len() as i32],
        ) && plan.coalesced(),
{
    let mut ids: Vec<i32> = Vec::new();
    let mut index: usize = 0;
    while index < routes.global_expert_ids.len()
        invariant
            index <= routes.global_expert_ids@.len(),
            ids@ == as_routes(routes.global_expert_ids@.take(index as int)),
            forall|i: int|
                0 <= i < routes.global_expert_ids@.len()
                    ==> #[trigger] routes.global_expert_ids@[i] <= i32::MAX,
        decreases routes.global_expert_ids@.len() - index,
    {
        ids.push(routes.global_expert_ids[index] as i32);
        assert(ids@ =~= as_routes(routes.global_expert_ids@.take(index + 1)));
        index = index + 1;
    }
    assert(routes.global_expert_ids@.take(index as int) =~= routes.global_expert_ids@);
    let mut shape: Vec<i32> = Vec::new();
    shape.push(routes.global_expert_ids.len() as i32);
    assert(shape@ =~= seq![routes.global_expert_ids@.len() as i32]);
    cache.plan_routes(layer, ids.as_slice(), &shape)
}

/// Whether a catalog holds every expert of a layer that a rank owns.
pub open spec fn holds_owned_experts(
    catalog: Seq<OwnedExpert>,
    layer: usize,
    table: Ownership,
) -> bool {
    forall|global: int|
        0 <= global < table.owners.len() && #[trigger] table.owners[global] == table.rank
            ==> crate::expert_cache::catalog::owns(
            catalog,
            (ExpertIdentity { layer, global_expert: global as usize }),
        )
}

/// A cache that holds the experts of its rank serves every route that compaction leaves
/// to the rank: of valid routes none is refused as invalid or not owned, and only the
/// scratch limit can stand in the way.
pub proof fn owned_routes_are_served<R, W>(
    catalog: Seq<OwnedExpert>,
    scratch_limit: u64,
    layer: usize,
    table: Ownership,
    ids: Seq<i32>,
    routes: DispatchedRoutes<R, W>,
    hidden: Seq<R>,
    weights: Seq<W>,
    top_k: int,
)
    requires
        holds_owned_experts(catalog, layer, table),
        crate::expert_cache::acquire::owned_in_layer(catalog, layer) > 0,
        crate::expert_parallel::routes::routes_valid(ids, table),
        crate::expert_parallel::routes::holds_routes(
            routes,
            hidden,
            ids,
            weights,
            top_k,
            table,
            crate::expert_parallel::routes::owned_positions(
                ids,
                table.owners,
                table.rank,
                ids.len() as int,
            ),
        ),
        routes.global_expert_ids@.len() <= i32::MAX,
    ensures
        match crate::expert_cache::acquire::routes_failure(
            catalog,
            scratch_limit,
            layer,
            as_routes(routes.global_expert_ids@),
            seq![routes.global_expert_ids@.len() as i32],
        ) {
            None => true,
            Some(ExpertCacheFailure::ByteOverflow) => true,
            Some(ExpertCacheFailure::ScratchLimitExceeded(_, _, _)) => true,
            Some(_) => false,
        },
{
    let count = routes.global_expert_ids@.len();
    let shape = seq![count as i32];
    assert(shape.drop_last() =~= Seq::empty());
    assert(crate::array::elements(Seq::<i32>::empty()) == 1);
    assert(crate::array::elements(shape) == count);
    assert(crate::array::elements_fit(Seq::<i32>::empty(), usize::MAX as int));
    crate::expert_parallel::routes::owned_positions_are_owned(
        ids,
        table.owners,
        table.rank,
        ids.len() as int,
    );
    no_route_fails(catalog, layer, table, ids, routes, hidden, weights, top_k, 0);
}

proof fn no_route_fails<R, W>(
    catalog: Seq<OwnedExpert>,
    layer: usize,
    table: Ownership,
    ids: Seq<i32>,
    routes: DispatchedRoutes<R, W>,
    hidden: Seq<R>,
    weights: Seq<W>,
    top_k: int,
    from: int,
)
    requires
        holds_owned_experts(catalog, layer, table),
        crate::expert_parallel::routes::routes_valid(ids, table),
        crate::expert_parallel::routes::holds_routes(
            routes,
            hidden,
            ids,
            weights,
            top_k,
            table,
            crate::expert_parallel::routes::owned_positions(
                ids,
                table.owners,
                table.rank,
                ids.len() as int,
            ),
        ),
        0 <= from <= routes.global_expert_ids@.len(),
    ensures
        crate::expert_cache::acquire::route_failure(
            catalog,
            layer,
            as_routes(routes.global_expert_ids@),
            from,
        ) is None,
    decreases routes.global_expert_ids@.len() - from,
{
    if from < routes.global_expert_ids@.len() {
        no_route_fails(catalog, layer, table, ids, routes, hidden, weights, top_k, from + 1);
        crate::expert_parallel::routes::owned_positions_are_owned(
            ids,
            table.owners,
            table.rank,
            ids.len() as int,
        );
        let positions = crate::expert_parallel::routes::owned_positions(
            ids,
            table.owners,
            table.rank,
            ids.len() as int,
        );
        let position = positions[from];
        assert(crate::expert_parallel::routes::route_valid(ids, table, position));
        let global = ids[position] as int;
        assert(table.owners[global] == table.rank);
        assert(as_routes(routes.global_expert_ids@)[from] == ids[position]);
    }
}

} // verus!
