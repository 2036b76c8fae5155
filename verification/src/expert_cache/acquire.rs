//! Coalescing of routes and acquisition of the experts that they need.

use vstd::prelude::*;
use vstd::string::StringExecFns;

use crate::array::Dtype;
use crate::cache_residency::append::copy_shape;
use crate::duration::combine;
use crate::expert_cache::catalog::{ExpertCacheLoadOptions, ExpertIdentity, ExpertPass, OwnedExpert};
use crate::expert_cache::error::{ExpertCacheError, ExpertCacheFailure};
use crate::expert_cache::report::{
    count_evicted, count_resident, ExpertCacheReport, ExpertPassStatistics, ResidencyReport,
};
use crate::offload::MemoryTier;

verus! {

/// Shared sparse expert catalog, residency manager, and telemetry.
#[derive(Debug)]
pub struct ExpertCache<M> {
    /// Residency manager of the expert units.
    pub manager: M,
    /// Owned experts in order.
    pub catalog: Vec<OwnedExpert>,
    /// Host budget of the expert units.
    pub host_budget: Option<u64>,
    /// Largest temporary compact bank.
    pub scratch_limit: u64,
    /// Prompt-processing statistics.
    pub prefill: ExpertPassStatistics,
    /// Autoregressive decode statistics.
    pub decode: ExpertPassStatistics,
}

impl<M> ExpertCache<M> {
    /// Owned experts are in strict order, and the counters of either pass agree with one
    /// another.
    pub open spec fn wf(self) -> bool {
        &&& crate::expert_cache::catalog::experts_ordered(self.catalog@)
        &&& self.prefill.adds_up()
        &&& self.decode.adds_up()
    }

    /// Statistics of one execution-path class.
    pub open spec fn pass_statistics(self, pass: ExpertPass) -> ExpertPassStatistics {
        match pass {
            ExpertPass::Prefill => self.prefill,
            ExpertPass::Decode => self.decode,
        }
    }

    /// The cache with other statistics of one execution-path class.
    pub open spec fn with_pass(self, pass: ExpertPass, statistics: ExpertPassStatistics) -> Self {
        match pass {
            ExpertPass::Prefill => ExpertCache { prefill: statistics, ..self },
            ExpertPass::Decode => ExpertCache { decode: statistics, ..self },
        }
    }
}

/// How often routes name an expert.
pub open spec fn demand_of(ids: Seq<i32>, expert: int) -> int
    decreases ids.len(),
{
    if ids.len() == 0 {
        0
    } else {
        demand_of(ids.drop_last(), expert) + if ids.last() == expert {
            1int
        } else {
            0int
        }
    }
}

/// Owned experts of a layer.
pub open spec fn owned_in_layer(catalog: Seq<OwnedExpert>, layer: usize) -> int
    decreases catalog.len(),
{
    if catalog.len() == 0 {
        0
    } else {
        owned_in_layer(catalog.drop_last(), layer) + if catalog.last().identity.layer == layer {
            1int
        } else {
            0int
        }
    }
}

/// Owned experts of a layer that routes name, in order.
pub open spec fn selected(catalog: Seq<OwnedExpert>, layer: usize, ids: Seq<i32>) -> Seq<OwnedExpert>
    decreases catalog.len(),
{
    if catalog.len() == 0 {
        Seq::empty()
    } else {
        let before = selected(catalog.drop_last(), layer, ids);
        let expert = catalog.last();
        if expert.identity.layer == layer && demand_of(ids, expert.identity.global_expert as int)
            > 0 {
            before.push(expert)
        } else {
            before
        }
    }
}

/// Bytes of experts together.
pub open spec fn expert_bytes(experts: Seq<OwnedExpert>) -> int
    decreases experts.len(),
{
    if experts.len() == 0 {
        0
    } else {
        expert_bytes(experts.drop_last()) + experts.last().bytes
    }
}

/// Why the first route that fails does, from a position on.
pub open spec fn route_failure(
    catalog: Seq<OwnedExpert>,
    layer: usize,
    ids: Seq<i32>,
    from: int,
) -> Option<ExpertCacheFailure>
    decreases ids.len() - from,
{
    if from >= ids.len() {
        None
    } else if ids[from] < 0 {
        Some(
            ExpertCacheFailure::InvalidExpertId(
                layer,
                ids[from] as i64,
                owned_in_layer(catalog, layer) as usize,
            ),
        )
    } else {
        let identity = ExpertIdentity { layer, global_expert: ids[from] as usize };
        if !crate::expert_cache::catalog::owns(catalog, identity) {
            Some(ExpertCacheFailure::MissingOwnedExpert(identity))
        } else {
            route_failure(catalog, layer, ids, from + 1)
        }
    }
}

/// Whether a shape has a negative dimension.
pub open spec fn has_negative(shape: Seq<i32>) -> bool {
    exists|i: int| 0 <= i < shape.len() && #[trigger] shape[i] < 0
}

/// Why routes cannot be acquired, if they cannot.
pub open spec fn routes_failure(
    catalog: Seq<OwnedExpert>,
    scratch_limit: u64,
    layer: usize,
    ids: Seq<i32>,
    shape: Seq<i32>,
) -> Option<ExpertCacheFailure> {
    let experts = selected(catalog, layer, ids);
    let bytes = expert_bytes(experts);
    let route = route_failure(catalog, layer, ids, 0);
    if has_negative(shape) || !crate::array::elements_fit(shape, usize::MAX as int) {
        Some(ExpertCacheFailure::InvalidRouteShape(shape))
    } else if crate::array::elements(shape) != ids.len() {
        Some(ExpertCacheFailure::RouteShapeMismatch(shape, ids.len() as usize))
    } else if owned_in_layer(catalog, layer) == 0 {
        Some(ExpertCacheFailure::UnknownLayer(layer))
    } else if route is Some {
        route
    } else if bytes > u64::MAX {
        Some(ExpertCacheFailure::ByteOverflow)
    } else if bytes > scratch_limit {
        Some(
            ExpertCacheFailure::ScratchLimitExceeded(
                bytes as u64,
                scratch_limit,
                experts.len() as usize,
            ),
        )
    } else {
        None
    }
}

/// A deterministic compact route table.
#[derive(Debug, Clone)]
pub struct RoutePlan {
    /// Layer of the routes.
    pub layer: usize,
    /// Selected experts in compact-bank order.
    pub identities: Vec<ExpertIdentity>,
    /// Duplicate-preserving demand counts in compact-bank order.
    pub demand: Vec<u64>,
    /// Routes rewritten to compact-bank ids.
    pub compact_routes: Vec<i32>,
    /// Shape of the route table.
    pub route_shape: Vec<i32>,
    /// Compact-bank byte count.
    pub scratch_bytes: u64,
}

impl RoutePlan {
    /// Whether the plan is the one for routes of a layer.
    pub open spec fn plans(
        self,
        catalog: Seq<OwnedExpert>,
        layer: usize,
        ids: Seq<i32>,
        shape: Seq<i32>,
    ) -> bool {
        let experts = selected(catalog, layer, ids);
        &&& self.layer == layer
        &&& self.route_shape@ == shape
        &&& self.scratch_bytes == expert_bytes(experts)
        &&& self.identities@.len() == experts.len()
        &&& self.demand@.len() == experts.len()
        &&& forall|i: int|
            #![trigger experts[i]]
            0 <= i < experts.len() ==> self.identities@[i] == experts[i].identity
                && self.demand@[i] == demand_of(ids, experts[i].identity.global_expert as int)
        &&& self.compact_routes@.len() == ids.len()
        &&& forall|r: int|
            #![trigger self.compact_routes@[r]]
            0 <= r < ids.len() ==> {
                let compact = self.compact_routes@[r] as int;
                &&& 0 <= compact < experts.len()
                &&& experts[compact].identity == (ExpertIdentity {
                    layer,
                    global_expert: ids[r] as usize,
                })
            }
    }
}

impl RoutePlan {
    /// Whether there are no more distinct experts than routes.
    pub open spec fn coalesced(self) -> bool {
        self.identities@.len() <= self.compact_routes@.len()
    }
}

/// In a list of ordered experts of one layer an expert's id is at least its position.
proof fn positions_are_small(experts: Seq<OwnedExpert>, layer: usize, at: int)
    requires
        crate::expert_cache::catalog::experts_ordered(experts),
        forall|i: int| 0 <= i < experts.len() ==> (#[trigger] experts[i]).identity.layer == layer,
        0 <= at < experts.len(),
    ensures
        at <= experts[at].identity.global_expert,
    decreases at,
{
    assert(experts[at].identity.layer == layer);
    if at > 0 {
        positions_are_small(experts, layer, at - 1);
        assert(experts[at - 1].identity.layer == layer);
        assert(crate::expert_cache::catalog::expert_before(
            experts[at - 1].identity,
            experts[at].identity,
        ));
    }
}

/// Every selected expert takes a route of its own.
proof fn selected_are_fewer(catalog: Seq<OwnedExpert>, layer: usize, ids: Seq<i32>)
    requires
        crate::expert_cache::catalog::experts_ordered(catalog),
    ensures
        selected(catalog, layer, ids).len() <= ids.len(),
{
    let experts = selected(catalog, layer, ids);
    selected_is_ordered(catalog, layer, ids);
    distinct_demands_are_fewer(experts, layer, ids);
}

proof fn distinct_demands_are_fewer(experts: Seq<OwnedExpert>, layer: usize, ids: Seq<i32>)
    requires
        crate::expert_cache::catalog::experts_ordered(experts),
        forall|i: int|
            0 <= i < experts.len() ==> (#[trigger] experts[i]).identity.layer == layer
                && demand_of(ids, experts[i].identity.global_expert as int) > 0,
    ensures
        experts.len() <= ids.len(),
    decreases ids.len(),
{
    if ids.len() == 0 {
        if experts.len() > 0 {
            assert(demand_of(ids, experts[0].identity.global_expert as int) > 0);
        }
    } else {
        let rest = ids.drop_last();
        let last = ids.last() as int;
        if exists|k: int|
            0 <= k < experts.len() && (#[trigger] experts[k]).identity.global_expert == last {
            let k = choose|k: int|
                0 <= k < experts.len() && (#[trigger] experts[k]).identity.global_expert == last;
            let others = experts.remove(k);
            let source = |i: int|
                if i < k {
                    i
                } else {
                    i + 1
                };
            assert forall|i: int, j: int|
                0 <= i < j < others.len() implies crate::expert_cache::catalog::expert_before(
                (#[trigger] others[i]).identity,
                (#[trigger] others[j]).identity,
            ) by {
                assert(others[i] == experts[source(i)] && others[j] == experts[source(j)]);
            }
            assert forall|i: int| 0 <= i < others.len() implies (
            #[trigger] others[i]).identity.layer == layer && demand_of(
                rest,
                others[i].identity.global_expert as int,
            ) > 0 by {
                assert(others[i] == experts[source(i)]);
                assert(experts[k].identity.layer == layer);
                if source(i) < k {
                    assert(crate::expert_cache::catalog::expert_before(
                        experts[source(i)].identity,
                        experts[k].identity,
                    ));
                } else {
                    assert(crate::expert_cache::catalog::expert_before(
                        experts[k].identity,
                        experts[source(i)].identity,
                    ));
                }
            }
            distinct_demands_are_fewer(others, layer, rest);
        } else {
            assert forall|i: int| 0 <= i < experts.len() implies (
            #[trigger] experts[i]).identity.layer == layer && demand_of(
                rest,
                experts[i].identity.global_expert as int,
            ) > 0 by {
                assert(experts[i].identity.global_expert != last);
            }
            distinct_demands_are_fewer(experts, layer, rest);
        }
    }
}

proof fn layer_count_is_bounded(catalog: Seq<OwnedExpert>, layer: usize)
    ensures
        0 <= owned_in_layer(catalog, layer) <= catalog.len(),
    decreases catalog.len(),
{
    if catalog.len() > 0 {
        layer_count_is_bounded(catalog.drop_last(), layer);
    }
}

proof fn demand_is_bounded(ids: Seq<i32>, expert: int)
    ensures
        0 <= demand_of(ids, expert) <= ids.len(),
    decreases ids.len(),
{
    if ids.len() > 0 {
        demand_is_bounded(ids.drop_last(), expert);
    }
}

proof fn demanded_if_routed(ids: Seq<i32>, route: int)
    requires
        0 <= route < ids.len(),
    ensures
        demand_of(ids, ids[route] as int) > 0,
    decreases ids.len(),
{
    let rest = ids.drop_last();
    if route < ids.len() - 1 {
        assert(rest[route] == ids[route]);
        demanded_if_routed(rest, route);
    } else {
        demand_is_bounded(rest, ids[route] as int);
    }
}

proof fn selected_is_ordered(catalog: Seq<OwnedExpert>, layer: usize, ids: Seq<i32>)
    requires
        crate::expert_cache::catalog::experts_ordered(catalog),
    ensures
        crate::expert_cache::catalog::experts_ordered(selected(catalog, layer, ids)),
        selected(catalog, layer, ids).len() <= catalog.len(),
        forall|i: int|
            0 <= i < selected(catalog, layer, ids).len() ==> {
                let expert = #[trigger] selected(catalog, layer, ids)[i];
                &&& expert.identity.layer == layer
                &&& demand_of(ids, expert.identity.global_expert as int) > 0
                &&& catalog.contains(expert)
            },
    decreases catalog.len(),
{
    if catalog.len() > 0 {
        let rest = catalog.drop_last();
        assert forall|i: int, j: int| 0 <= i < j < rest.len() implies crate::expert_cache::catalog::expert_before(
            (#[trigger] rest[i]).identity,
            (#[trigger] rest[j]).identity,
        ) by {
            assert(rest[i] == catalog[i] && rest[j] == catalog[j]);
        }
        selected_is_ordered(rest, layer, ids);
        let before = selected(rest, layer, ids);
        let all = selected(catalog, layer, ids);
        let last = catalog[catalog.len() - 1];
        assert forall|i: int| 0 <= i < all.len() implies {
            let expert = #[trigger] all[i];
            &&& expert.identity.layer == layer
            &&& demand_of(ids, expert.identity.global_expert as int) > 0
            &&& catalog.contains(expert)
        } by {
            if i < before.len() {
                assert(all[i] == before[i]);
                let j = choose|j: int| 0 <= j < rest.len() && rest[j] == before[i];
                assert(catalog[j] == before[i]);
            } else {
                assert(catalog[catalog.len() - 1] == all[i]);
            }
        }
        assert forall|i: int, j: int| 0 <= i < j < all.len() implies crate::expert_cache::catalog::expert_before(
            (#[trigger] all[i]).identity,
            (#[trigger] all[j]).identity,
        ) by {
            assert(all[i] == before[i]);
            if j < before.len() {
                assert(all[j] == before[j]);
            } else {
                let k = choose|k: int| 0 <= k < rest.len() && rest[k] == before[i];
                assert(catalog[k] == before[i]);
                assert(crate::expert_cache::catalog::expert_before(
                    catalog[k].identity,
                    last.identity,
                ));
            }
        }
    }
}

proof fn routed_is_selected(catalog: Seq<OwnedExpert>, layer: usize, ids: Seq<i32>, expert: usize)
    requires
        demand_of(ids, expert as int) > 0,
        crate::expert_cache::catalog::owns(
            catalog,
            ExpertIdentity { layer, global_expert: expert },
        ),
    ensures
        crate::expert_cache::catalog::owns(
            selected(catalog, layer, ids),
            ExpertIdentity { layer, global_expert: expert },
        ),
    decreases catalog.len(),
{
    let identity = ExpertIdentity { layer, global_expert: expert };
    let i = choose|i: int| 0 <= i < catalog.len() && (#[trigger] catalog[i]).identity == identity;
    let rest = catalog.drop_last();
    let all = selected(catalog, layer, ids);
    let before = selected(rest, layer, ids);
    if i == catalog.len() - 1 {
        assert(all[all.len() - 1].identity == identity);
    } else {
        assert(rest[i].identity == identity);
        routed_is_selected(rest, layer, ids, expert);
        let j = choose|j: int| 0 <= j < before.len() && (#[trigger] before[j]).identity == identity;
        assert(all[j] == before[j]);
    }
}

proof fn routes_are_owned(catalog: Seq<OwnedExpert>, layer: usize, ids: Seq<i32>, from: int)
    requires
        0 <= from,
        route_failure(catalog, layer, ids, from) is None,
    ensures
        forall|r: int|
            from <= r < ids.len() ==> (#[trigger] ids[r]) >= 0
                && crate::expert_cache::catalog::owns(
                catalog,
                ExpertIdentity { layer, global_expert: ids[r] as usize },
            ),
    decreases ids.len() - from,
{
    if from < ids.len() {
        routes_are_owned(catalog, layer, ids, from + 1);
    }
}

fn count_demand(ids: &[i32], expert: usize) -> (demand: u64)
    ensures
        demand == demand_of(ids@, expert as int),
{
    let mut demand: u64 = 0;
    let mut index: usize = 0;
    while index < ids.len()
        invariant
            index <= ids@.len(),
            demand <= index,
            demand == demand_of(ids@.take(index as int), expert as int),
        decreases ids@.len() - index,
    {
        assert(ids@.take(index + 1).drop_last() =~= ids@.take(index as int));
        if ids[index] >= 0 && ids[index] as usize == expert {
            demand = demand + 1;
        }
        index = index + 1;
    }
    assert(ids@.take(index as int) =~= ids@);
    demand
}

/// Checks that a route shape describes a number of values.
fn check_route_shape(shape: &Vec<i32>, elements: usize) -> (outcome: Result<(), ExpertCacheError>)
    ensures
        crate::expert_cache::error::refused(outcome) == (if has_negative(shape@)
            || !crate::array::elements_fit(shape@, usize::MAX as int) {
            Some(ExpertCacheFailure::InvalidRouteShape(shape@))
        } else if crate::array::elements(shape@) != elements {
            Some(ExpertCacheFailure::RouteShapeMismatch(shape@, elements))
        } else {
            None
        }),
{
    let mut count: usize = 1;
    let mut index: usize = 0;
    assert(shape@.take(0) =~= Seq::empty());
    while index < shape.len()
        invariant
            index <= shape@.len(),
            forall|i: int| 0 <= i < index ==> 0 <= #[trigger] shape@[i],
            crate::array::elements_fit(shape@.take(index as int), usize::MAX as int),
            count == crate::array::elements(shape@.take(index as int)),
        decreases shape@.len() - index,
    {
        if shape[index] < 0 {
            assert(shape@[index as int] < 0);
            return Err(ExpertCacheError::InvalidRouteShape(copy_shape(shape)));
        }
        proof {
            assert(shape@.take(index + 1).drop_last() =~= shape@.take(index as int));
            assert(shape@.take(index + 1).last() == shape@[index as int]);
        }
        match count.checked_mul(shape[index] as usize) {
            Some(product) => {
                count = product;
            },
            None => {
                proof {
                    assert(!crate::array::elements_fit(shape@.take(index + 1), usize::MAX as int));
                    if crate::array::elements_fit(shape@, usize::MAX as int) {
                        crate::array::elements_fit_before(shape@, usize::MAX as int, index + 1);
                    }
                }
                return Err(ExpertCacheError::InvalidRouteShape(copy_shape(shape)));
            },
        }
        index = index + 1;
    }
    assert(shape@.take(index as int) =~= shape@);
    if count != elements {
        return Err(ExpertCacheError::RouteShapeMismatch { shape: copy_shape(shape), elements });
    }
    Ok(())
}

/// How a host copy is obtained before a device copy.
#[derive(Debug, Clone, Copy, PartialEq, Eq, Structural)]
pub enum HostStep {
    /// No host copy is touched.
    Skip,
    /// A host copy is acquired; an exhausted host budget is tolerated.
    Try,
    /// A host copy is acquired.
    Require,
}

/// What came of acquiring a copy.
#[derive(Debug, Clone)]
pub enum AcquireOutcome {
    /// The copy is resident.
    Acquired,
    /// A tier's budget is exhausted.
    BudgetExhausted {
        /// The tier.
        tier: MemoryTier,
        /// What the failure says.
        message: String,
    },
    /// Another failure.
    Failed {
        /// What the failure says.
        message: String,
    },
}

/// Copies that were found resident, or not, while experts were acquired.
#[derive(Debug, Clone, Copy, PartialEq, Eq, Structural)]
pub struct AcquisitionCounts {
    /// Host copies that were resident.
    pub host_hits: u64,
    /// Host copies that were not.
    pub host_misses: u64,
    /// Device copies that were resident.
    pub device_hits: u64,
    /// Device copies that were not.
    pub device_misses: u64,
}

impl AcquisitionCounts {
    /// Whether so many experts were observed on either tier.
    pub open spec fn tallies(self, experts: int) -> bool {
        &&& self.host_hits + self.host_misses == experts
        &&& self.device_hits + self.device_misses == experts
    }

    /// The counts after one more expert was observed.
    pub open spec fn observed(self, host_hit: bool, device_hit: bool) -> AcquisitionCounts {
        AcquisitionCounts {
            host_hits: crate::duration::raised(self.host_hits, host_hit as int),
            host_misses: crate::duration::raised(self.host_misses, !host_hit as int),
            device_hits: crate::duration::raised(self.device_hits, device_hit as int),
            device_misses: crate::duration::raised(self.device_misses, !device_hit as int),
        }
    }

    /// Nothing was acquired yet.
    pub fn new() -> (counts: Self)
        ensures
            counts == (AcquisitionCounts {
                host_hits: 0,
                host_misses: 0,
                device_hits: 0,
                device_misses: 0,
            }),
    {
        AcquisitionCounts { host_hits: 0, host_misses: 0, device_hits: 0, device_misses: 0 }
    }

    /// Records whether copies of one expert were resident.
    pub fn observe(&mut self, host_hit: bool, device_hit: bool)
        ensures
            *final(self) == old(self).observed(host_hit, device_hit),
    {
        if host_hit {
            self.host_hits = self.host_hits.saturating_add(1);
        } else {
            self.host_misses = self.host_misses.saturating_add(1);
        }
        if device_hit {
            self.device_hits = self.device_hits.saturating_add(1);
        } else {
            self.device_misses = self.device_misses.saturating_add(1);
        }
    }
}

/// Every observed expert is a hit or a miss of either tier.
pub proof fn observations_add_up(
    counts: AcquisitionCounts,
    experts: int,
    host_hit: bool,
    device_hit: bool,
)
    requires
        counts.tallies(experts),
        experts < u64::MAX,
    ensures
        counts.observed(host_hit, device_hit).tallies(experts + 1),
{
}

/// Checks what came of obtaining a host copy.
pub fn after_host_step(step: HostStep, outcome: &AcquireOutcome) -> (checked: Result<
    (),
    ExpertCacheError,
>)
    ensures
        crate::expert_cache::error::refused(checked) == (match *outcome {
            AcquireOutcome::Acquired => None,
            AcquireOutcome::BudgetExhausted { tier, message } => if step == HostStep::Try && tier
                == MemoryTier::Host {
                None
            } else {
                Some(ExpertCacheFailure::Residency(message@))
            },
            AcquireOutcome::Failed { message } => Some(ExpertCacheFailure::Residency(message@)),
        }),
{
    match outcome {
        AcquireOutcome::Acquired => Ok(()),
        AcquireOutcome::BudgetExhausted { tier, message } => {
            if step == HostStep::Try && *tier == MemoryTier::Host {
                Ok(())
            } else {
                Err(ExpertCacheError::Residency(message.clone()))
            }
        },
        AcquireOutcome::Failed { message } => Err(ExpertCacheError::Residency(message.clone())),
    }
}

/// Checks that route ids have an element type that can hold them.
pub fn check_route_dtype(dtype: Dtype) -> (outcome: Result<(), ExpertCacheError>)
    ensures
        crate::expert_cache::error::refused(outcome) == (if dtype.routable() {
            None
        } else {
            Some(ExpertCacheFailure::InvalidRouteDtype(dtype))
        }),
{
    if dtype.is_routable() {
        Ok(())
    } else {
        Err(ExpertCacheError::InvalidRouteDtype { actual: dtype })
    }
}

/// Whether a manager's budget leaves room for host copies, and so how one is obtained.
pub open spec fn host_step_for(host_budget: Option<u64>, host_hit: bool, device_hit: bool) -> HostStep {
    if !device_hit && host_budget != Some(0u64) {
        HostStep::Try
    } else if host_hit {
        HostStep::Require
    } else {
        HostStep::Skip
    }
}

/// A compact route table and the leases protecting its sources.
#[derive(Debug)]
pub struct AcquiredExperts<L> {
    /// The compact route table.
    pub plan: RoutePlan,
    /// Execution-path classification used for telemetry.
    pub pass: ExpertPass,
    /// Source leases in compact-bank order.
    pub leases: Vec<L>,
}

/// Statistics after routes were acquired.
pub open spec fn pass_after_acquisition(
    before: ExpertPassStatistics,
    routes: u64,
    distinct: u64,
    counts: AcquisitionCounts,
    host_evicted: (u64, u64),
    device_evicted: (u64, u64),
    wait: u128,
) -> ExpertPassStatistics {
    ExpertPassStatistics {
        requested_routes: crate::duration::raised(before.requested_routes, routes as int),
        distinct_experts: crate::duration::raised(before.distinct_experts, distinct as int),
        coalesced_duplicates: crate::duration::raised(
            before.coalesced_duplicates,
            if routes > distinct {
                routes - distinct
            } else {
                0
            },
        ),
        materialization_wait: crate::duration::combined(before.materialization_wait, wait),
        host: before.host.with(
            distinct,
            counts.host_hits,
            counts.host_misses,
            host_evicted.0,
            host_evicted.1,
        ),
        device: before.device.with(
            distinct,
            counts.device_hits,
            counts.device_misses,
            device_evicted.0,
            device_evicted.1,
        ),
        ..before
    }
}

impl<M> ExpertCache<M> {
    /// Creates a cache over cataloged experts.
    pub fn new(catalog: Vec<OwnedExpert>, options: &ExpertCacheLoadOptions, manager: M) -> (cache:
        Self)
        ensures
            cache.manager == manager,
            cache.catalog == catalog,
            cache.host_budget == options.experts.host_budget_bytes,
            cache.scratch_limit == options.compact_bank_scratch_bytes,
            cache.prefill == ExpertPassStatistics::zero(),
            cache.decode == ExpertPassStatistics::zero(),
            crate::expert_cache::catalog::experts_ordered(catalog@) ==> cache.wf(),
    {
        ExpertCache {
            manager,
            catalog,
            host_budget: options.experts.host_budget_bytes,
            scratch_limit: options.compact_bank_scratch_bytes,
            prefill: ExpertPassStatistics::default(),
            decode: ExpertPassStatistics::default(),
        }
    }

    /// Returns the underlying reusable residency manager.
    pub fn residency_manager(&self) -> (manager: &M)
        ensures
            *manager == self.manager,
    {
        &self.manager
    }

    fn layer_experts(&self, layer: usize) -> (count: usize)
        ensures
            count == owned_in_layer(self.catalog@, layer),
    {
        let mut count: usize = 0;
        let mut index: usize = 0;
        while index < self.catalog.len()
            invariant
                index <= self.catalog@.len(),
                count <= index,
                count == owned_in_layer(self.catalog@.take(index as int), layer),
            decreases self.catalog@.len() - index,
        {
            assert(self.catalog@.take(index + 1).drop_last() =~= self.catalog@.take(index as int));
            if self.catalog[index].identity.layer == layer {
                count = count + 1;
            }
            index = index + 1;
        }
        assert(self.catalog@.take(index as int) =~= self.catalog@);
        count
    }

    fn owns_expert(&self, identity: &ExpertIdentity) -> (owned: bool)
        ensures
            owned == crate::expert_cache::catalog::owns(self.catalog@, *identity),
    {
        let mut index: usize = 0;
        while index < self.catalog.len()
            invariant
                index <= self.catalog@.len(),
                forall|i: int|
                    0 <= i < index ==> (#[trigger] self.catalog@[i]).identity != *identity,
            decreases self.catalog@.len() - index,
        {
            if self.catalog[index].identity == *identity {
                assert(self.catalog@[index as int].identity == *identity);
                return true;
            }
            index = index + 1;
        }
        false
    }

    fn check_routes(&self, layer: usize, ids: &[i32]) -> (outcome: Result<(), ExpertCacheError>)
        ensures
            crate::expert_cache::error::refused(outcome) == (if owned_in_layer(self.catalog@, layer)
                == 0 {
                Some(ExpertCacheFailure::UnknownLayer(layer))
            } else {
                route_failure(self.catalog@, layer, ids@, 0)
            }),
    {
        let layer_count: usize = self.layer_experts(layer);
        if layer_count == 0 {
            return Err(ExpertCacheError::UnknownLayer { layer });
        }
        let mut index: usize = 0;
        while index < ids.len()
            invariant
                index <= ids@.len(),
                layer_count == owned_in_layer(self.catalog@, layer),
                layer_count != 0,
                route_failure(self.catalog@, layer, ids@, 0) == route_failure(
                    self.catalog@,
                    layer,
                    ids@,
                    index as int,
                ),
            decreases ids@.len() - index,
        {
            let id: i32 = ids[index];
            if id < 0 {
                return Err(
                    ExpertCacheError::InvalidExpertId {
                        layer,
                        expert: id as i64,
                        known_owned_experts: layer_count,
                    },
                );
            }
            let identity = ExpertIdentity::new(layer, id as usize);
            if !self.owns_expert(&identity) {
                return Err(ExpertCacheError::MissingOwnedExpert { identity });
            }
            index = index + 1;
        }
        Ok(())
    }

    /// Validates and coalesces a route table. Nothing is loaded before this succeeds.
    pub fn plan_routes(&self, layer: usize, routed_ids: &[i32], route_shape: &Vec<i32>) -> (outcome:
        Result<RoutePlan, ExpertCacheError>)
        requires
            self.wf(),
        ensures
            crate::expert_cache::error::refused(outcome) == routes_failure(
                self.catalog@,
                self.scratch_limit,
                layer,
                routed_ids@,
                route_shape@,
            ),
            outcome matches Ok(plan) ==> plan.plans(
                self.catalog@,
                layer,
                routed_ids@,
                route_shape@,
            ) && plan.coalesced(),
    {
        match check_route_shape(route_shape, routed_ids.len()) {
            Ok(_) => {},
            Err(error) => {
                return Err(error);
            },
        }
        match self.check_routes(layer, routed_ids) {
            Ok(_) => {},
            Err(error) => {
                return Err(error);
            },
        }
        let ghost experts = selected(self.catalog@, layer, routed_ids@);
        let mut identities: Vec<ExpertIdentity> = Vec::new();
        let mut demand: Vec<u64> = Vec::new();
        let mut scratch: Option<u64> = Some(0);
        let mut index: usize = 0;
        while index < self.catalog.len()
            invariant
                index <= self.catalog@.len(),
                identities@.len() == selected(
                    self.catalog@.take(index as int),
                    layer,
                    routed_ids@,
                ).len(),
                demand@.len() == identities@.len(),
                forall|i: int|
                    #![trigger identities@[i]]
                    0 <= i < identities@.len() ==> {
                        let expert = selected(
                            self.catalog@.take(index as int),
                            layer,
                            routed_ids@,
                        )[i];
                        &&& identities@[i] == expert.identity
                        &&& demand@[i] == demand_of(
                            routed_ids@,
                            expert.identity.global_expert as int,
                        )
                    },
                match scratch {
                    Some(bytes) => bytes == expert_bytes(
                        selected(self.catalog@.take(index as int), layer, routed_ids@),
                    ),
                    None => expert_bytes(
                        selected(self.catalog@.take(index as int), layer, routed_ids@),
                    ) > u64::MAX,
                },
            decreases self.catalog@.len() - index,
        {
            let ghost shorter = selected(self.catalog@.take(index as int), layer, routed_ids@);
            let ghost longer = selected(self.catalog@.take(index + 1), layer, routed_ids@);
            assert(self.catalog@.take(index + 1).drop_last() =~= self.catalog@.take(index as int));
            let ghost earlier = identities@;
            let ghost earlier_demand = demand@;
            let expert = self.catalog[index];
            if expert.identity.layer == layer {
                let wanted: u64 = count_demand(routed_ids, expert.identity.global_expert);
                if wanted > 0 {
                    assert(longer == shorter.push(expert));
                    assert(longer.drop_last() =~= shorter);
                    identities.push(expert.identity);
                    demand.push(wanted);
                    scratch = match scratch {
                        Some(bytes) => bytes.checked_add(expert.bytes),
                        None => None,
                    };
                }
            }
            proof {
                assert forall|i: int|
                    #![trigger identities@[i]]
                    0 <= i < identities@.len() implies identities@[i] == longer[i].identity
                    && demand@[i] == demand_of(
                    routed_ids@,
                    longer[i].identity.global_expert as int,
                ) by {
                    if i < earlier.len() {
                        assert(identities@[i] == earlier[i]);
                        assert(demand@[i] == earlier_demand[i]);
                        assert(longer[i] == shorter[i]);
                    }
                }
            }
            index = index + 1;
        }
        assert(self.catalog@.take(index as int) =~= self.catalog@);
        let scratch_bytes: u64 = match scratch {
            Some(bytes) => bytes,
            None => {
                return Err(ExpertCacheError::ByteOverflow);
            },
        };
        if scratch_bytes > self.scratch_limit {
            return Err(
                ExpertCacheError::ScratchLimitExceeded {
                    required_bytes: scratch_bytes,
                    limit_bytes: self.scratch_limit,
                    distinct_experts: identities.len(),
                },
            );
        }
        proof {
            selected_is_ordered(self.catalog@, layer, routed_ids@);
            routes_are_owned(self.catalog@, layer, routed_ids@, 0);
        }
        let mut compact_routes: Vec<i32> = Vec::new();
        let mut route: usize = 0;
        while route < routed_ids.len()
            invariant
                route <= routed_ids@.len(),
                experts == selected(self.catalog@, layer, routed_ids@),
                crate::expert_cache::catalog::experts_ordered(experts),
                forall|i: int|
                    0 <= i < experts.len() ==> (#[trigger] experts[i]).identity.layer == layer,
                identities@.len() == experts.len(),
                forall|i: int|
                    #![trigger identities@[i]]
                    0 <= i < identities@.len() ==> identities@[i] == experts[i].identity,
                forall|r: int|
                    0 <= r < routed_ids@.len() ==> (#[trigger] routed_ids@[r]) >= 0
                        && crate::expert_cache::catalog::owns(
                        self.catalog@,
                        ExpertIdentity { layer, global_expert: routed_ids@[r] as usize },
                    ),
                compact_routes@.len() == route,
                forall|r: int|
                    #![trigger compact_routes@[r]]
                    0 <= r < route ==> {
                        let compact = compact_routes@[r] as int;
                        &&& 0 <= compact < experts.len()
                        &&& experts[compact].identity == (ExpertIdentity {
                            layer,
                            global_expert: routed_ids@[r] as usize,
                        })
                    },
            decreases routed_ids@.len() - route,
        {
            let identity = ExpertIdentity::new(layer, routed_ids[route] as usize);
            proof {
                assert(routed_ids@[route as int] >= 0);
                demanded_if_routed(routed_ids@, route as int);
                routed_is_selected(self.catalog@, layer, routed_ids@, identity.global_expert);
            }
            let ghost place = choose|i: int|
                0 <= i < experts.len() && (#[trigger] experts[i]).identity == identity;
            let mut compact: usize = 0;
            while compact < identities.len() && identities[compact] != identity
                invariant
                    compact <= identities@.len(),
                    identities@.len() == experts.len(),
                    0 <= place < experts.len(),
                    identities@[place] == identity,
                    compact <= place,
                decreases identities@.len() - compact,
            {
                compact = compact + 1;
            }
            proof {
                positions_are_small(experts, layer, compact as int);
            }
            compact_routes.push(compact as i32);
            route = route + 1;
        }
        proof {
            selected_are_fewer(self.catalog@, layer, routed_ids@);
        }
        Ok(
            RoutePlan {
                layer,
                identities,
                demand,
                compact_routes,
                route_shape: copy_shape(route_shape),
                scratch_bytes,
            },
        )
    }

    /// Answers how a host copy is obtained before a device copy.
    pub fn host_step(&self, host_hit: bool, device_hit: bool) -> (step: HostStep)
        ensures
            step == host_step_for(self.host_budget, host_hit, device_hit),
    {
        let disabled = match self.host_budget {
            Some(budget) => budget == 0,
            None => false,
        };
        if !device_hit && !disabled {
            HostStep::Try
        } else if host_hit {
            HostStep::Require
        } else {
            HostStep::Skip
        }
    }

    /// Records an acquisition and hands out its compact route table with the leases. The
    /// counts are those of the planned experts.
    pub fn finish_acquisition<L>(
        &mut self,
        plan: RoutePlan,
        pass: ExpertPass,
        leases: Vec<L>,
        counts: AcquisitionCounts,
        before: &ResidencyReport,
        after: &ResidencyReport,
        wait: u128,
    ) -> (acquired: AcquiredExperts<L>)
        requires
            old(self).wf(),
            plan.coalesced(),
            counts.tallies(plan.identities@.len() as int),
        ensures
            final(self).wf(),
            acquired.plan == plan,
            acquired.pass == pass,
            acquired.leases == leases,
            *final(self) == old(self).with_pass(
                pass,
                pass_after_acquisition(
                    old(self).pass_statistics(pass),
                    plan.compact_routes@.len() as u64,
                    plan.identities@.len() as u64,
                    counts,
                    crate::expert_cache::report::evicted(before.units@, after.units@, true),
                    crate::expert_cache::report::evicted(before.units@, after.units@, false),
                    wait,
                ),
            ),
    {
        let host = count_evicted(&before.units, &after.units, true);
        let device = count_evicted(&before.units, &after.units, false);
        let routes: u64 = plan.compact_routes.len() as u64;
        let distinct: u64 = plan.identities.len() as u64;
        let mut statistics = match pass {
            ExpertPass::Prefill => self.prefill,
            ExpertPass::Decode => self.decode,
        };
        statistics.requested_routes = statistics.requested_routes.saturating_add(routes);
        statistics.distinct_experts = statistics.distinct_experts.saturating_add(distinct);
        statistics.coalesced_duplicates = statistics.coalesced_duplicates.saturating_add(
            routes.saturating_sub(distinct),
        );
        statistics.materialization_wait = combine(statistics.materialization_wait, wait);
        statistics.host.record(distinct, counts.host_hits, counts.host_misses, host.0, host.1);
        statistics.device.record(
            distinct,
            counts.device_hits,
            counts.device_misses,
            device.0,
            device.1,
        );
        match pass {
            ExpertPass::Prefill => {
                self.prefill = statistics;
            },
            ExpertPass::Decode => {
                self.decode = statistics;
            },
        }
        AcquiredExperts { plan, pass, leases }
    }

    /// Records a completed compact-bank construction.
    pub fn record_compact_bank(&mut self, pass: ExpertPass, bytes: u64, duration: u128) -> (outcome:
        Result<(), ExpertCacheError>)
        requires
            old(self).wf(),
        ensures
            final(self).wf(),
            crate::expert_cache::error::refused(outcome) == (if bytes > old(self).scratch_limit {
                Some(
                    ExpertCacheFailure::ScratchLimitExceeded(bytes, old(self).scratch_limit, 0),
                )
            } else {
                None
            }),
            outcome is Err ==> *final(self) == *old(self),
            outcome is Ok ==> *final(self) == ({
                let before = old(self).pass_statistics(pass);
                old(self).with_pass(
                    pass,
                    ExpertPassStatistics {
                        compact_banks: crate::duration::raised(before.compact_banks, 1),
                        compact_bank_bytes: crate::duration::raised(
                            before.compact_bank_bytes,
                            bytes as int,
                        ),
                        peak_compact_bank_bytes: if bytes > before.peak_compact_bank_bytes {
                            bytes
                        } else {
                            before.peak_compact_bank_bytes
                        },
                        compact_bank_time: crate::duration::combined(
                            before.compact_bank_time,
                            duration,
                        ),
                        ..before
                    },
                )
            }),
    {
        if bytes > self.scratch_limit {
            return Err(
                ExpertCacheError::ScratchLimitExceeded {
                    required_bytes: bytes,
                    limit_bytes: self.scratch_limit,
                    distinct_experts: 0,
                },
            );
        }
        let mut statistics = match pass {
            ExpertPass::Prefill => self.prefill,
            ExpertPass::Decode => self.decode,
        };
        statistics.compact_banks = statistics.compact_banks.saturating_add(1);
        statistics.compact_bank_bytes = statistics.compact_bank_bytes.saturating_add(bytes);
        if bytes > statistics.peak_compact_bank_bytes {
            statistics.peak_compact_bank_bytes = bytes;
        }
        statistics.compact_bank_time = combine(statistics.compact_bank_time, duration);
        match pass {
            ExpertPass::Prefill => {
                self.prefill = statistics;
            },
            ExpertPass::Decode => {
                self.decode = statistics;
            },
        }
        Ok(())
    }

    /// Returns current expert residency and pass statistics.
    pub fn report(&self, residency: ResidencyReport) -> (report: ExpertCacheReport)
        requires
            self.wf(),
            expert_bytes(self.catalog@) <= u64::MAX,
        ensures
            report.prefill.adds_up(),
            report.decode.adds_up(),
            report.owned_experts == self.catalog@.len(),
            report.owned_bytes == expert_bytes(self.catalog@),
            report.host_resident_experts == crate::expert_cache::report::resident_units(
                residency.units@,
                true,
            ),
            report.device_resident_experts == crate::expert_cache::report::resident_units(
                residency.units@,
                false,
            ),
            report.host_resident_bytes == crate::expert_cache::report::resident_bytes(
                residency.units@,
                true,
            ),
            report.device_resident_bytes == crate::expert_cache::report::resident_bytes(
                residency.units@,
                false,
            ),
            report.peak_host_resident_bytes == residency.peak_host_bytes,
            report.peak_device_resident_bytes == residency.peak_device_bytes,
            report.prefill == self.prefill,
            report.decode == self.decode,
            report.residency == residency,
    {
        let host = count_resident(&residency.units, true);
        let device = count_resident(&residency.units, false);
        let mut owned_bytes: u64 = 0;
        let mut index: usize = 0;
        while index < self.catalog.len()
            invariant
                index <= self.catalog@.len(),
                expert_bytes(self.catalog@) <= u64::MAX,
                owned_bytes == expert_bytes(self.catalog@.take(index as int)),
            decreases self.catalog@.len() - index,
        {
            proof {
                assert(self.catalog@.take(index + 1).drop_last() =~= self.catalog@.take(
                    index as int,
                ));
                bytes_grow(self.catalog@, index + 1);
            }
            owned_bytes = owned_bytes + self.catalog[index].bytes;
            index = index + 1;
        }
        assert(self.catalog@.take(index as int) =~= self.catalog@);
        ExpertCacheReport {
            owned_experts: self.catalog.len(),
            owned_bytes,
            host_resident_experts: host.0,
            device_resident_experts: device.0,
            host_resident_bytes: host.1,
            device_resident_bytes: device.1,
            peak_host_resident_bytes: residency.peak_host_bytes,
            peak_device_resident_bytes: residency.peak_device_bytes,
            prefill: self.prefill,
            decode: self.decode,
            residency,
        }
    }
}

proof fn bytes_grow(experts: Seq<OwnedExpert>, length: int)
    requires
        0 <= length <= experts.len(),
    ensures
        0 <= expert_bytes(experts.take(length)) <= expert_bytes(experts),
    decreases experts.len(),
{
    if length == experts.len() {
        assert(experts.take(length) =~= experts);
        if experts.len() > 0 {
            assert(experts.drop_last().take(length - 1) =~= experts.drop_last());
            bytes_grow(experts.drop_last(), length - 1);
        }
    } else {
        assert(experts.drop_last().take(length) =~= experts.take(length));
        bytes_grow(experts.drop_last(), length);
    }
}

impl<L> AcquiredExperts<L> {
    /// Returns selected experts in compact-bank order.
    pub fn identities(&self) -> (identities: &Vec<ExpertIdentity>)
        ensures
            *identities == self.plan.identities,
    {
        &self.plan.identities
    }

    /// Returns duplicate-preserving demand counts in compact-bank order.
    pub fn demand(&self) -> (demand: &Vec<u64>)
        ensures
            *demand == self.plan.demand,
    {
        &self.plan.demand
    }

    /// Returns routes rewritten bijectively to compact-bank ids.
    pub fn compact_routes(&self) -> (routes: &Vec<i32>)
        ensures
            *routes == self.plan.compact_routes,
    {
        &self.plan.compact_routes
    }

    /// Returns the conservatively reserved compact-bank byte count.
    pub fn scratch_bytes(&self) -> (bytes: u64)
        ensures
            bytes == self.plan.scratch_bytes,
    {
        self.plan.scratch_bytes
    }

    /// Returns the execution-path classification used for telemetry.
    pub fn pass(&self) -> (pass: ExpertPass)
        ensures
            pass == self.pass,
    {
        self.pass
    }

    /// Returns source leases in the same order as [`Self::identities`].
    pub fn leases(&self) -> (leases: &Vec<L>)
        ensures
            *leases == self.leases,
    {
        &self.leases
    }

    /// Returns whether no routed experts were selected.
    pub fn is_empty(&self) -> (empty: bool)
        ensures
            empty == (self.plan.identities@.len() == 0),
    {
        self.plan.identities.len() == 0
    }

    /// Checks that a required per-expert binding has sources to concatenate.
    pub fn compact_binding(&self, name: &str) -> (outcome: Result<(), ExpertCacheError>)
        ensures
            crate::expert_cache::error::refused(outcome) == (if self.leases@.len() == 0 {
                Some(ExpertCacheFailure::EmptyCompactBinding(name@))
            } else {
                None
            }),
    {
        if self.leases.len() == 0 {
            return Err(ExpertCacheError::EmptyCompactBinding { name: name.to_owned() });
        }
        Ok(())
    }

    /// Answers whether an optional companion binding is concatenated: when every expert
    /// provides it. `present` says so for each lease.
    pub fn optional_compact_binding(&self, name: &str, present: &Vec<bool>) -> (outcome: Result<
        bool,
        ExpertCacheError,
    >)
        requires
            present@.len() == self.leases@.len(),
        ensures
            crate::expert_cache::error::refused(outcome) == (if present@.contains(true)
                && present@.contains(false) {
                Some(ExpertCacheFailure::InconsistentCompanion(name@))
            } else {
                None
            }),
            outcome matches Ok(provided) ==> provided == present@.contains(true),
    {
        let mut some: bool = false;
        let mut missing: bool = false;
        let mut index: usize = 0;
        while index < present.len()
            invariant
                index <= present@.len(),
                some == present@.take(index as int).contains(true),
                missing == present@.take(index as int).contains(false),
            decreases present@.len() - index,
        {
            let ghost shorter = present@.take(index as int);
            let ghost longer = present@.take(index + 1);
            proof {
                assert(longer =~= shorter.push(present@[index as int]));
                vstd::seq_lib::lemma_seq_contains_after_push(
                    shorter,
                    present@[index as int],
                    true,
                );
                vstd::seq_lib::lemma_seq_contains_after_push(
                    shorter,
                    present@[index as int],
                    false,
                );
            }
            if present[index] {
                some = true;
            } else {
                missing = true;
            }
            index = index + 1;
        }
        assert(present@.take(index as int) =~= present@);
        if some && missing {
            return Err(ExpertCacheError::InconsistentCompanion { name: name.to_owned() });
        }
        Ok(some)
    }
}

/// Demand of selected experts together.
pub open spec fn total_demand(experts: Seq<OwnedExpert>, ids: Seq<i32>) -> int
    decreases experts.len(),
{
    if experts.len() == 0 {
        0
    } else {
        total_demand(experts.drop_last(), ids) + demand_of(
            ids,
            experts.last().identity.global_expert as int,
        )
    }
}

/// Coalescing loses nothing: the compact bank lists its experts in ascending order,
/// each once and each named by some route, and every route leads to the expert that it
/// named.
pub proof fn coalescing_is_lossless(
    plan: RoutePlan,
    catalog: Seq<OwnedExpert>,
    layer: usize,
    ids: Seq<i32>,
    shape: Seq<i32>,
)
    requires
        crate::expert_cache::catalog::experts_ordered(catalog),
        plan.plans(catalog, layer, ids, shape),
    ensures
        forall|i: int, j: int|
            0 <= i < j < plan.identities@.len() ==> (#[trigger] plan.identities@[i]).global_expert
                < (#[trigger] plan.identities@[j]).global_expert,
        forall|i: int|
            0 <= i < plan.demand@.len() ==> (#[trigger] plan.demand@[i]) > 0,
        forall|r: int|
            0 <= r < ids.len() ==> plan.identities@[(#[trigger] plan.compact_routes@[r]) as int]
                == (ExpertIdentity { layer, global_expert: ids[r] as usize }),
{
    selected_is_ordered(catalog, layer, ids);
    let experts = selected(catalog, layer, ids);
    assert forall|i: int, j: int| 0 <= i < j < plan.identities@.len() implies (
    #[trigger] plan.identities@[i]).global_expert < (
    #[trigger] plan.identities@[j]).global_expert by {
        assert(crate::expert_cache::catalog::expert_before(
            experts[i].identity,
            experts[j].identity,
        ));
        assert(experts[i].identity.layer == layer && experts[j].identity.layer == layer);
    }
    assert forall|i: int| 0 <= i < plan.demand@.len() implies (#[trigger] plan.demand@[i]) > 0 by {
        assert(demand_of(ids, experts[i].identity.global_expert as int) > 0);
    }
    assert forall|r: int| 0 <= r < ids.len() implies plan.identities@[(
    #[trigger] plan.compact_routes@[r]) as int] == (ExpertIdentity {
        layer,
        global_expert: ids[r] as usize,
    }) by {
        let compact = plan.compact_routes@[r] as int;
        assert(experts[compact].identity == plan.identities@[compact]);
    }
}

/// Duplicate routes are counted, not dropped: the demand of the selected experts adds
/// up to the number of routes.
pub proof fn demand_counts_every_route(catalog: Seq<OwnedExpert>, layer: usize, ids: Seq<i32>)
    requires
        crate::expert_cache::catalog::experts_ordered(catalog),
        route_failure(catalog, layer, ids, 0) is None,
    ensures
        total_demand(selected(catalog, layer, ids), ids) == ids.len(),
{
    routes_are_owned(catalog, layer, ids, 0);
    selected_is_ordered(catalog, layer, ids);
    assert forall|r: int| 0 <= r < ids.len() implies crate::expert_cache::catalog::owns(
        selected(catalog, layer, ids),
        ExpertIdentity { layer, global_expert: #[trigger] ids[r] as usize },
    ) && ids[r] >= 0 by {
        demanded_if_routed(ids, r);
        routed_is_selected(catalog, layer, ids, ids[r] as usize);
    }
    demand_splits(selected(catalog, layer, ids), layer, ids);
}

proof fn demand_splits(experts: Seq<OwnedExpert>, layer: usize, ids: Seq<i32>)
    requires
        crate::expert_cache::catalog::experts_ordered(experts),
        forall|i: int| 0 <= i < experts.len() ==> (#[trigger] experts[i]).identity.layer == layer,
        forall|r: int|
            0 <= r < ids.len() ==> crate::expert_cache::catalog::owns(
                experts,
                ExpertIdentity { layer, global_expert: #[trigger] ids[r] as usize },
            ) && ids[r] >= 0,
    ensures
        total_demand(experts, ids) == ids.len(),
    decreases ids.len(),
{
    if ids.len() == 0 {
        no_demand(experts, ids);
    } else {
        let rest = ids.drop_last();
        assert forall|r: int| 0 <= r < rest.len() implies crate::expert_cache::catalog::owns(
            experts,
            ExpertIdentity { layer, global_expert: #[trigger] rest[r] as usize },
        ) && rest[r] >= 0 by {
            assert(rest[r] == ids[r]);
        }
        demand_splits(experts, layer, rest);
        let last = ids[ids.len() - 1];
        let identity = ExpertIdentity { layer, global_expert: last as usize };
        let at = choose|i: int|
            0 <= i < experts.len() && (#[trigger] experts[i]).identity == identity;
        one_more_demand(experts, layer, ids, at);
    }
}

proof fn no_demand(experts: Seq<OwnedExpert>, ids: Seq<i32>)
    requires
        ids.len() == 0,
    ensures
        total_demand(experts, ids) == 0,
    decreases experts.len(),
{
    if experts.len() > 0 {
        no_demand(experts.drop_last(), ids);
    }
}

proof fn one_more_demand(experts: Seq<OwnedExpert>, layer: usize, ids: Seq<i32>, at: int)
    requires
        ids.len() > 0,
        ids.last() >= 0,
        -1 <= at < experts.len(),
        crate::expert_cache::catalog::experts_ordered(experts),
        forall|i: int| 0 <= i < experts.len() ==> (#[trigger] experts[i]).identity.layer == layer,
        forall|i: int|
            0 <= i < experts.len() ==> ((#[trigger] experts[i]).identity.global_expert
                == ids.last() <==> i == at),
    ensures
        total_demand(experts, ids) == total_demand(experts, ids.drop_last()) + if at >= 0 {
            1int
        } else {
            0int
        },
    decreases experts.len(),
{
    if experts.len() > 0 {
        let rest = experts.drop_last();
        assert forall|i: int| 0 <= i < rest.len() implies (#[trigger] rest[i]).identity.layer
            == layer && (rest[i].identity.global_expert == ids.last() <==> i == at) by {
            assert(rest[i] == experts[i]);
        }
        assert forall|i: int, j: int| 0 <= i < j < rest.len() implies crate::expert_cache::catalog::expert_before(
            (#[trigger] rest[i]).identity,
            (#[trigger] rest[j]).identity,
        ) by {
            assert(rest[i] == experts[i] && rest[j] == experts[j]);
        }
        if at == experts.len() - 1 {
            one_more_demand(rest, layer, ids, -1);
        } else {
            one_more_demand(rest, layer, ids, at);
        }
        assert(experts[experts.len() - 1] == experts.last());
    }
}

/// Routes are acquired exactly where their shape counts them, the layer has experts here,
/// each of them leads to an owned expert, and the experts they lead to fit the scratch
/// space together.
pub proof fn accepted_routes_fit_the_cache(
    catalog: Seq<OwnedExpert>,
    scratch_limit: u64,
    layer: usize,
    ids: Seq<i32>,
    shape: Seq<i32>,
)
    ensures
        routes_failure(catalog, scratch_limit, layer, ids, shape) is None <==> {
            &&& forall|d: int| 0 <= d < shape.len() ==> #[trigger] shape[d] >= 0
            &&& crate::array::elements_fit(shape, usize::MAX as int)
            &&& crate::array::elements(shape) == ids.len()
            &&& exists|i: int| 0 <= i < catalog.len() && (#[trigger] catalog[i]).identity.layer == layer
            &&& forall|r: int|
                0 <= r < ids.len() ==> #[trigger] ids[r] >= 0 && exists|i: int|
                    0 <= i < catalog.len() && (#[trigger] catalog[i]).identity.layer == layer
                        && catalog[i].identity.global_expert == ids[r]
            &&& expert_bytes(selected(catalog, layer, ids)) <= scratch_limit
        },
{
    layers_are_counted(catalog, layer);
    routes_fail_alone(catalog, layer, ids, 0);
    assert forall|r: int| 0 <= r < ids.len() implies ((#[trigger] ids[r] >= 0 && exists|i: int|
        0 <= i < catalog.len() && (#[trigger] catalog[i]).identity.layer == layer
            && catalog[i].identity.global_expert == ids[r]) <==> (ids[r] >= 0
        && crate::expert_cache::catalog::owns(
        catalog,
        ExpertIdentity { layer, global_expert: ids[r] as usize },
    ))) by {
        let identity = ExpertIdentity { layer, global_expert: ids[r] as usize };
        if crate::expert_cache::catalog::owns(catalog, identity) {
            let i = choose|i: int|
                0 <= i < catalog.len() && (#[trigger] catalog[i]).identity == identity;
            assert(catalog[i].identity.layer == layer);
        }
        if ids[r] >= 0 && exists|i: int|
            0 <= i < catalog.len() && (#[trigger] catalog[i]).identity.layer == layer
                && catalog[i].identity.global_expert == ids[r] {
            let i = choose|i: int|
                0 <= i < catalog.len() && (#[trigger] catalog[i]).identity.layer == layer
                    && catalog[i].identity.global_expert == ids[r];
            assert(catalog[i].identity == identity);
        }
    }
}

proof fn layers_are_counted(catalog: Seq<OwnedExpert>, layer: usize)
    ensures
        owned_in_layer(catalog, layer) >= 0,
        owned_in_layer(catalog, layer) == 0 <==> forall|i: int|
            0 <= i < catalog.len() ==> (#[trigger] catalog[i]).identity.layer != layer,
    decreases catalog.len(),
{
    if catalog.len() > 0 {
        let rest = catalog.drop_last();
        layers_are_counted(rest, layer);
        if owned_in_layer(catalog, layer) == 0 {
            assert forall|i: int| 0 <= i < catalog.len() implies (#[trigger] catalog[i]).identity.layer
                != layer by {
                if i < rest.len() {
                    assert(rest[i] == catalog[i]);
                }
            }
        } else if catalog.last().identity.layer == layer {
            assert(catalog[catalog.len() - 1].identity.layer == layer);
        } else {
            let i = choose|i: int| 0 <= i < rest.len() && (#[trigger] rest[i]).identity.layer == layer;
            assert(catalog[i].identity.layer == layer);
        }
    }
}

proof fn routes_fail_alone(catalog: Seq<OwnedExpert>, layer: usize, ids: Seq<i32>, from: int)
    requires
        0 <= from,
    ensures
        route_failure(catalog, layer, ids, from) is None <==> forall|r: int|
            from <= r < ids.len() ==> (#[trigger] ids[r]) >= 0
                && crate::expert_cache::catalog::owns(
                catalog,
                ExpertIdentity { layer, global_expert: ids[r] as usize },
            ),
    decreases ids.len() - from,
{
    if from < ids.len() {
        routes_fail_alone(catalog, layer, ids, from + 1);
        let here = ids[from];
    }
}

/// An expert is acquired exactly where it is owned, is one of the layer and some route
/// leads to it.
pub proof fn routed_experts_are_acquired(
    catalog: Seq<OwnedExpert>,
    layer: usize,
    ids: Seq<i32>,
    expert: OwnedExpert,
)
    ensures
        selected(catalog, layer, ids).contains(expert) <==> {
            &&& catalog.contains(expert)
            &&& expert.identity.layer == layer
            &&& exists|r: int| 0 <= r < ids.len() && #[trigger] ids[r] == expert.identity.global_expert
        },
    decreases catalog.len(),
{
    let global = expert.identity.global_expert as int;
    routes_make_demand(ids, global);
    if catalog.len() > 0 {
        let rest = catalog.drop_last();
        routed_experts_are_acquired(rest, layer, ids, expert);
        let before = selected(rest, layer, ids);
        let all = selected(catalog, layer, ids);
        if before.contains(expert) {
            let i = choose|i: int| 0 <= i < before.len() && before[i] == expert;
            assert(all[i] == expert);
        }
        if all.contains(expert) {
            let i = choose|i: int| 0 <= i < all.len() && all[i] == expert;
            if i < before.len() {
                assert(before[i] == expert);
                let j = choose|j: int| 0 <= j < rest.len() && rest[j] == expert;
                assert(catalog[j] == expert);
            } else {
                assert(catalog[catalog.len() - 1] == expert);
            }
        }
        if catalog.contains(expert) {
            let j = choose|j: int| 0 <= j < catalog.len() && catalog[j] == expert;
            if j < rest.len() {
                assert(rest[j] == expert);
            } else if expert.identity.layer == layer && demand_of(ids, global) > 0 {
                assert(all[all.len() - 1] == expert);
            }
        }
    }
}

proof fn routes_make_demand(ids: Seq<i32>, global: int)
    ensures
        demand_of(ids, global) > 0 <==> exists|r: int|
            0 <= r < ids.len() && #[trigger] ids[r] == global,
    decreases ids.len(),
{
    if ids.len() > 0 {
        let rest = ids.drop_last();
        routes_make_demand(rest, global);
        demand_is_bounded(rest, global);
        if demand_of(rest, global) > 0 {
            let r = choose|r: int| 0 <= r < rest.len() && #[trigger] rest[r] == global;
            assert(ids[r] == global);
        }
        if exists|r: int| 0 <= r < ids.len() && #[trigger] ids[r] == global {
            let r = choose|r: int| 0 <= r < ids.len() && #[trigger] ids[r] == global;
            if r < rest.len() {
                assert(rest[r] == global);
            }
        }
        if ids.last() == global {
            assert(ids[ids.len() - 1] == global);
        }
    }
}

/// Bytes of experts and the demand for one add up over lists of them.
pub proof fn bytes_and_demand_add_up(
    experts: Seq<OwnedExpert>,
    expert: OwnedExpert,
    ids: Seq<i32>,
    id: i32,
    global: int,
)
    ensures
        expert_bytes(Seq::empty()) == 0,
        expert_bytes(experts.push(expert)) == expert_bytes(experts) + expert.bytes,
        demand_of(Seq::empty(), global) == 0,
        id == global ==> demand_of(ids.push(id), global) == demand_of(ids, global) + 1,
        id != global ==> demand_of(ids.push(id), global) == demand_of(ids, global),
{
    assert(experts.push(expert).drop_last() =~= experts);
    assert(ids.push(id).drop_last() =~= ids);
}

/// A host copy is made on the way to the device where the host has a budget, is kept in
/// use where it exists, and is not asked for where nothing needs it.
pub proof fn host_copies_are_made_on_the_way(
    host_budget: Option<u64>,
    host_hit: bool,
    device_hit: bool,
)
    ensures
        host_hit ==> !(host_step_for(host_budget, host_hit, device_hit) is Skip),
        !host_hit ==> !(host_step_for(host_budget, host_hit, device_hit) is Require),
        host_step_for(host_budget, host_hit, device_hit) is Try <==> !device_hit && !(host_budget
            is Some && host_budget->Some_0 == 0),
{
}

/// The statistics of one pass change without those of the other.
pub proof fn passes_are_kept_apart<L>(
    cache: ExpertCache<L>,
    pass: ExpertPass,
    other: ExpertPass,
    statistics: ExpertPassStatistics,
)
    ensures
        cache.with_pass(pass, statistics).pass_statistics(pass) == statistics,
        other != pass ==> cache.with_pass(pass, statistics).pass_statistics(other)
            == cache.pass_statistics(other),
        cache.with_pass(pass, statistics).catalog == cache.catalog,
        cache.with_pass(pass, statistics).scratch_limit == cache.scratch_limit,
        cache.pass_statistics(ExpertPass::Prefill) == cache.prefill,
        cache.pass_statistics(ExpertPass::Decode) == cache.decode,
{
}

/// An acquisition is counted once: every route asks for a distinct expert or repeats one,
/// each distinct expert is requested once of either tier, and what came of each request
/// is counted with that tier. Compact banks are not touched.
pub proof fn acquisitions_are_counted_once(
    before: ExpertPassStatistics,
    routes: u64,
    distinct: u64,
    counts: AcquisitionCounts,
    host_evicted: (u64, u64),
    device_evicted: (u64, u64),
    wait: u128,
)
    requires
        distinct <= routes,
        before.requested_routes + routes <= u64::MAX,
        before.distinct_experts + distinct <= u64::MAX,
        before.coalesced_duplicates + routes <= u64::MAX,
        before.host.requests + distinct <= u64::MAX,
        before.host.hits + counts.host_hits <= u64::MAX,
        before.host.misses + counts.host_misses <= u64::MAX,
        before.host.evictions + host_evicted.0 <= u64::MAX,
        before.host.eviction_bytes + host_evicted.1 <= u64::MAX,
        before.device.requests + distinct <= u64::MAX,
        before.device.hits + counts.device_hits <= u64::MAX,
        before.device.misses + counts.device_misses <= u64::MAX,
        before.device.evictions + device_evicted.0 <= u64::MAX,
        before.device.eviction_bytes + device_evicted.1 <= u64::MAX,
        before.materialization_wait + wait <= crate::duration::LONGEST_DURATION,
    ensures
        ({
            let after = pass_after_acquisition(
                before,
                routes,
                distinct,
                counts,
                host_evicted,
                device_evicted,
                wait,
            );
            &&& after.requested_routes - before.requested_routes == routes
            &&& after.distinct_experts - before.distinct_experts == distinct
            &&& after.coalesced_duplicates - before.coalesced_duplicates == routes - distinct
            &&& after.host.requests - before.host.requests == distinct
            &&& after.host.hits - before.host.hits == counts.host_hits
            &&& after.host.misses - before.host.misses == counts.host_misses
            &&& after.host.evictions - before.host.evictions == host_evicted.0
            &&& after.host.eviction_bytes - before.host.eviction_bytes == host_evicted.1
            &&& after.device.requests - before.device.requests == distinct
            &&& after.device.hits - before.device.hits == counts.device_hits
            &&& after.device.misses - before.device.misses == counts.device_misses
            &&& after.device.evictions - before.device.evictions == device_evicted.0
            &&& after.device.eviction_bytes - before.device.eviction_bytes == device_evicted.1
            &&& after.materialization_wait - before.materialization_wait == wait
            &&& after.compact_banks == before.compact_banks
            &&& after.compact_bank_bytes == before.compact_bank_bytes
            &&& after.peak_compact_bank_bytes == before.peak_compact_bank_bytes
            &&& after.compact_bank_time == before.compact_bank_time
        }),
{
}

/// Each observed expert is counted once on either tier, as a hit exactly where there was
/// a copy.
pub proof fn observed_copies_are_hits(counts: AcquisitionCounts, host_hit: bool, device_hit: bool)
    requires
        counts.host_hits < u64::MAX,
        counts.host_misses < u64::MAX,
        counts.device_hits < u64::MAX,
        counts.device_misses < u64::MAX,
    ensures
        ({
            let after = counts.observed(host_hit, device_hit);
            &&& after.host_hits == counts.host_hits + if host_hit {
                1int
            } else {
                0
            }
            &&& after.host_misses == counts.host_misses + if host_hit {
                0int
            } else {
                1
            }
            &&& after.device_hits == counts.device_hits + if device_hit {
                1int
            } else {
                0
            }
            &&& after.device_misses == counts.device_misses + if device_hit {
                0int
            } else {
                1
            }
        }),
{
}

/// A host copy that was only tried may fail for want of host room; any other failure on
/// the way is told.
pub proof fn tried_host_copies_may_lack_room(
    step: HostStep,
    outcome: AcquireOutcome,
    checked: Result<(), ExpertCacheError>,
)
    requires
        call_ensures(after_host_step, (step, &outcome), checked),
    ensures
        outcome is Acquired ==> checked is Ok,
        outcome is Failed ==> checked is Err,
        outcome matches AcquireOutcome::BudgetExhausted { tier, .. } ==> (checked is Ok <==> step
            is Try && tier is Host),
{
}

/// Route ids are taken exactly where their element type is a wide integer.
pub proof fn route_ids_are_wide_integers(dtype: Dtype, checked: Result<(), ExpertCacheError>)
    requires
        call_ensures(check_route_dtype, (dtype,), checked),
    ensures
        checked is Ok <==> dtype is Int32 || dtype is Uint32 || dtype is Int64 || dtype is Uint64,
{
}

} // verus!
