//! Counters of expert-parallel dispatches and the profiling mode of their timings.

use vstd::prelude::*;

verus! {

/// Whether phase timings wait for the device.
///
/// Arrays are computed lazily, so ordinary phase timings primarily describe graph
/// submission. While a guard is alive, phase outputs are materialized before each timer
/// stops.
#[derive(Debug, Clone, Copy, PartialEq, Eq, Structural)]
pub struct TimingProfiling {
    /// How many guards are alive.
    pub guards: usize,
}

/// Scoped opt-in profiling mode for expert-parallel phase timings. The mode is on while
/// any guard is alive, whatever the order in which guards end.
#[must_use]
#[derive(Debug)]
pub struct ExpertParallelTimingGuard {
    live: (),
}

impl TimingProfiling {
    /// No guard is alive at first.
    pub fn new() -> (profiling: Self)
        ensures
            profiling.guards == 0,
    {
        TimingProfiling { guards: 0 }
    }

    /// Answers whether phase outputs are materialized before each timer stops: whether
    /// some guard is alive.
    pub fn timing_profiling_enabled(&self) -> (enabled: bool)
        ensures
            enabled == (self.guards > 0),
    {
        self.guards > 0
    }
}

/// Enables device-complete expert-parallel phase timings while the guard is alive.
pub fn profile_expert_parallel_timings(profiling: &mut TimingProfiling) -> (guard:
    ExpertParallelTimingGuard)
    requires
        old(profiling).guards < usize::MAX,
    ensures
        final(profiling).guards == old(profiling).guards + 1,
{
    profiling.guards = profiling.guards + 1;
    ExpertParallelTimingGuard { live: () }
}

impl ExpertParallelTimingGuard {
    /// Ends the scope of this guard; others go on.
    pub fn restore(self, profiling: &mut TimingProfiling)
        requires
            old(profiling).guards > 0,
        ensures
            final(profiling).guards == old(profiling).guards - 1,
    {
        profiling.guards = profiling.guards - 1;
    }
}

/// Per-dispatch counters used by diagnostics and benchmark probes.
#[derive(Debug, Clone, Copy, PartialEq, Eq, Structural)]
pub struct RoutingStatistics {
    /// Total selected routes visible to the source rank.
    pub total_routes: usize,
    /// Selected routes owned and executed by this rank.
    pub local_routes: usize,
    /// Routes sent by a sharded-input exchange.
    pub sent_routes: usize,
    /// Routes received by a sharded-input exchange.
    pub received_routes: usize,
    /// Padding rows introduced by the fallback transport.
    pub padding_routes: usize,
    /// Explicit host-visible synchronization points.
    pub synchronization_count: usize,
    /// Payload bytes transferred logically, excluding backend internals.
    pub exchanged_bytes: usize,
    /// Time spent waiting for explicit route metadata synchronization, in nanoseconds.
    pub synchronization_time: u128,
    /// Wall time spent computing router decisions, in nanoseconds.
    pub router_time: u128,
    /// Wall time spent validating and compacting owner-local routes, in nanoseconds.
    pub compaction_time: u128,
    /// Wall time spent in route transport collectives, in nanoseconds.
    pub exchange_time: u128,
    /// Wall time spent in local expert computation, in nanoseconds.
    pub expert_time: u128,
    /// Wall time spent reducing or recombining routed outputs, in nanoseconds.
    pub reduction_time: u128,
    /// Wall time spent computing replicated shared experts, in nanoseconds.
    pub shared_expert_time: u128,
    /// End-to-end wall time summed across represented MoE blocks or one dispatch, in
    /// nanoseconds.
    pub total_time: u128,
    /// End-to-end wall time for the complete model forward containing those blocks, in
    /// nanoseconds.
    pub model_time: u128,
}

impl Default for RoutingStatistics {
    fn default() -> (statistics: Self)
        ensures
            statistics == RoutingStatistics::zero(),
    {
        RoutingStatistics {
            total_routes: 0,
            local_routes: 0,
            sent_routes: 0,
            received_routes: 0,
            padding_routes: 0,
            synchronization_count: 0,
            exchanged_bytes: 0,
            synchronization_time: 0,
            router_time: 0,
            compaction_time: 0,
            exchange_time: 0,
            expert_time: 0,
            reduction_time: 0,
            shared_expert_time: 0,
            total_time: 0,
            model_time: 0,
        }
    }
}

impl RoutingStatistics {
    /// No activity.
    pub open spec fn zero() -> RoutingStatistics {
        RoutingStatistics {
            total_routes: 0,
            local_routes: 0,
            sent_routes: 0,
            received_routes: 0,
            padding_routes: 0,
            synchronization_count: 0,
            exchanged_bytes: 0,
            synchronization_time: 0,
            router_time: 0,
            compaction_time: 0,
            exchange_time: 0,
            expert_time: 0,
            reduction_time: 0,
            shared_expert_time: 0,
            total_time: 0,
            model_time: 0,
        }
    }

    /// Whether the counters of another dispatch can be added.
    pub open spec fn can_add(self, other: RoutingStatistics) -> bool {
        &&& self.total_routes + other.total_routes <= usize::MAX
        &&& self.local_routes + other.local_routes <= usize::MAX
        &&& self.sent_routes + other.sent_routes <= usize::MAX
        &&& self.received_routes + other.received_routes <= usize::MAX
        &&& self.padding_routes + other.padding_routes <= usize::MAX
        &&& self.synchronization_count + other.synchronization_count <= usize::MAX
        &&& self.exchanged_bytes + other.exchanged_bytes <= usize::MAX
        &&& self.synchronization_time + other.synchronization_time <= u128::MAX
        &&& self.router_time + other.router_time <= u128::MAX
        &&& self.compaction_time + other.compaction_time <= u128::MAX
        &&& self.exchange_time + other.exchange_time <= u128::MAX
        &&& self.expert_time + other.expert_time <= u128::MAX
        &&& self.reduction_time + other.reduction_time <= u128::MAX
        &&& self.shared_expert_time + other.shared_expert_time <= u128::MAX
        &&& self.total_time + other.total_time <= u128::MAX
        &&& self.model_time + other.model_time <= u128::MAX
    }

    /// The counters of both dispatches together.
    pub open spec fn plus(self, other: RoutingStatistics) -> RoutingStatistics {
        RoutingStatistics {
            total_routes: (self.total_routes + other.total_routes) as usize,
            local_routes: (self.local_routes + other.local_routes) as usize,
            sent_routes: (self.sent_routes + other.sent_routes) as usize,
            received_routes: (self.received_routes + other.received_routes) as usize,
            padding_routes: (self.padding_routes + other.padding_routes) as usize,
            synchronization_count: (self.synchronization_count + other.synchronization_count) as usize,
            exchanged_bytes: (self.exchanged_bytes + other.exchanged_bytes) as usize,
            synchronization_time: (self.synchronization_time + other.synchronization_time) as u128,
            router_time: (self.router_time + other.router_time) as u128,
            compaction_time: (self.compaction_time + other.compaction_time) as u128,
            exchange_time: (self.exchange_time + other.exchange_time) as u128,
            expert_time: (self.expert_time + other.expert_time) as u128,
            reduction_time: (self.reduction_time + other.reduction_time) as u128,
            shared_expert_time: (self.shared_expert_time + other.shared_expert_time) as u128,
            total_time: (self.total_time + other.total_time) as u128,
            model_time: (self.model_time + other.model_time) as u128,
        }
    }

    /// Adds counters and measured times from another dispatch.
    pub fn accumulate(&mut self, other: &Self)
        requires
            old(self).can_add(*other),
        ensures
            *final(self) == old(self).plus(*other),
    {
        self.total_routes = self.total_routes + other.total_routes;
        self.local_routes = self.local_routes + other.local_routes;
        self.sent_routes = self.sent_routes + other.sent_routes;
        self.received_routes = self.received_routes + other.received_routes;
        self.padding_routes = self.padding_routes + other.padding_routes;
        self.synchronization_count = self.synchronization_count + other.synchronization_count;
        self.exchanged_bytes = self.exchanged_bytes + other.exchanged_bytes;
        self.synchronization_time = self.synchronization_time + other.synchronization_time;
        self.router_time = self.router_time + other.router_time;
        self.compaction_time = self.compaction_time + other.compaction_time;
        self.exchange_time = self.exchange_time + other.exchange_time;
        self.expert_time = self.expert_time + other.expert_time;
        self.reduction_time = self.reduction_time + other.reduction_time;
        self.shared_expert_time = self.shared_expert_time + other.shared_expert_time;
        self.total_time = self.total_time + other.total_time;
        self.model_time = self.model_time + other.model_time;
    }
}

/// The counters of several dispatches do not depend on the order in which they are
/// added.
pub proof fn statistics_add_in_any_order(
    base: RoutingStatistics,
    first: RoutingStatistics,
    second: RoutingStatistics,
)
    requires
        base.can_add(first),
        base.plus(first).can_add(second),
    ensures
        base.can_add(second),
        base.plus(second).can_add(first),
        base.plus(first).plus(second) == base.plus(second).plus(first),
{
}

/// Adding loses nothing: adding to no activity gives the dispatch itself, adding no
/// activity changes nothing, and every counter of two dispatches is the sum of theirs.
pub proof fn added_statistics_lose_nothing(left: RoutingStatistics, right: RoutingStatistics)
    requires
        left.can_add(right),
    ensures
        RoutingStatistics::zero().plus(right) == right,
        left.plus(RoutingStatistics::zero()) == left,
        left.plus(right).total_routes == left.total_routes + right.total_routes,
        left.plus(right).local_routes == left.local_routes + right.local_routes,
        left.plus(right).sent_routes == left.sent_routes + right.sent_routes,
        left.plus(right).received_routes == left.received_routes + right.received_routes,
        left.plus(right).padding_routes == left.padding_routes + right.padding_routes,
        left.plus(right).synchronization_count == left.synchronization_count + right.synchronization_count,
        left.plus(right).exchanged_bytes == left.exchanged_bytes + right.exchanged_bytes,
        left.plus(right).synchronization_time == left.synchronization_time + right.synchronization_time,
        left.plus(right).router_time == left.router_time + right.router_time,
        left.plus(right).compaction_time == left.compaction_time + right.compaction_time,
        left.plus(right).exchange_time == left.exchange_time + right.exchange_time,
        left.plus(right).expert_time == left.expert_time + right.expert_time,
        left.plus(right).reduction_time == left.reduction_time + right.reduction_time,
        left.plus(right).shared_expert_time == left.shared_expert_time + right.shared_expert_time,
        left.plus(right).total_time == left.total_time + right.total_time,
        left.plus(right).model_time == left.model_time + right.model_time,
{
}

} // verus!
