//! Statistics and reports of the expert cache.

use vstd::prelude::*;

verus! {

/// Tier-local cache request counters.
#[derive(Debug, Clone, Copy, PartialEq, Eq, Structural)]
pub struct ExpertTierStatistics {
    /// Logical expert acquisition requests after duplicate coalescing.
    pub requests: u64,
    /// Requests served by an already resident copy.
    pub hits: u64,
    /// Requests that materialized or promoted a copy.
    pub misses: u64,
    /// Copies evicted while satisfying cache requests.
    pub evictions: u64,
    /// Bytes evicted while satisfying cache requests.
    pub eviction_bytes: u64,
}

/// Cumulative statistics for one public execution-path class.
#[derive(Debug, Clone, Copy, PartialEq, Eq, Structural)]
pub struct ExpertPassStatistics {
    /// Route rows requested by the router, including duplicates.
    pub requested_routes: u64,
    /// Distinct logical experts requested after coalescing.
    pub distinct_experts: u64,
    /// Duplicate requests eliminated before materialization.
    pub coalesced_duplicates: u64,
    /// Temporary compact banks built.
    pub compact_banks: u64,
    /// Cumulative compact-bank bytes.
    pub compact_bank_bytes: u64,
    /// Peak temporary compact-bank bytes.
    pub peak_compact_bank_bytes: u64,
    /// Cumulative compact-bank construction time, in nanoseconds.
    pub compact_bank_time: u128,
    /// Time waiting on synchronous expert materialization or promotion, in nanoseconds.
    pub materialization_wait: u128,
    /// Host-tier cache activity.
    pub host: ExpertTierStatistics,
    /// Device-tier cache activity.
    pub device: ExpertTierStatistics,
}

impl Default for ExpertTierStatistics {
    fn default() -> (statistics: Self)
        ensures
            statistics == ExpertTierStatistics::zero(),
    {
        ExpertTierStatistics { requests: 0, hits: 0, misses: 0, evictions: 0, eviction_bytes: 0 }
    }
}

impl ExpertTierStatistics {
    /// No activity.
    pub open spec fn zero() -> ExpertTierStatistics {
        ExpertTierStatistics { requests: 0, hits: 0, misses: 0, evictions: 0, eviction_bytes: 0 }
    }

    /// More activity; every counter stops at the largest integer.
    pub open spec fn with(
        self,
        requests: u64,
        hits: u64,
        misses: u64,
        evictions: u64,
        eviction_bytes: u64,
    ) -> ExpertTierStatistics {
        ExpertTierStatistics {
            requests: crate::duration::raised(self.requests, requests as int),
            hits: crate::duration::raised(self.hits, hits as int),
            misses: crate::duration::raised(self.misses, misses as int),
            evictions: crate::duration::raised(self.evictions, evictions as int),
            eviction_bytes: crate::duration::raised(self.eviction_bytes, eviction_bytes as int),
        }
    }

    /// Records more activity.
    pub fn record(
        &mut self,
        requests: u64,
        hits: u64,
        misses: u64,
        evictions: u64,
        eviction_bytes: u64,
    )
        ensures
            *final(self) == old(self).with(requests, hits, misses, evictions, eviction_bytes),
    {
        self.requests = self.requests.saturating_add(requests);
        self.hits = self.hits.saturating_add(hits);
        self.misses = self.misses.saturating_add(misses);
        self.evictions = self.evictions.saturating_add(evictions);
        self.eviction_bytes = self.eviction_bytes.saturating_add(eviction_bytes);
    }
}

impl Default for ExpertPassStatistics {
    fn default() -> (statistics: Self)
        ensures
            statistics == ExpertPassStatistics::zero(),
    {
        ExpertPassStatistics {
            requested_routes: 0,
            distinct_experts: 0,
            coalesced_duplicates: 0,
            compact_banks: 0,
            compact_bank_bytes: 0,
            peak_compact_bank_bytes: 0,
            compact_bank_time: 0,
            materialization_wait: 0,
            host: ExpertTierStatistics::default(),
            device: ExpertTierStatistics::default(),
        }
    }
}

impl ExpertTierStatistics {
    /// Whether every request was served or materialized a copy.
    pub open spec fn adds_up(self) -> bool {
        self.hits + self.misses == self.requests
    }
}

impl ExpertPassStatistics {
    /// Whether the counters agree with one another: every route asks for a distinct expert
    /// or repeats one, each distinct expert is requested once of either tier, and every
    /// request is a hit or a miss. Counters stop at the largest integer; from there on only
    /// the peak is sure not to exceed the sum.
    pub open spec fn adds_up(self) -> bool {
        &&& self.peak_compact_bank_bytes <= self.compact_bank_bytes
        &&& self.requested_routes < u64::MAX ==> {
            &&& self.requested_routes == self.distinct_experts + self.coalesced_duplicates
            &&& self.host.requests == self.distinct_experts
            &&& self.device.requests == self.distinct_experts
            &&& self.host.adds_up()
            &&& self.device.adds_up()
        }
    }

    /// No activity.
    pub open spec fn zero() -> ExpertPassStatistics {
        ExpertPassStatistics {
            requested_routes: 0,
            distinct_experts: 0,
            coalesced_duplicates: 0,
            compact_banks: 0,
            compact_bank_bytes: 0,
            peak_compact_bank_bytes: 0,
            compact_bank_time: 0,
            materialization_wait: 0,
            host: ExpertTierStatistics::zero(),
            device: ExpertTierStatistics::zero(),
        }
    }
}

/// Residency of one unit.
#[derive(Debug, Clone, PartialEq, Eq)]
pub struct UnitResidency {
    /// Identifier.
    pub id: String,
    /// Materialized byte length.
    pub expected_bytes: u64,
    /// Whether a host copy exists.
    pub host_resident: bool,
    /// Whether a device copy exists.
    pub device_resident: bool,
}

/// Point-in-time residency of all units.
#[derive(Debug, Clone, PartialEq, Eq)]
pub struct ResidencyReport {
    /// Units in identifier order.
    pub units: Vec<UnitResidency>,
    /// Peak host-resident bytes.
    pub peak_host_bytes: u64,
    /// Peak device-resident bytes.
    pub peak_device_bytes: u64,
}

/// Point-in-time sparse expert residency and execution report.
#[derive(Debug, Clone)]
pub struct ExpertCacheReport {
    /// Owned logical expert count.
    pub owned_experts: usize,
    /// Owned logical expert bytes, counting cold checkpoint-only experts.
    pub owned_bytes: u64,
    /// Current host-resident expert count.
    pub host_resident_experts: usize,
    /// Current device-resident expert count.
    pub device_resident_experts: usize,
    /// Current host-resident expert bytes.
    pub host_resident_bytes: u64,
    /// Current device-resident expert bytes.
    pub device_resident_bytes: u64,
    /// Peak host-resident expert bytes.
    pub peak_host_resident_bytes: u64,
    /// Peak device-resident expert bytes.
    pub peak_device_resident_bytes: u64,
    /// Prompt-processing statistics.
    pub prefill: ExpertPassStatistics,
    /// Autoregressive decode statistics.
    pub decode: ExpertPassStatistics,
    /// Underlying residency.
    pub residency: ResidencyReport,
}

/// Whether a unit has a copy on a tier.
pub open spec fn resident_on(unit: UnitResidency, host: bool) -> bool {
    if host {
        unit.host_resident
    } else {
        unit.device_resident
    }
}

/// Units with a copy on a tier.
pub open spec fn resident_units(units: Seq<UnitResidency>, host: bool) -> int
    decreases units.len(),
{
    if units.len() == 0 {
        0
    } else {
        resident_units(units.drop_last(), host) + if resident_on(units.last(), host) {
            1int
        } else {
            0int
        }
    }
}

/// Bytes of the copies on a tier, up to the largest integer.
pub open spec fn resident_bytes(units: Seq<UnitResidency>, host: bool) -> u64
    decreases units.len(),
{
    if units.len() == 0 {
        0
    } else {
        let before = resident_bytes(units.drop_last(), host);
        if resident_on(units.last(), host) {
            crate::duration::raised(before, units.last().expected_bytes as int)
        } else {
            before
        }
    }
}

/// Counts the copies on a tier and their bytes.
pub fn count_resident(units: &Vec<UnitResidency>, host: bool) -> (counted: (usize, u64))
    ensures
        counted.0 == resident_units(units@, host),
        counted.1 == resident_bytes(units@, host),
{
    let mut count: usize = 0;
    let mut bytes: u64 = 0;
    let mut index: usize = 0;
    while index < units.len()
        invariant
            index <= units@.len(),
            count <= index,
            count == resident_units(units@.take(index as int), host),
            bytes == resident_bytes(units@.take(index as int), host),
        decreases units@.len() - index,
    {
        assert(units@.take(index + 1).drop_last() =~= units@.take(index as int));
        let unit = &units[index];
        let resident = if host {
            unit.host_resident
        } else {
            unit.device_resident
        };
        if resident {
            count = count + 1;
            bytes = bytes.saturating_add(unit.expected_bytes);
        }
        index = index + 1;
    }
    assert(units@.take(index as int) =~= units@);
    (count, bytes)
}

/// Whether a report shows a copy of a unit on a tier.
pub open spec fn still_resident(units: Seq<UnitResidency>, host: bool, id: Seq<char>) -> bool {
    exists|i: int|
        0 <= i < units.len() && (#[trigger] units[i]).id@ == id && resident_on(units[i], host)
}

/// Copies on a tier that one report shows and a later one does not, and their bytes.
pub open spec fn evicted(before: Seq<UnitResidency>, after: Seq<UnitResidency>, host: bool) -> (
    u64,
    u64,
)
    decreases before.len(),
{
    if before.len() == 0 {
        (0, 0)
    } else {
        let rest = evicted(before.drop_last(), after, host);
        let unit = before.last();
        if resident_on(unit, host) && !still_resident(after, host, unit.id@) {
            (
                crate::duration::raised(rest.0, 1),
                crate::duration::raised(rest.1, unit.expected_bytes as int),
            )
        } else {
            rest
        }
    }
}

fn is_still_resident(units: &Vec<UnitResidency>, host: bool, id: &String) -> (resident: bool)
    ensures
        resident == still_resident(units@, host, id@),
{
    let mut index: usize = 0;
    while index < units.len()
        invariant
            index <= units@.len(),
            forall|i: int|
                0 <= i < index ==> !((#[trigger] units@[i]).id@ == id@ && resident_on(
                    units@[i],
                    host,
                )),
        decreases units@.len() - index,
    {
        let unit = &units[index];
        let resident = if host {
            unit.host_resident
        } else {
            unit.device_resident
        };
        if resident && unit.id == *id {
            assert(units@[index as int].id@ == id@ && resident_on(units@[index as int], host));
            return true;
        }
        index = index + 1;
    }
    false
}

/// Counts copies that left a tier between two reports, and their bytes.
pub fn count_evicted(before: &Vec<UnitResidency>, after: &Vec<UnitResidency>, host: bool) -> (counted:
    (u64, u64))
    ensures
        counted == evicted(before@, after@, host),
{
    let mut count: u64 = 0;
    let mut bytes: u64 = 0;
    let mut index: usize = 0;
    while index < before.len()
        invariant
            index <= before@.len(),
            (count, bytes) == evicted(before@.take(index as int), after@, host),
        decreases before@.len() - index,
    {
        assert(before@.take(index + 1).drop_last() =~= before@.take(index as int));
        let unit = &before[index];
        let resident = if host {
            unit.host_resident
        } else {
            unit.device_resident
        };
        if resident && !is_still_resident(after, host, &unit.id) {
            count = count.saturating_add(1);
            bytes = bytes.saturating_add(unit.expected_bytes);
        }
        index = index + 1;
    }
    assert(before@.take(index as int) =~= before@);
    (count, bytes)
}

/// Resident copies are counted tier by tier: a unit counts on a tier exactly where it has
/// a copy there, with its bytes.
pub proof fn resident_copies_are_counted(units: Seq<UnitResidency>, unit: UnitResidency)
    requires
        resident_bytes(units, true) + unit.expected_bytes <= u64::MAX,
        resident_bytes(units, false) + unit.expected_bytes <= u64::MAX,
    ensures
        resident_units(Seq::empty(), true) == 0,
        resident_units(Seq::empty(), false) == 0,
        resident_bytes(Seq::empty(), true) == 0,
        resident_bytes(Seq::empty(), false) == 0,
        unit.host_resident ==> {
            &&& resident_units(units.push(unit), true) == resident_units(units, true) + 1
            &&& resident_bytes(units.push(unit), true) == resident_bytes(units, true)
                + unit.expected_bytes
        },
        !unit.host_resident ==> {
            &&& resident_units(units.push(unit), true) == resident_units(units, true)
            &&& resident_bytes(units.push(unit), true) == resident_bytes(units, true)
        },
        unit.device_resident ==> {
            &&& resident_units(units.push(unit), false) == resident_units(units, false) + 1
            &&& resident_bytes(units.push(unit), false) == resident_bytes(units, false)
                + unit.expected_bytes
        },
        !unit.device_resident ==> {
            &&& resident_units(units.push(unit), false) == resident_units(units, false)
            &&& resident_bytes(units.push(unit), false) == resident_bytes(units, false)
        },
{
    assert(units.push(unit).drop_last() =~= units);
}

/// Nothing is evicted between two equal reports, and where the later report shows no copy
/// at all, all copies of the earlier one were evicted.
pub proof fn evictions_are_what_disappeared(units: Seq<UnitResidency>, host: bool)
    requires
        units.len() < u64::MAX,
    ensures
        evicted(units, units, host) == (0u64, 0u64),
        evicted(units, Seq::empty(), host).0 == resident_units(units, host),
        evicted(units, Seq::empty(), host).1 == resident_bytes(units, host),
{
    kept_copies_are_not_evicted(units, units, host);
    lost_copies_are_evicted(units, host);
}

/// Copies that a later report still shows are not counted as evicted.
pub proof fn kept_copies_are_not_evicted(
    before: Seq<UnitResidency>,
    after: Seq<UnitResidency>,
    host: bool,
)
    requires
        forall|i: int|
            0 <= i < before.len() && resident_on(#[trigger] before[i], host) ==> exists|j: int|
                0 <= j < after.len() && (#[trigger] after[j]).id@ == before[i].id@ && resident_on(
                    after[j],
                    host,
                ),
    ensures
        evicted(before, after, host) == (0u64, 0u64),
    decreases before.len(),
{
    if before.len() > 0 {
        let rest = before.drop_last();
        assert forall|i: int| 0 <= i < rest.len() && resident_on(#[trigger] rest[i], host) implies exists|j: int|
            0 <= j < after.len() && (#[trigger] after[j]).id@ == rest[i].id@ && resident_on(
                after[j],
                host,
            ) by {
            assert(before[i] == rest[i]);
        }
        kept_copies_are_not_evicted(rest, after, host);
        assert(before[before.len() - 1] == before.last());
    }
}

proof fn lost_copies_are_evicted(units: Seq<UnitResidency>, host: bool)
    requires
        units.len() < u64::MAX,
    ensures
        evicted(units, Seq::empty(), host).0 == resident_units(units, host),
        evicted(units, Seq::empty(), host).1 == resident_bytes(units, host),
        0 <= resident_units(units, host) <= units.len(),
    decreases units.len(),
{
    if units.len() > 0 {
        lost_copies_are_evicted(units.drop_last(), host);
    }
}

} // verus!
