//! Memory tiers, eviction policies and identities shared by residency subsystems.

use vstd::prelude::*;

verus! {

/// Order in which unprotected cached state leaves a bounded tier.
#[derive(Debug, Clone, Copy, PartialEq, Eq, Structural)]
pub enum CacheEvictionPolicy {
    /// The entry whose last use lies furthest back leaves first.
    LeastRecentlyUsed,
    /// The entry with the fewest uses leaves first.
    LeastFrequentlyUsed,
}

/// Memory tier that can hold a residency unit.
#[derive(Debug, Clone, Copy, PartialEq, Eq, Structural)]
pub enum MemoryTier {
    /// Execution-device memory.
    Device,
    /// Host memory.
    Host,
    /// Checkpoint storage.
    Disk,
}

/// Stable identifier of one residency unit.
#[derive(Debug, Clone, PartialEq, Eq)]
pub struct OffloadUnitId {
    /// Text of the identifier.
    pub id: String,
}

impl View for OffloadUnitId {
    type V = Seq<char>;

    open spec fn view(&self) -> Seq<char> {
        self.id@
    }
}

impl OffloadUnitId {
    /// Returns the text of the identifier.
    pub fn as_str(&self) -> (text: &str)
        ensures
            text@ == self@,
    {
        self.id.as_str()
    }
}

/// Budgets and policy of one set of residency units.
#[derive(Debug, Clone, Copy, PartialEq, Eq, Structural)]
pub struct OffloadConfig {
    /// Device budget; unlimited when absent.
    pub device_budget_bytes: Option<u64>,
    /// Host budget; unlimited when absent.
    pub host_budget_bytes: Option<u64>,
    /// Units to fetch ahead.
    pub prefetch_units: usize,
    /// Order in which units leave a full tier.
    pub eviction_policy: CacheEvictionPolicy,
}

/// Residency controls of layer-by-layer loading.
#[derive(Debug, Clone, Copy, PartialEq, Eq, Structural)]
pub struct LayerwiseLoadOptions {
    /// Budgets and policy.
    pub offload: OffloadConfig,
    /// Checkpoint shards that may be mapped at once.
    pub max_mapped_shards: usize,
}

/// One residency unit: the named arrays that move together.
#[derive(Debug, Clone, PartialEq, Eq)]
pub struct OffloadUnit {
    /// Identifier.
    pub id: OffloadUnitId,
    /// Names of its arrays.
    pub bindings: Vec<String>,
}

} // verus!
