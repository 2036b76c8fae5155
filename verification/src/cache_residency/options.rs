//! Finite limits for a paged attention cache.

use vstd::prelude::*;

use crate::cache_residency::error::{CacheFailure, CacheResidencyError};
use crate::offload::CacheEvictionPolicy;

verus! {

/// Selects the existing device-resident cache or bounded paged residency.
#[derive(Debug, Clone, PartialEq, Eq)]
pub enum CacheResidencyPolicy {
    /// Keep the existing cache representation entirely device resident.
    Device,
    /// Store sealed state in token-addressable blocks under finite budgets.
    Paged(PagedCacheOptions),
}

impl Default for CacheResidencyPolicy {
    fn default() -> (policy: Self)
        ensures
            policy == CacheResidencyPolicy::Device,
    {
        CacheResidencyPolicy::Device
    }
}

/// Controls optional disk backing for a live inference cache.
#[derive(Debug, PartialEq, Eq)]
pub enum LiveCacheDiskPolicy {
    /// Do not write live attention state to disk.
    Disabled,
    /// Retain demoted sealed blocks in an explicit ephemeral directory.
    Enabled {
        /// Directory dedicated to this live cache.
        directory: String,
        /// Finite logical byte limit for live cache files.
        budget_bytes: u64,
        /// Bound on pending reader or writer requests.
        queue_capacity: usize,
    },
}

impl Default for LiveCacheDiskPolicy {
    fn default() -> (policy: Self)
        ensures
            policy == LiveCacheDiskPolicy::Disabled,
    {
        LiveCacheDiskPolicy::Disabled
    }
}

/// Validated finite limits for a paged attention cache.
#[derive(Debug, PartialEq, Eq)]
pub struct PagedCacheOptions {
    block_size_tokens: i32,
    device_budget_bytes: u64,
    host_budget_bytes: u64,
    recent_device_blocks: usize,
    eviction_policy: CacheEvictionPolicy,
    full_attention: bool,
    retain_discarded_for_persistence: bool,
    live_disk: LiveCacheDiskPolicy,
    sample_process: bool,
}

impl Clone for LiveCacheDiskPolicy {
    fn clone(&self) -> (copy: Self)
        ensures
            copy == *self,
    {
        match self {
            LiveCacheDiskPolicy::Disabled => LiveCacheDiskPolicy::Disabled,
            LiveCacheDiskPolicy::Enabled { directory, budget_bytes, queue_capacity } =>
                LiveCacheDiskPolicy::Enabled {
                    directory: directory.clone(),
                    budget_bytes: *budget_bytes,
                    queue_capacity: *queue_capacity,
                },
        }
    }
}

impl Clone for PagedCacheOptions {
    fn clone(&self) -> (copy: Self)
        ensures
            copy == *self,
    {
        proof {
            use_type_invariant(self);
        }
        PagedCacheOptions {
            block_size_tokens: self.block_size_tokens,
            device_budget_bytes: self.device_budget_bytes,
            host_budget_bytes: self.host_budget_bytes,
            recent_device_blocks: self.recent_device_blocks,
            eviction_policy: self.eviction_policy,
            full_attention: self.full_attention,
            retain_discarded_for_persistence: self.retain_discarded_for_persistence,
            live_disk: self.live_disk.clone(),
            sample_process: self.sample_process,
        }
    }
}

/// What a [`PagedCacheOptions`] value says.
pub struct PagedCacheLimits {
    pub block_size_tokens: i32,
    pub device_budget_bytes: u64,
    pub host_budget_bytes: u64,
    pub recent_device_blocks: usize,
    pub eviction_policy: CacheEvictionPolicy,
    pub full_attention: bool,
    pub retain_discarded_for_persistence: bool,
    pub live_disk: LiveCacheDiskPolicy,
    pub sample_process: bool,
}

impl PagedCacheLimits {
    /// Finite, meaningful limits: a positive block size, a nonzero device budget, at
    /// least one protected recent block, and nonzero disk limits where disk is used.
    pub open spec fn valid(self) -> bool {
        &&& self.block_size_tokens > 0
        &&& self.device_budget_bytes > 0
        &&& self.recent_device_blocks > 0
        &&& self.live_disk matches LiveCacheDiskPolicy::Enabled {
            directory,
            budget_bytes,
            queue_capacity,
        } ==> directory@.len() > 0 && budget_bytes > 0 && queue_capacity > 0
    }

    /// The finite live-disk budget, when live disk backing is enabled.
    pub open spec fn disk_budget(self) -> Option<u64> {
        match self.live_disk {
            LiveCacheDiskPolicy::Disabled => None,
            LiveCacheDiskPolicy::Enabled { budget_bytes, .. } => Some(budget_bytes),
        }
    }

    /// The disk request queue bound: the configured one, and one without live disk.
    pub open spec fn queue_capacity(self) -> usize {
        match self.live_disk {
            LiveCacheDiskPolicy::Disabled => 1,
            LiveCacheDiskPolicy::Enabled { queue_capacity, .. } => if queue_capacity == 0 {
                1
            } else {
                queue_capacity
            },
        }
    }
}

impl View for PagedCacheOptions {
    type V = PagedCacheLimits;

    closed spec fn view(&self) -> PagedCacheLimits {
        PagedCacheLimits {
            block_size_tokens: self.block_size_tokens,
            device_budget_bytes: self.device_budget_bytes,
            host_budget_bytes: self.host_budget_bytes,
            recent_device_blocks: self.recent_device_blocks,
            eviction_policy: self.eviction_policy,
            full_attention: self.full_attention,
            retain_discarded_for_persistence: self.retain_discarded_for_persistence,
            live_disk: self.live_disk,
            sample_process: self.sample_process,
        }
    }
}

/// Why [`PagedCacheOptions::new`] refuses its limits, if it does.
pub open spec fn paged_limits_failure(
    block_size_tokens: i32,
    device_budget_bytes: u64,
    recent_device_blocks: usize,
) -> Option<CacheFailure> {
    if block_size_tokens <= 0 {
        Some(CacheFailure::InvalidOptions("cache block size must be positive"@))
    } else if device_budget_bytes == 0 {
        Some(CacheFailure::InvalidOptions("paged cache device budget must be nonzero"@))
    } else if recent_device_blocks == 0 {
        Some(
            CacheFailure::InvalidOptions(
                "paged cache must protect at least one recent device block"@,
            ),
        )
    } else {
        None
    }
}

/// Why [`PagedCacheOptions::with_live_disk`] refuses its limits, if it does.
pub open spec fn live_disk_failure(
    directory: Seq<char>,
    budget_bytes: u64,
    queue_capacity: usize,
) -> Option<CacheFailure> {
    if budget_bytes == 0 {
        Some(CacheFailure::InvalidOptions("live cache disk budget must be nonzero"@))
    } else if queue_capacity == 0 {
        Some(CacheFailure::InvalidOptions("live cache disk queue capacity must be nonzero"@))
    } else if directory.len() == 0 {
        Some(CacheFailure::InvalidOptions("live cache disk directory must not be empty"@))
    } else {
        None
    }
}

impl PagedCacheOptions {
    #[verifier::type_invariant]
    spec fn limits_are_valid(self) -> bool {
        self@.valid()
    }

    /// Every option value has valid limits.
    pub fn check_valid(&self)
        ensures
            self@.valid(),
    {
        proof {
            use_type_invariant(self);
        }
    }

    /// Creates paged-cache limits. Every memory limit is finite and explicit.
    pub fn new(
        block_size_tokens: i32,
        device_budget_bytes: u64,
        host_budget_bytes: u64,
        recent_device_blocks: usize,
    ) -> (options: Result<Self, CacheResidencyError>)
        ensures
            crate::cache_residency::error::failure_of(options) == paged_limits_failure(
                block_size_tokens,
                device_budget_bytes,
                recent_device_blocks,
            ),
            options matches Ok(options) ==> options@.valid() && options@ == (PagedCacheLimits {
                block_size_tokens,
                device_budget_bytes,
                host_budget_bytes,
                recent_device_blocks,
                eviction_policy: CacheEvictionPolicy::LeastRecentlyUsed,
                full_attention: false,
                retain_discarded_for_persistence: false,
                live_disk: LiveCacheDiskPolicy::Disabled,
                sample_process: false,
            }),
    {
        if block_size_tokens <= 0 {
            return Err(
                CacheResidencyError::InvalidOptions(
                    "cache block size must be positive".to_owned(),
                ),
            );
        }
        if device_budget_bytes == 0 {
            return Err(
                CacheResidencyError::InvalidOptions(
                    "paged cache device budget must be nonzero".to_owned(),
                ),
            );
        }
        if recent_device_blocks == 0 {
            return Err(
                CacheResidencyError::InvalidOptions(
                    "paged cache must protect at least one recent device block".to_owned(),
                ),
            );
        }
        Ok(
            PagedCacheOptions {
                block_size_tokens,
                device_budget_bytes,
                host_budget_bytes,
                recent_device_blocks,
                eviction_policy: CacheEvictionPolicy::LeastRecentlyUsed,
                full_attention: false,
                retain_discarded_for_persistence: false,
                live_disk: LiveCacheDiskPolicy::Disabled,
                sample_process: false,
            },
        )
    }

    /// Enables exact blockwise full-context attention.
    pub fn with_full_attention(self, enabled: bool) -> (options: Self)
        ensures
            options@ == (PagedCacheLimits { full_attention: enabled, ..self@ }),
    {
        proof {
            use_type_invariant(&self);
        }
        PagedCacheOptions { full_attention: enabled, ..self }
    }

    /// Retains blocks older than a sliding window solely for later persistence.
    pub fn with_persistence_retention(self, enabled: bool) -> (options: Self)
        ensures
            options@ == (PagedCacheLimits { retain_discarded_for_persistence: enabled, ..self@ }),
    {
        proof {
            use_type_invariant(&self);
        }
        PagedCacheOptions { retain_discarded_for_persistence: enabled, ..self }
    }

    /// Selects deterministic block eviction ordering.
    pub fn with_eviction_policy(self, policy: CacheEvictionPolicy) -> (options: Self)
        ensures
            options@ == (PagedCacheLimits { eviction_policy: policy, ..self@ }),
    {
        proof {
            use_type_invariant(&self);
        }
        PagedCacheOptions { eviction_policy: policy, ..self }
    }

    /// Configures explicit live disk backing.
    pub fn with_live_disk(
        self,
        directory: String,
        budget_bytes: u64,
        queue_capacity: usize,
    ) -> (options: Result<Self, CacheResidencyError>)
        ensures
            crate::cache_residency::error::failure_of(options) == live_disk_failure(
                directory@,
                budget_bytes,
                queue_capacity,
            ),
            options matches Ok(options) ==> options@ == (PagedCacheLimits {
                live_disk: LiveCacheDiskPolicy::Enabled { directory, budget_bytes, queue_capacity },
                ..self@
            }),
    {
        proof {
            use_type_invariant(&self);
        }
        if budget_bytes == 0 {
            return Err(
                CacheResidencyError::InvalidOptions(
                    "live cache disk budget must be nonzero".to_owned(),
                ),
            );
        }
        if queue_capacity == 0 {
            return Err(
                CacheResidencyError::InvalidOptions(
                    "live cache disk queue capacity must be nonzero".to_owned(),
                ),
            );
        }
        if directory.as_str().is_empty() {
            return Err(
                CacheResidencyError::InvalidOptions(
                    "live cache disk directory must not be empty".to_owned(),
                ),
            );
        }
        Ok(
            PagedCacheOptions {
                live_disk: LiveCacheDiskPolicy::Enabled { directory, budget_bytes, queue_capacity },
                ..self
            },
        )
    }

    /// Enables optional process-memory sampling in reports.
    pub fn with_process_sampling(self, enabled: bool) -> (options: Self)
        ensures
            options@ == (PagedCacheLimits { sample_process: enabled, ..self@ }),
    {
        proof {
            use_type_invariant(&self);
        }
        PagedCacheOptions { sample_process: enabled, ..self }
    }

    /// Returns the block size in tokens.
    pub fn block_size_tokens(&self) -> (size: i32)
        ensures
            size == self@.block_size_tokens,
    {
        self.block_size_tokens
    }

    /// Returns the finite logical device-cache budget.
    pub fn device_budget_bytes(&self) -> (budget: u64)
        ensures
            budget == self@.device_budget_bytes,
    {
        self.device_budget_bytes
    }

    /// Returns the finite logical host-cache budget.
    pub fn host_budget_bytes(&self) -> (budget: u64)
        ensures
            budget == self@.host_budget_bytes,
    {
        self.host_budget_bytes
    }

    /// Returns the recent block count protected on the execution device per layer.
    pub fn recent_device_blocks(&self) -> (count: usize)
        ensures
            count == self@.recent_device_blocks,
    {
        self.recent_device_blocks
    }

    /// Returns the block eviction ordering.
    pub fn eviction_policy(&self) -> (policy: CacheEvictionPolicy)
        ensures
            policy == self@.eviction_policy,
    {
        self.eviction_policy
    }

    /// Returns whether exact blockwise full attention is enabled.
    pub fn full_attention_enabled(&self) -> (enabled: bool)
        ensures
            enabled == self@.full_attention,
    {
        self.full_attention
    }

    /// Returns whether discarded sliding state is retained for persistence.
    pub fn retains_discarded_for_persistence(&self) -> (retained: bool)
        ensures
            retained == self@.retain_discarded_for_persistence,
    {
        self.retain_discarded_for_persistence
    }

    /// Returns whether reports sample process memory.
    pub fn samples_process(&self) -> (sampled: bool)
        ensures
            sampled == self@.sample_process,
    {
        self.sample_process
    }

    /// Returns the live disk policy.
    pub fn live_disk_policy(&self) -> (policy: &LiveCacheDiskPolicy)
        ensures
            *policy == self@.live_disk,
    {
        &self.live_disk
    }

    /// Returns the finite live-disk budget, when live disk backing is enabled.
    pub fn disk_budget(&self) -> (budget: Option<u64>)
        ensures
            budget == self@.disk_budget(),
    {
        match &self.live_disk {
            LiveCacheDiskPolicy::Disabled => None,
            LiveCacheDiskPolicy::Enabled { budget_bytes, .. } => Some(*budget_bytes),
        }
    }

    /// Returns the effective bound on pending disk requests.
    pub fn queue_capacity(&self) -> (capacity: usize)
        ensures
            capacity == self@.queue_capacity(),
            capacity > 0,
    {
        match &self.live_disk {
            LiveCacheDiskPolicy::Disabled => 1,
            LiveCacheDiskPolicy::Enabled { queue_capacity, .. } => if *queue_capacity == 0 {
                1
            } else {
                *queue_capacity
            },
        }
    }
}

/// The disk queue always has room for a request, and as much as was asked for where there
/// is a disk; a disk budget exists exactly where live disk backing is enabled.
pub proof fn disk_queues_have_room(limits: PagedCacheLimits)
    ensures
        limits.queue_capacity() > 0,
        limits.live_disk matches LiveCacheDiskPolicy::Enabled { queue_capacity, .. } ==> (
        queue_capacity > 0 ==> limits.queue_capacity() == queue_capacity),
        limits.live_disk is Disabled ==> limits.queue_capacity() == 1,
        limits.disk_budget() is Some <==> limits.live_disk is Enabled,
        limits.live_disk matches LiveCacheDiskPolicy::Enabled { budget_bytes, .. }
            ==> limits.disk_budget() == Some(budget_bytes),
{
}

/// Limits are valid exactly where each of them can be met: blocks hold tokens, the device
/// holds bytes and protects a block, and a disk has a place, a budget and a queue.
pub proof fn valid_limits_can_be_met(limits: PagedCacheLimits)
    ensures
        limits.valid() <==> {
            &&& limits.block_size_tokens > 0
            &&& limits.device_budget_bytes > 0
            &&& limits.recent_device_blocks > 0
            &&& limits.live_disk is Enabled ==> {
                &&& limits.live_disk->directory@.len() > 0
                &&& limits.live_disk->budget_bytes > 0
                &&& limits.live_disk->queue_capacity > 0
            }
        },
{
}

} // verus!
