//! Residency statistics and their mathematical totals.

use vstd::prelude::*;

verus! {

/// Maximum number of individually identified layers in a residency report.
///
/// Additional active layers are folded into
/// [`CacheResidencyReport::per_layer_overflow`], so report size is independent
/// of caller-provided layer identifiers and remains bounded.
pub const CACHE_RESIDENCY_LAYER_REPORT_LIMIT: usize = 128;

/// Current residency and cumulative activity attributable to one layer or a
/// bounded overflow group of layers.
#[derive(Debug, Clone, Copy, PartialEq, Eq)]
pub struct CacheLayerResidencyStats {
    /// Logical cached tokens. For an overflow aggregate this is the sum of the
    /// per-layer logical token counts rather than a shared sequence length.
    pub logical_cached_tokens: u64,
    /// Sealed key/value blocks.
    pub key_value_blocks: u64,
    /// Sealed compressed-latent/rotary blocks.
    pub compressed_latent_blocks: u64,
    /// Blocks cataloged on the execution device.
    pub device_blocks: u64,
    /// Blocks cataloged in host memory.
    pub host_blocks: u64,
    /// Blocks cataloged on disk.
    pub disk_blocks: u64,
    /// Current logical device bytes, including mutable tails.
    pub current_device_bytes: u64,
    /// Current logical host bytes, including arrays retained by in-flight writes.
    pub current_host_bytes: u64,
    /// Current logical disk bytes.
    pub current_disk_bytes: u64,
    /// Current bytes in mutable tails.
    pub mutable_tail_bytes: u64,
    /// Blocks whose host staging arrays are owned by background disk writes.
    pub in_flight_write_blocks: u64,
    /// Logical bytes owned by background disk writes.
    pub in_flight_write_bytes: u64,
    /// Prefix or sink blocks protected for attention.
    pub protected_prefix_blocks: u64,
    /// Recent device blocks protected from demotion.
    pub protected_recent_blocks: u64,
    /// Cumulative promotions from host memory to the execution device.
    pub host_promotions: u64,
    /// Cumulative promotions from disk to the execution device.
    pub disk_promotions: u64,
    /// Cumulative demotions from the execution device to host memory.
    pub host_demotions: u64,
    /// Cumulative demotions to disk.
    pub disk_demotions: u64,
    /// Cumulative logical bytes transferred between tiers.
    pub transfer_bytes: u64,
    /// Cumulative nanoseconds spent waiting for layer-attributable transfers.
    pub transfer_wait: u128,
    /// Cumulative demand accesses already resident on the execution device.
    pub demand_hits: u64,
    /// Cumulative demand accesses that required promotion.
    pub demand_misses: u64,
    /// Cumulative waits that joined or awaited an in-flight disk operation.
    pub in_flight_waits: u64,
    /// Cumulative layer-attributable residency or transfer failures.
    pub failures: u64,
    /// Sealed and mutable blocks scanned by full attention during prefill.
    pub prefill_full_attention_blocks: u64,
    /// Logical bytes scanned by full attention during prefill.
    pub prefill_full_attention_bytes: u64,
    /// Sealed and mutable blocks scanned by full attention during decode.
    pub decode_full_attention_blocks: u64,
    /// Logical bytes scanned by full attention during decode.
    pub decode_full_attention_bytes: u64,
    /// Peak logical scratch bytes used by this layer's attention.
    pub attention_scratch_peak_bytes: u64,
}

/// Cumulative activity of one layer or of every layer without its own row.
#[derive(Debug, Clone, Copy, PartialEq, Eq)]
pub struct CacheLayerActivityCounters {
    /// Cumulative promotions from host memory to the execution device.
    pub host_promotions: u64,
    /// Cumulative promotions from disk to the execution device.
    pub disk_promotions: u64,
    /// Cumulative demotions from the execution device to host memory.
    pub host_demotions: u64,
    /// Cumulative demotions to disk.
    pub disk_demotions: u64,
    /// Cumulative logical bytes transferred between tiers.
    pub transfer_bytes: u64,
    /// Cumulative nanoseconds spent waiting for layer-attributable transfers.
    pub transfer_wait: u128,
    /// Cumulative demand accesses already resident on the execution device.
    pub demand_hits: u64,
    /// Cumulative demand accesses that required promotion.
    pub demand_misses: u64,
    /// Cumulative waits that joined or awaited an in-flight disk operation.
    pub in_flight_waits: u64,
    /// Cumulative layer-attributable residency or transfer failures.
    pub failures: u64,
    /// Sealed and mutable blocks scanned by full attention during prefill.
    pub prefill_full_attention_blocks: u64,
    /// Logical bytes scanned by full attention during prefill.
    pub prefill_full_attention_bytes: u64,
    /// Sealed and mutable blocks scanned by full attention during decode.
    pub decode_full_attention_blocks: u64,
    /// Logical bytes scanned by full attention during decode.
    pub decode_full_attention_bytes: u64,
    /// Peak logical scratch bytes used by this layer's attention.
    pub attention_scratch_peak_bytes: u64,
}

/// Blocks and bytes held in each place, as mathematical totals.
pub struct Holdings {
    pub key_value_blocks: int,
    pub compressed_latent_blocks: int,
    pub device_blocks: int,
    pub host_blocks: int,
    pub disk_blocks: int,
    pub current_device_bytes: int,
    pub current_host_bytes: int,
    pub current_disk_bytes: int,
    pub mutable_tail_bytes: int,
    pub in_flight_write_blocks: int,
    pub in_flight_write_bytes: int,
    pub protected_prefix_blocks: int,
    pub recent_candidates: int,
}

/// Cumulative activity as mathematical totals; the scratch peak is a maximum.
pub struct Activity {
    pub host_promotions: int,
    pub disk_promotions: int,
    pub host_demotions: int,
    pub disk_demotions: int,
    pub transfer_bytes: int,
    pub transfer_wait: int,
    pub demand_hits: int,
    pub demand_misses: int,
    pub in_flight_waits: int,
    pub failures: int,
    pub prefill_full_attention_blocks: int,
    pub prefill_full_attention_bytes: int,
    pub decode_full_attention_blocks: int,
    pub decode_full_attention_bytes: int,
    pub attention_scratch_peak_bytes: int,
}

/// Everything a per-layer row or an overflow aggregate says.
pub struct LayerTotals {
    pub logical_cached_tokens: int,
    pub holdings: Holdings,
    pub protected_recent_blocks: int,
    pub activity: Activity,
}

impl Holdings {
    /// Nothing held.
    pub open spec fn zero() -> Holdings {
        Holdings {
            key_value_blocks: 0,
            compressed_latent_blocks: 0,
            device_blocks: 0,
            host_blocks: 0,
            disk_blocks: 0,
            current_device_bytes: 0,
            current_host_bytes: 0,
            current_disk_bytes: 0,
            mutable_tail_bytes: 0,
            in_flight_write_blocks: 0,
            in_flight_write_bytes: 0,
            protected_prefix_blocks: 0,
            recent_candidates: 0,
        }
    }

    /// Holdings of two disjoint groups together.
    pub open spec fn plus(self, other: Holdings) -> Holdings {
        Holdings {
            key_value_blocks: self.key_value_blocks + other.key_value_blocks,
            compressed_latent_blocks: self.compressed_latent_blocks + other.compressed_latent_blocks,
            device_blocks: self.device_blocks + other.device_blocks,
            host_blocks: self.host_blocks + other.host_blocks,
            disk_blocks: self.disk_blocks + other.disk_blocks,
            current_device_bytes: self.current_device_bytes + other.current_device_bytes,
            current_host_bytes: self.current_host_bytes + other.current_host_bytes,
            current_disk_bytes: self.current_disk_bytes + other.current_disk_bytes,
            mutable_tail_bytes: self.mutable_tail_bytes + other.mutable_tail_bytes,
            in_flight_write_blocks: self.in_flight_write_blocks + other.in_flight_write_blocks,
            in_flight_write_bytes: self.in_flight_write_bytes + other.in_flight_write_bytes,
            protected_prefix_blocks: self.protected_prefix_blocks + other.protected_prefix_blocks,
            recent_candidates: self.recent_candidates + other.recent_candidates,
        }
    }

    /// Whether no component exceeds the given number of blocks or bytes.
    pub open spec fn within(self, blocks: int, bytes: int) -> bool {
        &&& 0 <= self.key_value_blocks <= blocks
        &&& 0 <= self.compressed_latent_blocks <= blocks
        &&& 0 <= self.device_blocks <= blocks
        &&& 0 <= self.host_blocks <= blocks
        &&& 0 <= self.disk_blocks <= blocks
        &&& 0 <= self.current_device_bytes <= bytes
        &&& 0 <= self.current_host_bytes <= bytes
        &&& 0 <= self.current_disk_bytes <= bytes
        &&& 0 <= self.mutable_tail_bytes <= bytes
        &&& 0 <= self.in_flight_write_blocks <= blocks
        &&& 0 <= self.in_flight_write_bytes <= bytes
        &&& 0 <= self.protected_prefix_blocks <= blocks
        &&& 0 <= self.recent_candidates <= blocks
    }

    /// The part of the holdings that rows report, without recent candidates.
    pub open spec fn reported(self) -> Holdings {
        Holdings { recent_candidates: 0, ..self }
    }
}

impl Activity {
    /// No activity.
    pub open spec fn zero() -> Activity {
        Activity {
            host_promotions: 0,
            disk_promotions: 0,
            host_demotions: 0,
            disk_demotions: 0,
            transfer_bytes: 0,
            transfer_wait: 0,
            demand_hits: 0,
            demand_misses: 0,
            in_flight_waits: 0,
            failures: 0,
            prefill_full_attention_blocks: 0,
            prefill_full_attention_bytes: 0,
            decode_full_attention_blocks: 0,
            decode_full_attention_bytes: 0,
            attention_scratch_peak_bytes: 0,
        }
    }

    /// Activity of two disjoint groups together.
    pub open spec fn plus(self, other: Activity) -> Activity {
        Activity {
            host_promotions: self.host_promotions + other.host_promotions,
            disk_promotions: self.disk_promotions + other.disk_promotions,
            host_demotions: self.host_demotions + other.host_demotions,
            disk_demotions: self.disk_demotions + other.disk_demotions,
            transfer_bytes: self.transfer_bytes + other.transfer_bytes,
            transfer_wait: self.transfer_wait + other.transfer_wait,
            demand_hits: self.demand_hits + other.demand_hits,
            demand_misses: self.demand_misses + other.demand_misses,
            in_flight_waits: self.in_flight_waits + other.in_flight_waits,
            failures: self.failures + other.failures,
            prefill_full_attention_blocks: self.prefill_full_attention_blocks + other.prefill_full_attention_blocks,
            prefill_full_attention_bytes: self.prefill_full_attention_bytes + other.prefill_full_attention_bytes,
            decode_full_attention_blocks: self.decode_full_attention_blocks + other.decode_full_attention_blocks,
            decode_full_attention_bytes: self.decode_full_attention_bytes + other.decode_full_attention_bytes,
            attention_scratch_peak_bytes: if self.attention_scratch_peak_bytes >= other.attention_scratch_peak_bytes {
                self.attention_scratch_peak_bytes
            } else {
                other.attention_scratch_peak_bytes
            },
        }
    }

    /// Whether no counter exceeds that of `other`.
    pub open spec fn at_most(self, other: Activity) -> bool {
        &&& self.host_promotions <= other.host_promotions
        &&& self.disk_promotions <= other.disk_promotions
        &&& self.host_demotions <= other.host_demotions
        &&& self.disk_demotions <= other.disk_demotions
        &&& self.transfer_bytes <= other.transfer_bytes
        &&& self.transfer_wait <= other.transfer_wait
        &&& self.demand_hits <= other.demand_hits
        &&& self.demand_misses <= other.demand_misses
        &&& self.in_flight_waits <= other.in_flight_waits
        &&& self.failures <= other.failures
        &&& self.prefill_full_attention_blocks <= other.prefill_full_attention_blocks
        &&& self.prefill_full_attention_bytes <= other.prefill_full_attention_bytes
        &&& self.decode_full_attention_blocks <= other.decode_full_attention_blocks
        &&& self.decode_full_attention_bytes <= other.decode_full_attention_bytes
        &&& self.attention_scratch_peak_bytes <= other.attention_scratch_peak_bytes
    }

    /// Whether every counter fits its machine representation.
    pub open spec fn fits(self) -> bool {
        &&& 0 <= self.host_promotions <= u64::MAX
        &&& 0 <= self.disk_promotions <= u64::MAX
        &&& 0 <= self.host_demotions <= u64::MAX
        &&& 0 <= self.disk_demotions <= u64::MAX
        &&& 0 <= self.transfer_bytes <= u64::MAX
        &&& 0 <= self.transfer_wait <= u128::MAX
        &&& 0 <= self.demand_hits <= u64::MAX
        &&& 0 <= self.demand_misses <= u64::MAX
        &&& 0 <= self.in_flight_waits <= u64::MAX
        &&& 0 <= self.failures <= u64::MAX
        &&& 0 <= self.prefill_full_attention_blocks <= u64::MAX
        &&& 0 <= self.prefill_full_attention_bytes <= u64::MAX
        &&& 0 <= self.decode_full_attention_blocks <= u64::MAX
        &&& 0 <= self.decode_full_attention_bytes <= u64::MAX
        &&& 0 <= self.attention_scratch_peak_bytes <= u64::MAX
    }
}

impl LayerTotals {
    /// No tokens, holdings or activity.
    pub open spec fn zero() -> LayerTotals {
        LayerTotals {
            logical_cached_tokens: 0,
            holdings: Holdings::zero(),
            protected_recent_blocks: 0,
            activity: Activity::zero(),
        }
    }

    /// Totals of two disjoint groups of layers together.
    pub open spec fn plus(self, other: LayerTotals) -> LayerTotals {
        LayerTotals {
            logical_cached_tokens: self.logical_cached_tokens + other.logical_cached_tokens,
            holdings: self.holdings.plus(other.holdings),
            protected_recent_blocks: self.protected_recent_blocks + other.protected_recent_blocks,
            activity: self.activity.plus(other.activity),
        }
    }

    /// Whether every component fits its machine representation.
    pub open spec fn fits(self) -> bool {
        &&& 0 <= self.logical_cached_tokens <= u64::MAX
        &&& self.holdings.within(u64::MAX as int, u64::MAX as int)
        &&& 0 <= self.protected_recent_blocks <= u64::MAX
        &&& self.activity.fits()
    }
}

impl View for CacheLayerActivityCounters {
    type V = Activity;

    open spec fn view(&self) -> Activity {
        Activity {
            host_promotions: self.host_promotions as int,
            disk_promotions: self.disk_promotions as int,
            host_demotions: self.host_demotions as int,
            disk_demotions: self.disk_demotions as int,
            transfer_bytes: self.transfer_bytes as int,
            transfer_wait: self.transfer_wait as int,
            demand_hits: self.demand_hits as int,
            demand_misses: self.demand_misses as int,
            in_flight_waits: self.in_flight_waits as int,
            failures: self.failures as int,
            prefill_full_attention_blocks: self.prefill_full_attention_blocks as int,
            prefill_full_attention_bytes: self.prefill_full_attention_bytes as int,
            decode_full_attention_blocks: self.decode_full_attention_blocks as int,
            decode_full_attention_bytes: self.decode_full_attention_bytes as int,
            attention_scratch_peak_bytes: self.attention_scratch_peak_bytes as int,
        }
    }
}

impl View for CacheLayerResidencyStats {
    type V = LayerTotals;

    open spec fn view(&self) -> LayerTotals {
        LayerTotals {
            logical_cached_tokens: self.logical_cached_tokens as int,
            holdings: Holdings {
                key_value_blocks: self.key_value_blocks as int,
                compressed_latent_blocks: self.compressed_latent_blocks as int,
                device_blocks: self.device_blocks as int,
                host_blocks: self.host_blocks as int,
                disk_blocks: self.disk_blocks as int,
                current_device_bytes: self.current_device_bytes as int,
                current_host_bytes: self.current_host_bytes as int,
                current_disk_bytes: self.current_disk_bytes as int,
                mutable_tail_bytes: self.mutable_tail_bytes as int,
                in_flight_write_blocks: self.in_flight_write_blocks as int,
                in_flight_write_bytes: self.in_flight_write_bytes as int,
                protected_prefix_blocks: self.protected_prefix_blocks as int,
                recent_candidates: 0,
            },
            protected_recent_blocks: self.protected_recent_blocks as int,
            activity: Activity {
                host_promotions: self.host_promotions as int,
                disk_promotions: self.disk_promotions as int,
                host_demotions: self.host_demotions as int,
                disk_demotions: self.disk_demotions as int,
                transfer_bytes: self.transfer_bytes as int,
                transfer_wait: self.transfer_wait as int,
                demand_hits: self.demand_hits as int,
                demand_misses: self.demand_misses as int,
                in_flight_waits: self.in_flight_waits as int,
                failures: self.failures as int,
                prefill_full_attention_blocks: self.prefill_full_attention_blocks as int,
                prefill_full_attention_bytes: self.prefill_full_attention_bytes as int,
                decode_full_attention_blocks: self.decode_full_attention_blocks as int,
                decode_full_attention_bytes: self.decode_full_attention_bytes as int,
                attention_scratch_peak_bytes: self.attention_scratch_peak_bytes as int,
            },
        }
    }
}

impl CacheLayerActivityCounters {
    /// No activity.
    pub fn none() -> (counters: Self)
        ensures
            counters@ == Activity::zero(),
    {
        CacheLayerActivityCounters {
            host_promotions: 0,
            disk_promotions: 0,
            host_demotions: 0,
            disk_demotions: 0,
            transfer_bytes: 0,
            transfer_wait: 0,
            demand_hits: 0,
            demand_misses: 0,
            in_flight_waits: 0,
            failures: 0,
            prefill_full_attention_blocks: 0,
            prefill_full_attention_bytes: 0,
            decode_full_attention_blocks: 0,
            decode_full_attention_bytes: 0,
            attention_scratch_peak_bytes: 0,
        }
    }

    /// Adds the activity of a disjoint group.
    pub fn accumulate(&mut self, other: &CacheLayerActivityCounters)
        requires
            old(self)@.plus(other@).fits(),
        ensures
            final(self)@ == old(self)@.plus(other@),
    {
        self.host_promotions = self.host_promotions + other.host_promotions;
        self.disk_promotions = self.disk_promotions + other.disk_promotions;
        self.host_demotions = self.host_demotions + other.host_demotions;
        self.disk_demotions = self.disk_demotions + other.disk_demotions;
        self.transfer_bytes = self.transfer_bytes + other.transfer_bytes;
        self.transfer_wait = self.transfer_wait + other.transfer_wait;
        self.demand_hits = self.demand_hits + other.demand_hits;
        self.demand_misses = self.demand_misses + other.demand_misses;
        self.in_flight_waits = self.in_flight_waits + other.in_flight_waits;
        self.failures = self.failures + other.failures;
        self.prefill_full_attention_blocks = self.prefill_full_attention_blocks + other.prefill_full_attention_blocks;
        self.prefill_full_attention_bytes = self.prefill_full_attention_bytes + other.prefill_full_attention_bytes;
        self.decode_full_attention_blocks = self.decode_full_attention_blocks + other.decode_full_attention_blocks;
        self.decode_full_attention_bytes = self.decode_full_attention_bytes + other.decode_full_attention_bytes;
        if self.attention_scratch_peak_bytes < other.attention_scratch_peak_bytes {
            self.attention_scratch_peak_bytes = other.attention_scratch_peak_bytes;
        }
    }

    /// Adds this activity to a row of statistics.
    pub fn apply_to(&self, stats: &mut CacheLayerResidencyStats)
        requires
            old(stats)@.activity.plus(self@).fits(),
        ensures
            final(stats)@ == (LayerTotals { activity: old(stats)@.activity.plus(self@), ..old(stats)@ }),
    {
        stats.host_promotions = stats.host_promotions + self.host_promotions;
        stats.disk_promotions = stats.disk_promotions + self.disk_promotions;
        stats.host_demotions = stats.host_demotions + self.host_demotions;
        stats.disk_demotions = stats.disk_demotions + self.disk_demotions;
        stats.transfer_bytes = stats.transfer_bytes + self.transfer_bytes;
        stats.transfer_wait = stats.transfer_wait + self.transfer_wait;
        stats.demand_hits = stats.demand_hits + self.demand_hits;
        stats.demand_misses = stats.demand_misses + self.demand_misses;
        stats.in_flight_waits = stats.in_flight_waits + self.in_flight_waits;
        stats.failures = stats.failures + self.failures;
        stats.prefill_full_attention_blocks = stats.prefill_full_attention_blocks + self.prefill_full_attention_blocks;
        stats.prefill_full_attention_bytes = stats.prefill_full_attention_bytes + self.prefill_full_attention_bytes;
        stats.decode_full_attention_blocks = stats.decode_full_attention_blocks + self.decode_full_attention_blocks;
        stats.decode_full_attention_bytes = stats.decode_full_attention_bytes + self.decode_full_attention_bytes;
        if stats.attention_scratch_peak_bytes < self.attention_scratch_peak_bytes {
            stats.attention_scratch_peak_bytes = self.attention_scratch_peak_bytes;
        }
    }
}

impl Default for CacheLayerActivityCounters {
    fn default() -> (counters: Self)
        ensures
            counters@ == Activity::zero(),
    {
        CacheLayerActivityCounters::none()
    }
}

impl Default for CacheLayerResidencyStats {
    fn default() -> (stats: Self)
        ensures
            stats@ == LayerTotals::zero(),
    {
        CacheLayerResidencyStats {
            logical_cached_tokens: 0,
            key_value_blocks: 0,
            compressed_latent_blocks: 0,
            device_blocks: 0,
            host_blocks: 0,
            disk_blocks: 0,
            current_device_bytes: 0,
            current_host_bytes: 0,
            current_disk_bytes: 0,
            mutable_tail_bytes: 0,
            in_flight_write_blocks: 0,
            in_flight_write_bytes: 0,
            protected_prefix_blocks: 0,
            protected_recent_blocks: 0,
            host_promotions: 0,
            disk_promotions: 0,
            host_demotions: 0,
            disk_demotions: 0,
            transfer_bytes: 0,
            transfer_wait: 0,
            demand_hits: 0,
            demand_misses: 0,
            in_flight_waits: 0,
            failures: 0,
            prefill_full_attention_blocks: 0,
            prefill_full_attention_bytes: 0,
            decode_full_attention_blocks: 0,
            decode_full_attention_bytes: 0,
            attention_scratch_peak_bytes: 0,
        }
    }
}

impl CacheLayerResidencyStats {
    /// Adds the statistics of a disjoint group of layers.
    pub fn accumulate(&mut self, other: &CacheLayerResidencyStats)
        requires
            old(self)@.plus(other@).fits(),
        ensures
            final(self)@ == old(self)@.plus(other@),
    {
        self.logical_cached_tokens = self.logical_cached_tokens + other.logical_cached_tokens;
        self.key_value_blocks = self.key_value_blocks + other.key_value_blocks;
        self.compressed_latent_blocks = self.compressed_latent_blocks + other.compressed_latent_blocks;
        self.device_blocks = self.device_blocks + other.device_blocks;
        self.host_blocks = self.host_blocks + other.host_blocks;
        self.disk_blocks = self.disk_blocks + other.disk_blocks;
        self.current_device_bytes = self.current_device_bytes + other.current_device_bytes;
        self.current_host_bytes = self.current_host_bytes + other.current_host_bytes;
        self.current_disk_bytes = self.current_disk_bytes + other.current_disk_bytes;
        self.mutable_tail_bytes = self.mutable_tail_bytes + other.mutable_tail_bytes;
        self.in_flight_write_blocks = self.in_flight_write_blocks + other.in_flight_write_blocks;
        self.in_flight_write_bytes = self.in_flight_write_bytes + other.in_flight_write_bytes;
        self.protected_prefix_blocks = self.protected_prefix_blocks + other.protected_prefix_blocks;
        self.protected_recent_blocks = self.protected_recent_blocks + other.protected_recent_blocks;
        self.host_promotions = self.host_promotions + other.host_promotions;
        self.disk_promotions = self.disk_promotions + other.disk_promotions;
        self.host_demotions = self.host_demotions + other.host_demotions;
        self.disk_demotions = self.disk_demotions + other.disk_demotions;
        self.transfer_bytes = self.transfer_bytes + other.transfer_bytes;
        self.transfer_wait = self.transfer_wait + other.transfer_wait;
        self.demand_hits = self.demand_hits + other.demand_hits;
        self.demand_misses = self.demand_misses + other.demand_misses;
        self.in_flight_waits = self.in_flight_waits + other.in_flight_waits;
        self.failures = self.failures + other.failures;
        self.prefill_full_attention_blocks = self.prefill_full_attention_blocks + other.prefill_full_attention_blocks;
        self.prefill_full_attention_bytes = self.prefill_full_attention_bytes + other.prefill_full_attention_bytes;
        self.decode_full_attention_blocks = self.decode_full_attention_blocks + other.decode_full_attention_blocks;
        self.decode_full_attention_bytes = self.decode_full_attention_bytes + other.decode_full_attention_bytes;
        if self.attention_scratch_peak_bytes < other.attention_scratch_peak_bytes {
            self.attention_scratch_peak_bytes = other.attention_scratch_peak_bytes;
        }
    }
}

/// Bounded, individually identified per-layer residency observations.
#[derive(Debug, Clone, Copy, PartialEq, Eq)]
pub struct CacheLayerResidencyReport {
    /// Global model layer identifier.
    pub global_layer: usize,
    /// Current residency and cumulative activity for this layer.
    pub stats: CacheLayerResidencyStats,
}

/// Aggregated logical residency and transfer observations.
#[derive(Debug, Clone, PartialEq, Eq)]
pub struct CacheResidencyReport {
    /// Absolute token count represented by the longest layer.
    pub logical_cached_tokens: u64,
    /// Sealed key/value blocks.
    pub key_value_blocks: u64,
    /// Sealed compressed-latent/rotary blocks.
    pub compressed_latent_blocks: u64,
    /// Blocks cataloged on the execution device.
    pub device_blocks: u64,
    /// Blocks cataloged in host memory.
    pub host_blocks: u64,
    /// Blocks cataloged on disk.
    pub disk_blocks: u64,
    /// Current logical device bytes, including mutable tails.
    pub current_device_bytes: u64,
    /// Current logical host bytes, including arrays retained by in-flight writes.
    pub current_host_bytes: u64,
    /// Current logical disk bytes.
    pub current_disk_bytes: u64,
    /// Current bytes in mutable tails.
    pub mutable_tail_bytes: u64,
    /// Blocks whose host staging arrays are owned by background disk writes.
    pub in_flight_write_blocks: u64,
    /// Logical bytes owned by background disk writes.
    pub in_flight_write_bytes: u64,
    /// Prefix or sink blocks protected for attention.
    pub protected_prefix_blocks: u64,
    /// Peak successfully admitted logical device bytes.
    pub peak_device_bytes: u64,
    /// Peak successfully admitted logical host bytes.
    pub peak_host_bytes: u64,
    /// Peak successfully admitted logical disk bytes.
    pub peak_disk_bytes: u64,
    /// Peak logical bytes owned by background disk writes.
    pub peak_in_flight_write_bytes: u64,
    /// Recent blocks protected from device demotion.
    pub protected_recent_blocks: u64,
    /// Current residency and cumulative per-layer activity, sorted by global
    /// layer and capped by [`CACHE_RESIDENCY_LAYER_REPORT_LIMIT`].
    pub per_layer: Vec<CacheLayerResidencyReport>,
    /// Number of active layers folded into `per_layer_overflow`.
    pub per_layer_overflow_layers: u64,
    /// Exact current aggregate of active omitted layers plus cumulative
    /// activity for every layer without an identified row.
    pub per_layer_overflow: CacheLayerResidencyStats,
    /// Cumulative promotions from host memory to the execution device.
    pub host_promotions: u64,
    /// Cumulative promotions from disk to the execution device.
    pub disk_promotions: u64,
    /// Cumulative demotions from the execution device to host memory.
    pub host_demotions: u64,
    /// Cumulative demotions to disk.
    pub disk_demotions: u64,
    /// Cumulative logical bytes transferred between tiers.
    pub transfer_bytes: u64,
    /// Cumulative nanoseconds spent waiting for layer-attributable transfers.
    pub transfer_wait: u128,
    /// Cumulative demand accesses already resident on the execution device.
    pub demand_hits: u64,
    /// Cumulative demand accesses that required promotion.
    pub demand_misses: u64,
    /// Cumulative waits that joined or awaited an in-flight disk operation.
    pub in_flight_waits: u64,
    /// Cumulative layer-attributable residency or transfer failures.
    pub failures: u64,
    /// Sealed and mutable blocks scanned by full attention during prefill.
    pub prefill_full_attention_blocks: u64,
    /// Logical bytes scanned by full attention during prefill.
    pub prefill_full_attention_bytes: u64,
    /// Sealed and mutable blocks scanned by full attention during decode.
    pub decode_full_attention_blocks: u64,
    /// Logical bytes scanned by full attention during decode.
    pub decode_full_attention_bytes: u64,
    /// Peak logical scratch bytes used by attention.
    pub attention_scratch_peak_bytes: u64,
    /// Blocks evicted because all configured tiers were exhausted.
    pub evictions: u64,
    /// Sliding-window blocks discarded as semantically invisible.
    pub discarded_sliding_blocks: u64,
    /// Completed block seals.
    pub block_seals: u64,
    /// Mutable tail allocations.
    pub tail_allocations: u64,
    /// Effective bounded disk request queue capacity.
    pub queue_capacity: usize,
    /// Peak observed queue occupancy.
    pub queue_peak_occupancy: usize,
    /// Requests delayed by queue capacity.
    pub queue_backpressure: u64,
    /// Requests canceled by reset or truncation.
    pub cancellations: u64,
    /// Successful prompt-cache saves.
    pub prompt_cache_saves: u64,
    /// Successful prompt-cache loads.
    pub prompt_cache_loads: u64,
    /// Logical bytes written or cataloged for prompt caches.
    pub prompt_cache_bytes: u64,
    /// Imported persistent shard count.
    pub imported_mapped_shards: u64,
    /// Optional peak process resident-set size sampled from the operating system.
    pub process_rss_bytes: Option<u64>,
    /// Optional cumulative minor page faults.
    pub process_minor_page_faults: Option<u64>,
    /// Optional cumulative major page faults.
    pub process_major_page_faults: Option<u64>,
}

impl CacheResidencyReport {
    /// The cumulative activity over all layers.
    pub open spec fn activity(self) -> Activity {
        Activity {
            host_promotions: self.host_promotions as int,
            disk_promotions: self.disk_promotions as int,
            host_demotions: self.host_demotions as int,
            disk_demotions: self.disk_demotions as int,
            transfer_bytes: self.transfer_bytes as int,
            transfer_wait: self.transfer_wait as int,
            demand_hits: self.demand_hits as int,
            demand_misses: self.demand_misses as int,
            in_flight_waits: self.in_flight_waits as int,
            failures: self.failures as int,
            prefill_full_attention_blocks: self.prefill_full_attention_blocks as int,
            prefill_full_attention_bytes: self.prefill_full_attention_bytes as int,
            decode_full_attention_blocks: self.decode_full_attention_blocks as int,
            decode_full_attention_bytes: self.decode_full_attention_bytes as int,
            attention_scratch_peak_bytes: self.attention_scratch_peak_bytes as int,
        }
    }

    /// The blocks and bytes held over all layers.
    pub open spec fn holdings(self) -> Holdings {
        Holdings {
            key_value_blocks: self.key_value_blocks as int,
            compressed_latent_blocks: self.compressed_latent_blocks as int,
            device_blocks: self.device_blocks as int,
            host_blocks: self.host_blocks as int,
            disk_blocks: self.disk_blocks as int,
            current_device_bytes: self.current_device_bytes as int,
            current_host_bytes: self.current_host_bytes as int,
            current_disk_bytes: self.current_disk_bytes as int,
            mutable_tail_bytes: self.mutable_tail_bytes as int,
            in_flight_write_blocks: self.in_flight_write_blocks as int,
            in_flight_write_bytes: self.in_flight_write_bytes as int,
            protected_prefix_blocks: self.protected_prefix_blocks as int,
            recent_candidates: 0,
        }
    }

    /// This report with other cumulative activity.
    pub open spec fn with_activity(self, activity: Activity) -> CacheResidencyReport {
        CacheResidencyReport {
            host_promotions: activity.host_promotions as u64,
            disk_promotions: activity.disk_promotions as u64,
            host_demotions: activity.host_demotions as u64,
            disk_demotions: activity.disk_demotions as u64,
            transfer_bytes: activity.transfer_bytes as u64,
            transfer_wait: activity.transfer_wait as u128,
            demand_hits: activity.demand_hits as u64,
            demand_misses: activity.demand_misses as u64,
            in_flight_waits: activity.in_flight_waits as u64,
            failures: activity.failures as u64,
            prefill_full_attention_blocks: activity.prefill_full_attention_blocks as u64,
            prefill_full_attention_bytes: activity.prefill_full_attention_bytes as u64,
            decode_full_attention_blocks: activity.decode_full_attention_blocks as u64,
            decode_full_attention_bytes: activity.decode_full_attention_bytes as u64,
            attention_scratch_peak_bytes: activity.attention_scratch_peak_bytes as u64,
            ..self
        }
    }

    /// Whether nothing has been observed yet.
    pub open spec fn is_blank(self, queue_capacity: usize) -> bool {
        &&& self.activity() == Activity::zero()
        &&& self.holdings() == Holdings::zero()
        &&& self.queue_capacity == queue_capacity
        &&& self.logical_cached_tokens == 0
        &&& self.peak_device_bytes == 0
        &&& self.peak_host_bytes == 0
        &&& self.peak_disk_bytes == 0
        &&& self.peak_in_flight_write_bytes == 0
        &&& self.protected_recent_blocks == 0
        &&& self.per_layer_overflow_layers == 0
        &&& self.evictions == 0
        &&& self.discarded_sliding_blocks == 0
        &&& self.block_seals == 0
        &&& self.tail_allocations == 0
        &&& self.queue_backpressure == 0
        &&& self.cancellations == 0
        &&& self.prompt_cache_saves == 0
        &&& self.prompt_cache_loads == 0
        &&& self.prompt_cache_bytes == 0
        &&& self.imported_mapped_shards == 0
        &&& self.queue_peak_occupancy == 0
        &&& self.per_layer@ == Seq::<CacheLayerResidencyReport>::empty()
        &&& self.per_layer_overflow@ == LayerTotals::zero()
        &&& self.process_rss_bytes is None
        &&& self.process_minor_page_faults is None
        &&& self.process_major_page_faults is None
    }

    /// An empty report for a request queue of the given capacity.
    pub fn empty(queue_capacity: usize) -> (report: Self)
        ensures
            report.is_blank(queue_capacity),
    {
        CacheResidencyReport {
            logical_cached_tokens: 0,
            key_value_blocks: 0,
            compressed_latent_blocks: 0,
            device_blocks: 0,
            host_blocks: 0,
            disk_blocks: 0,
            current_device_bytes: 0,
            current_host_bytes: 0,
            current_disk_bytes: 0,
            mutable_tail_bytes: 0,
            in_flight_write_blocks: 0,
            in_flight_write_bytes: 0,
            protected_prefix_blocks: 0,
            peak_device_bytes: 0,
            peak_host_bytes: 0,
            peak_disk_bytes: 0,
            peak_in_flight_write_bytes: 0,
            protected_recent_blocks: 0,
            per_layer: Vec::new(),
            per_layer_overflow_layers: 0,
            per_layer_overflow: CacheLayerResidencyStats::default(),
            host_promotions: 0,
            disk_promotions: 0,
            host_demotions: 0,
            disk_demotions: 0,
            transfer_bytes: 0,
            transfer_wait: 0,
            demand_hits: 0,
            demand_misses: 0,
            in_flight_waits: 0,
            failures: 0,
            prefill_full_attention_blocks: 0,
            prefill_full_attention_bytes: 0,
            decode_full_attention_blocks: 0,
            decode_full_attention_bytes: 0,
            attention_scratch_peak_bytes: 0,
            evictions: 0,
            discarded_sliding_blocks: 0,
            block_seals: 0,
            tail_allocations: 0,
            queue_capacity: queue_capacity,
            queue_peak_occupancy: 0,
            queue_backpressure: 0,
            cancellations: 0,
            prompt_cache_saves: 0,
            prompt_cache_loads: 0,
            prompt_cache_bytes: 0,
            imported_mapped_shards: 0,
            process_rss_bytes: None,
            process_minor_page_faults: None,
            process_major_page_faults: None,
        }
    }

    /// Adds activity of one layer to the totals.
    pub fn add_activity(&mut self, delta: &CacheLayerActivityCounters)
        requires
            old(self).activity().plus(delta@).fits(),
        ensures
            *final(self) == old(self).with_activity(old(self).activity().plus(delta@)),
            final(self).activity() == old(self).activity().plus(delta@),
    {
        self.host_promotions = self.host_promotions + delta.host_promotions;
        self.disk_promotions = self.disk_promotions + delta.disk_promotions;
        self.host_demotions = self.host_demotions + delta.host_demotions;
        self.disk_demotions = self.disk_demotions + delta.disk_demotions;
        self.transfer_bytes = self.transfer_bytes + delta.transfer_bytes;
        self.transfer_wait = self.transfer_wait + delta.transfer_wait;
        self.demand_hits = self.demand_hits + delta.demand_hits;
        self.demand_misses = self.demand_misses + delta.demand_misses;
        self.in_flight_waits = self.in_flight_waits + delta.in_flight_waits;
        self.failures = self.failures + delta.failures;
        self.prefill_full_attention_blocks = self.prefill_full_attention_blocks + delta.prefill_full_attention_blocks;
        self.prefill_full_attention_bytes = self.prefill_full_attention_bytes + delta.prefill_full_attention_bytes;
        self.decode_full_attention_blocks = self.decode_full_attention_blocks + delta.decode_full_attention_blocks;
        self.decode_full_attention_bytes = self.decode_full_attention_bytes + delta.decode_full_attention_bytes;
        if self.attention_scratch_peak_bytes < delta.attention_scratch_peak_bytes {
            self.attention_scratch_peak_bytes = delta.attention_scratch_peak_bytes;
        }
    }
}

/// Holdings of disjoint groups add up, count by count and byte by byte.
pub proof fn holdings_add_up(left: Holdings, right: Holdings)
    ensures
        Holdings::zero().plus(right) == right,
        left.plus(Holdings::zero()) == left,
        left.plus(right).key_value_blocks == left.key_value_blocks + right.key_value_blocks,
        left.plus(right).compressed_latent_blocks == left.compressed_latent_blocks + right.compressed_latent_blocks,
        left.plus(right).device_blocks == left.device_blocks + right.device_blocks,
        left.plus(right).host_blocks == left.host_blocks + right.host_blocks,
        left.plus(right).disk_blocks == left.disk_blocks + right.disk_blocks,
        left.plus(right).current_device_bytes == left.current_device_bytes + right.current_device_bytes,
        left.plus(right).current_host_bytes == left.current_host_bytes + right.current_host_bytes,
        left.plus(right).current_disk_bytes == left.current_disk_bytes + right.current_disk_bytes,
        left.plus(right).mutable_tail_bytes == left.mutable_tail_bytes + right.mutable_tail_bytes,
        left.plus(right).in_flight_write_blocks == left.in_flight_write_blocks + right.in_flight_write_blocks,
        left.plus(right).in_flight_write_bytes == left.in_flight_write_bytes + right.in_flight_write_bytes,
        left.plus(right).protected_prefix_blocks == left.protected_prefix_blocks + right.protected_prefix_blocks,
        left.plus(right).recent_candidates == left.recent_candidates + right.recent_candidates,
        left.reported().recent_candidates == 0,
        left.reported().key_value_blocks == left.key_value_blocks,
        left.reported().compressed_latent_blocks == left.compressed_latent_blocks,
        left.reported().device_blocks == left.device_blocks,
        left.reported().host_blocks == left.host_blocks,
        left.reported().disk_blocks == left.disk_blocks,
        left.reported().current_device_bytes == left.current_device_bytes,
        left.reported().current_host_bytes == left.current_host_bytes,
        left.reported().current_disk_bytes == left.current_disk_bytes,
        left.reported().mutable_tail_bytes == left.mutable_tail_bytes,
        left.reported().in_flight_write_blocks == left.in_flight_write_blocks,
        left.reported().in_flight_write_bytes == left.in_flight_write_bytes,
        left.reported().protected_prefix_blocks == left.protected_prefix_blocks,
{
}

/// Activity adds up counter by counter, but for the peak of scratch memory: that is the
/// larger of both.
pub proof fn activity_adds_up(left: Activity, right: Activity)
    ensures
        left.attention_scratch_peak_bytes >= 0 ==> left.plus(Activity::zero()) == left,
        right.attention_scratch_peak_bytes >= 0 ==> Activity::zero().plus(right) == right,
        left.plus(right).host_promotions == left.host_promotions + right.host_promotions,
        left.plus(right).disk_promotions == left.disk_promotions + right.disk_promotions,
        left.plus(right).host_demotions == left.host_demotions + right.host_demotions,
        left.plus(right).disk_demotions == left.disk_demotions + right.disk_demotions,
        left.plus(right).transfer_bytes == left.transfer_bytes + right.transfer_bytes,
        left.plus(right).transfer_wait == left.transfer_wait + right.transfer_wait,
        left.plus(right).demand_hits == left.demand_hits + right.demand_hits,
        left.plus(right).demand_misses == left.demand_misses + right.demand_misses,
        left.plus(right).in_flight_waits == left.in_flight_waits + right.in_flight_waits,
        left.plus(right).failures == left.failures + right.failures,
        left.plus(right).prefill_full_attention_blocks == left.prefill_full_attention_blocks + right.prefill_full_attention_blocks,
        left.plus(right).prefill_full_attention_bytes == left.prefill_full_attention_bytes + right.prefill_full_attention_bytes,
        left.plus(right).decode_full_attention_blocks == left.decode_full_attention_blocks + right.decode_full_attention_blocks,
        left.plus(right).decode_full_attention_bytes == left.decode_full_attention_bytes + right.decode_full_attention_bytes,
        left.plus(right).attention_scratch_peak_bytes >= left.attention_scratch_peak_bytes,
        left.plus(right).attention_scratch_peak_bytes >= right.attention_scratch_peak_bytes,
        left.plus(right).attention_scratch_peak_bytes == left.attention_scratch_peak_bytes
            || left.plus(right).attention_scratch_peak_bytes == right.attention_scratch_peak_bytes,
{
}

/// The totals of layers add up part by part.
pub proof fn layer_totals_add_up(left: LayerTotals, right: LayerTotals)
    ensures
        left.plus(right).logical_cached_tokens == left.logical_cached_tokens
            + right.logical_cached_tokens,
        left.plus(right).protected_recent_blocks == left.protected_recent_blocks
            + right.protected_recent_blocks,
        left.plus(right).holdings == left.holdings.plus(right.holdings),
        left.plus(right).activity == left.activity.plus(right.activity),
{
}

} // verus!
