use safemlx_lm::cache_residency::append::check_seal;
use safemlx_lm::cache_residency::block::{
    CacheArray, CacheBlockArrays, CacheBlockId, CacheRepresentation, CacheTier,
};
use safemlx_lm::cache_residency::catalog::{CacheResidencyManager, DiskLocation};
use safemlx_lm::cache_residency::demotion::{DiskWriteResult, RebalanceStep};
use safemlx_lm::cache_residency::error::CacheResidencyError;
use safemlx_lm::cache_residency::fingerprint::derive_prompt_cache_architecture_fingerprint;
use safemlx_lm::cache_residency::lease::{DiskReply, DiskSubmissionOutcome, LeaseStep};
use safemlx_lm::cache_residency::manifest::{probe_shard, validate_manifest, ShardProbe};
use safemlx_lm::cache_residency::open::{
    open_prompt_cache, resolve_prompt_cache_root, GenerationPointer, ShardMapping,
};
use safemlx_lm::cache_residency::options::{
    CacheResidencyPolicy, LiveCacheDiskPolicy, PagedCacheOptions,
};
use safemlx_lm::cache_residency::prompt::{
    PromptCacheDescriptor, PromptCacheModelIdentity, PromptCacheOptions, PromptCacheTopology,
};
use safemlx_lm::cache_residency::rebalance::ProcessUsage;
use safemlx_lm::cache_residency::save::{plan_save, PromptCacheDestination};
use safemlx_lm::cache_residency::shard::{
    check_mapped_shard, hash_token_ids, is_sha256_hex, join_path, stored_dtype_name,
    verify_mapped_payload,
};
use safemlx_lm::cache_residency::truncate::{check_replacement, TrailingReplacement};
use safemlx_lm::cache_residency::worker::{
    DiskOperationKey, DiskOperationKind, DiskTicket, EnqueueStep,
};
use safemlx_lm::offload::CacheEvictionPolicy;

/// Runs the steps that the manager asks for, with numbers for arrays.
struct Runtime {
    manager: CacheResidencyManager,
    next_handle: u64,
}

fn key_value_block(handle: u64, tokens: i32) -> CacheBlockArrays {
    let array = |handle: u64| CacheArray {
        handle,
        shape: vec![1, 1, tokens, 1],
        dtype: "Float32".into(),
        nbytes: 4 * tokens as u64,
    };
    CacheBlockArrays::KeyValue { keys: array(handle), values: array(handle + 1) }
}

impl Runtime {
    fn new(options: PagedCacheOptions) -> Self {
        Runtime { manager: CacheResidencyManager::new(options, 7), next_handle: 100 }
    }

    fn fresh(&mut self, tokens: i32) -> CacheBlockArrays {
        self.next_handle += 2;
        key_value_block(self.next_handle, tokens)
    }

    fn submit(&mut self, ticket: &DiskTicket, send: bool) {
        let mut backpressure = false;
        if send {
            while self.manager.worker.enqueue(ticket) == EnqueueStep::Full {
                backpressure = true;
                self.run_disk();
            }
        }
        let outcome = DiskSubmissionOutcome {
            joined: !send,
            backpressure,
            peak_occupancy: self.manager.worker.peak_occupancy,
        };
        self.manager.finish_submission(ticket, outcome, 1);
    }

    /// Runs the oldest queued write.
    fn run_disk(&mut self) {
        let taken = self.manager.worker.dequeue().expect("work is queued");
        if taken.run {
            let location = DiskLocation {
                path: format!("/tmp/live/{}.safetensors", taken.ticket.key.id.start),
                first_name: "keys".into(),
                second_name: "values".into(),
                persistent: false,
                mapped: false,
                payload_sha256: None,
            };
            self.manager.reconcile(&taken.ticket.key, DiskWriteResult::Written(location));
            assert!(self.manager.worker.complete(&taken.ticket));
            let reservation = self
                .manager
                .host_write_reservations
                .iter()
                .find(|reservation| reservation.ticket == taken.ticket)
                .map(|reservation| reservation.reservation_id);
            if let Some(reservation) = reservation {
                self.manager.release_reservation(&taken.ticket.key, reservation);
            }
        }
    }

    fn await_write(&mut self, ticket: &DiskTicket) -> Result<(), CacheResidencyError> {
        while !self.manager.worker.is_ready(ticket) {
            self.run_disk();
        }
        self.manager.finish_host_release(ticket, 1, DiskReply::Written)
    }

    fn rebalance(&mut self, required: Option<&CacheBlockId>) -> Result<(), CacheResidencyError> {
        loop {
            match self.manager.rebalance_step(required)? {
                RebalanceStep::Continue => {}
                RebalanceStep::CopyToHost { id } => {
                    let copy = self.fresh(2);
                    self.manager.finish_host_copy(&id, copy);
                }
                RebalanceStep::Write { ticket, send, wait } => {
                    self.submit(&ticket, send);
                    if !wait {
                        return Ok(());
                    }
                    self.await_write(&ticket)?;
                }
                RebalanceStep::AwaitWrite { ticket } => self.await_write(&ticket)?,
                RebalanceStep::Done => return Ok(()),
            }
        }
    }

    fn seal(&mut self, start: i64, end: i64) -> Result<CacheBlockId, CacheResidencyError> {
        let arrays = self.fresh((end - start) as i32);
        let id = self.manager.begin_seal(0, start, end, None, arrays, false)?;
        if let Err(error) = self.rebalance(Some(&id)) {
            self.manager.abort_seal(&id);
            return Err(error);
        }
        self.manager.finish_seal();
        Ok(id)
    }

    fn lease(&mut self, id: &CacheBlockId) -> Result<(), CacheResidencyError> {
        let mut from_disk = false;
        loop {
            match self.manager.begin_lease(id, 1)? {
                LeaseStep::Leased => {
                    if let Err(error) = self.rebalance(Some(id)) {
                        self.manager.cancel_lease(id);
                        return Err(error);
                    }
                    return Ok(());
                }
                LeaseStep::CopyToDevice { generation } => {
                    let copy = self.fresh(2);
                    self.manager.finish_promotion(id, generation, copy, from_disk, 1)?;
                    return self.rebalance(Some(id));
                }
                LeaseStep::AwaitDisk { ticket, joined, send } => {
                    let outcome = if send {
                        assert_eq!(self.manager.worker.enqueue(&ticket), EnqueueStep::Sent);
                        let taken = self.manager.worker.dequeue().unwrap();
                        assert!(self.manager.worker.complete(&taken.ticket));
                        Some(DiskSubmissionOutcome {
                            joined: false,
                            backpressure: false,
                            peak_occupancy: 1,
                        })
                    } else {
                        None
                    };
                    let arrays = self.fresh(2);
                    self.manager.finish_disk_read(
                        id,
                        &ticket,
                        "/tmp/live/0.safetensors".into(),
                        joined,
                        outcome,
                        DiskReply::Read(arrays),
                    )?;
                    from_disk = true;
                }
            }
        }
    }

    fn record_handles(&self, id: &CacheBlockId) -> (CacheTier, Option<u64>) {
        let record = &self.manager.blocks[self.manager.find_block(id).unwrap()];
        (record.tier, record.arrays.as_ref().map(|arrays| arrays.first().handle))
    }
}

#[test]
fn host_demotion_and_promotion_replace_physical_array_copies() {
    // Two 16-byte blocks fit on the device. A third block forces the oldest
    // one to a distinct host allocation while retaining one recent block.
    let mut runtime = Runtime::new(PagedCacheOptions::new(2, 32, 16, 1).unwrap());
    let first = runtime.seal(0, 2).unwrap();
    let first_device = runtime.record_handles(&first).1;
    runtime.seal(2, 4).unwrap();
    runtime.seal(4, 6).unwrap();

    let (tier, first_host) = runtime.record_handles(&first);
    assert_eq!(tier, CacheTier::Host);
    assert_ne!(first_host, first_device);
    let report = runtime.manager.report(None);
    assert_eq!(report.device_blocks, 2);
    assert_eq!(report.host_blocks, 1);
    assert_eq!(report.current_device_bytes, 32);
    assert_eq!(report.current_host_bytes, 16);

    runtime.lease(&first).unwrap();
    let (tier, promoted) = runtime.record_handles(&first);
    assert_eq!(tier, CacheTier::Device);
    assert_ne!(promoted, first_host);
    if runtime.manager.release_lease(&first) {
        runtime.rebalance(None).unwrap();
    }

    let report = runtime.manager.report(None);
    assert_eq!(report.device_blocks, 2);
    assert_eq!(report.host_blocks, 1);
    assert_eq!(report.current_device_bytes, 32);
    assert_eq!(report.current_host_bytes, 16);
    assert_eq!(report.host_promotions, 1);
    assert_eq!(report.host_demotions, 2);
    let layer = report
        .per_layer
        .iter()
        .find(|layer| layer.global_layer == 0)
        .unwrap();
    assert_eq!(layer.stats.host_promotions, report.host_promotions);
    assert_eq!(layer.stats.host_demotions, report.host_demotions);
    assert_eq!(layer.stats.transfer_bytes, report.transfer_bytes);
    assert_eq!(layer.stats.demand_misses, report.demand_misses);
    assert_eq!(first.representation, CacheRepresentation::KeyValue);
}

#[test]
fn host_to_disk_demotion_returns_before_background_write_completes() {
    let options = PagedCacheOptions::new(2, 16, 16, 1)
        .unwrap()
        .with_live_disk("/tmp/live".into(), 1024, 1)
        .unwrap();
    let mut runtime = Runtime::new(options);
    runtime.seal(0, 2).unwrap();
    runtime.seal(2, 4).unwrap();
    let report = runtime.manager.report(None);
    assert_eq!(report.in_flight_write_blocks, 1);
    assert_eq!(report.in_flight_write_bytes, 16);
    assert_eq!(report.current_host_bytes, 16);
    assert_eq!(report.host_blocks, 1);
    assert_eq!(report.disk_demotions, 0);

    // A third block needs the same host slot. It must wait for the pending
    // write to commit instead of retaining another host allocation beyond
    // the byte budget.
    runtime.seal(4, 6).unwrap();
    while !runtime.manager.worker.queue.is_empty() {
        runtime.run_disk();
    }
    let report = runtime.manager.report(None);
    assert_eq!(report.disk_demotions, 2);
    assert_eq!(report.in_flight_write_blocks, 0);
    assert_eq!(report.disk_blocks, 2);
    assert!(report.current_host_bytes <= 16);
    assert!(report.peak_host_bytes <= 16);
    assert!(report.in_flight_waits >= 1);
    let layer = report
        .per_layer
        .iter()
        .find(|layer| layer.global_layer == 0)
        .unwrap();
    assert_eq!(layer.stats.disk_demotions, report.disk_demotions);
    assert_eq!(layer.stats.in_flight_waits, report.in_flight_waits);
}

#[test]
fn promotion_waits_for_pending_write_without_overcommitting_host_storage() {
    let options = PagedCacheOptions::new(2, 32, 16, 1)
        .unwrap()
        .with_live_disk("/tmp/live".into(), 1024, 1)
        .unwrap();
    let mut runtime = Runtime::new(options);
    let first = runtime.seal(0, 2).unwrap();
    runtime.seal(2, 4).unwrap();
    runtime.seal(4, 6).unwrap();
    let report = runtime.manager.report(None);
    assert_eq!(report.current_host_bytes, 16);
    assert_eq!(report.in_flight_write_bytes, 16);

    runtime.lease(&first).unwrap();
    let budget = runtime.manager.options().host_budget_bytes();
    let report = runtime.manager.report(None);
    assert!(report.current_host_bytes <= budget);
    assert!(report.peak_host_bytes <= budget);
    assert_eq!(budget, 16);
}

#[test]
fn blocks_come_back_from_disk() {
    let options = PagedCacheOptions::new(2, 32, 16, 1)
        .unwrap()
        .with_live_disk("/tmp/live".into(), 1024, 4)
        .unwrap();
    let mut runtime = Runtime::new(options);
    let first = runtime.seal(0, 2).unwrap();
    runtime.seal(2, 4).unwrap();
    runtime.seal(4, 6).unwrap();
    runtime.run_disk();
    assert_eq!(runtime.record_handles(&first), (CacheTier::Disk, None));
    runtime.lease(&first).unwrap();
    assert_eq!(runtime.record_handles(&first).0, CacheTier::Device);
    let report = runtime.manager.report(None);
    assert_eq!(report.disk_promotions, 1);
    assert_eq!(report.demand_misses, 1);
}

#[test]
fn budgets_without_disk_refuse_what_does_not_fit() {
    let mut runtime = Runtime::new(PagedCacheOptions::new(2, 16, 0, 1).unwrap());
    runtime.seal(0, 2).unwrap();
    assert!(matches!(
        runtime.seal(2, 4),
        Err(CacheResidencyError::BudgetExceeded { tier: CacheTier::Host, required: 16, budget: 0 })
    ));
    assert_eq!(runtime.manager.blocks.len(), 1);
    let mut runtime = Runtime::new(PagedCacheOptions::new(2, 16, 16, 1).unwrap());
    runtime.seal(0, 2).unwrap();
    runtime.seal(2, 4).unwrap();
    assert!(matches!(
        runtime.seal(4, 6),
        Err(CacheResidencyError::LiveDiskRequired { .. })
    ));
    assert!(matches!(
        runtime.seal(0, 2),
        Err(CacheResidencyError::DuplicateBlock(_))
    ));
    assert!(matches!(
        runtime.manager.begin_seal(0, 9, 9, None, key_value_block(1, 2), false),
        Err(CacheResidencyError::InvalidTokenRange { start: 9, end: 9 })
    ));
    assert!(matches!(
        runtime.manager.begin_seal(0, 8, 9, None, key_value_block(1, 2), false),
        Err(CacheResidencyError::ArrayMismatch(_))
    ));
}

#[test]
fn truncation_and_discarding_forget_blocks() {
    let mut runtime = Runtime::new(PagedCacheOptions::new(2, 1024, 1024, 1).unwrap());
    let first = runtime.seal(0, 2).unwrap();
    let second = runtime.seal(2, 4).unwrap();
    runtime.seal(4, 6).unwrap();
    let kind = CacheRepresentation::KeyValue;
    assert_eq!(runtime.manager.layer_end(0, kind), 6);
    assert_eq!(runtime.manager.layer_block_ids(0, kind, 2, 4, 0), vec![second]);
    runtime.lease(&second).unwrap();
    let replacement = TrailingReplacement { block: second, arrays: key_value_block(9, 1) };
    runtime
        .manager
        .truncate_layer_transaction(0, kind, 3, Some(replacement), 0)
        .unwrap();
    assert_eq!(runtime.manager.layer_end(0, kind), 3);
    assert_eq!(runtime.manager.generation, 1);
    assert!(runtime.manager.truncate_layer_transaction(0, kind, 1, None, 0).is_err());
    runtime.manager.discard_before(0, kind, 2, 0);
    assert!(runtime.manager.find_block(&first).is_none());
    assert_eq!(runtime.manager.report.discarded_sliding_blocks, 1);
    assert!(matches!(
        runtime.manager.remove_block(&first),
        Err(CacheResidencyError::MissingBlock(_))
    ));
    assert!(matches!(
        runtime.manager.begin_lease(&first, 0),
        Err(CacheResidencyError::MissingBlock(_))
    ));
}

#[test]
fn leased_blocks_are_never_evicted() {
    let mut runtime = Runtime::new(PagedCacheOptions::new(2, 1024, 1024, 1).unwrap());
    let first = runtime.seal(0, 2).unwrap();
    let second = runtime.seal(2, 4).unwrap();
    let third = runtime.seal(4, 6).unwrap();
    assert_eq!(
        runtime.manager.eviction_candidate(CacheTier::Device, None, 1),
        Some(first)
    );
    runtime.lease(&first).unwrap();
    assert_eq!(
        runtime.manager.eviction_candidate(CacheTier::Device, None, 1),
        Some(second)
    );
    assert_eq!(
        runtime.manager.eviction_candidate(CacheTier::Device, Some(&second), 0),
        Some(third)
    );
    assert_eq!(runtime.manager.find_leased(), Some(first));
    assert!(runtime.manager.clear().is_err());
    runtime.manager.release_lease(&first);
    assert!(runtime.manager.clear().is_ok());
    assert!(runtime.manager.blocks.is_empty());
}

#[test]
fn tails_count_towards_the_device() {
    let mut runtime = Runtime::new(PagedCacheOptions::new(2, 64, 64, 1).unwrap());
    let update = runtime.manager.begin_tail_update(3, 40, 5);
    assert!(update.allocated);
    runtime.rebalance(None).unwrap();
    assert_eq!(runtime.manager.report.mutable_tail_bytes, 40);
    assert_eq!(runtime.manager.report.logical_cached_tokens, 5);
    let update = runtime.manager.begin_tail_update(3, 80, 6);
    assert!(!update.allocated);
    assert!(matches!(
        runtime.rebalance(None),
        Err(CacheResidencyError::BudgetExceeded { tier: CacheTier::Device, required: 80, budget: 64 })
    ));
    runtime.manager.undo_tail_update(&update);
    assert_eq!(runtime.manager.report.mutable_tail_bytes, 40);
}

#[test]
fn undone_tail_updates_leave_nothing() {
    let mut runtime = Runtime::new(PagedCacheOptions::new(2, 64, 64, 1).unwrap());
    let update = runtime.manager.begin_tail_update(3, 80, 6);
    assert!(update.allocated);
    assert!(runtime.rebalance(None).is_err());
    runtime.manager.undo_tail_update(&update);
    assert!(runtime.manager.tails.is_empty());
    assert_eq!(runtime.manager.report.tail_allocations, 0);
    assert_eq!(runtime.manager.report.mutable_tail_bytes, 0);

    // The session may have been cleared in the meantime.
    let update = runtime.manager.begin_tail_update(3, 80, 6);
    assert!(runtime.manager.clear().is_ok());
    runtime.manager.undo_tail_update(&update);
    assert!(runtime.manager.tails.is_empty());
}

#[test]
fn discarding_keeps_what_attention_sees() {
    let mut runtime = Runtime::new(PagedCacheOptions::new(2, 1024, 1024, 1).unwrap());
    let prefix = runtime.seal(0, 2).unwrap();
    let forgotten = runtime.seal(2, 4).unwrap();
    let window = runtime.seal(4, 6).unwrap();
    let kind = CacheRepresentation::KeyValue;
    assert_eq!(
        runtime.manager.layer_block_ids(0, kind, 5, 6, 2),
        vec![prefix, window]
    );
    runtime.manager.discard_before(0, kind, 5, 2);
    assert!(runtime.manager.find_block(&prefix).is_some());
    assert!(runtime.manager.find_block(&forgotten).is_none());
    assert!(runtime.manager.find_block(&window).is_some());
}

#[test]
fn released_leases_leave_the_block_unleased() {
    let mut runtime = Runtime::new(PagedCacheOptions::new(2, 1024, 1024, 1).unwrap());
    let id = runtime.seal(0, 2).unwrap();
    runtime.lease(&id).unwrap();
    runtime.lease(&id).unwrap();
    runtime.manager.release_lease(&id);
    assert_eq!(runtime.manager.find_leased(), Some(id));
    runtime.manager.release_lease(&id);
    runtime.manager.release_lease(&id);
    assert_eq!(runtime.manager.find_leased(), None);
    assert_eq!(runtime.manager.blocks[0].tier, CacheTier::Device);
}

#[test]
fn arrays_that_are_no_block_are_refused() {
    let mismatch = |outcome: Result<(), CacheResidencyError>| match outcome {
        Err(CacheResidencyError::ArrayMismatch(message)) => message,
        other => panic!("expected a mismatch, got {other:?}"),
    };
    let array = |shape: Vec<i32>, dtype: &str| CacheArray {
        handle: 1,
        shape,
        dtype: dtype.into(),
        nbytes: 4,
    };
    let pair = |keys, values| CacheBlockArrays::KeyValue { keys, values };
    assert!(check_seal(0, 2, &key_value_block(1, 2)).is_ok());
    assert!(matches!(
        check_seal(-1, 2, &key_value_block(1, 3)),
        Err(CacheResidencyError::InvalidTokenRange { start: -1, end: 2 })
    ));
    let short = array(vec![2, 1], "Float16");
    let long = array(vec![1, 1, 2, 1], "Float32");
    assert_eq!(
        mismatch(check_seal(0, 2, &pair(long, short))),
        "both arrays in a cache block must share a dtype"
    );
    let short = array(vec![2, 1], "Float32");
    let long = array(vec![1, 1, 3, 1], "Float32");
    assert_eq!(
        mismatch(check_seal(0, 2, &pair(long, short))),
        "cache block range does not match its sequence dimensions"
    );
    let flat = array(vec![2], "Float32");
    assert_eq!(
        mismatch(check_seal(0, 2, &pair(flat.clone(), flat))),
        "key/value blocks must have a sequence axis"
    );
    let keys = array(vec![1, 1, 2, 1], "Float32");
    let values = array(vec![1, 2, 2, 1], "Float32");
    assert_eq!(
        mismatch(check_seal(0, 2, &pair(keys, values))),
        "key and value block shapes must match"
    );

    let mut runtime = Runtime::new(PagedCacheOptions::new(2, 1024, 1024, 1).unwrap());
    let block = runtime.seal(0, 2).unwrap();
    let kind = CacheRepresentation::KeyValue;
    let replacement = Some(TrailingReplacement { block, arrays: key_value_block(9, 1) });
    assert!(check_replacement(0, kind, 1, &replacement).is_ok());
    assert!(check_replacement(0, kind, 1, &None).is_ok());
    assert_eq!(
        mismatch(check_replacement(1, kind, 1, &replacement)),
        "trailing cache replacement does not match the truncated layer"
    );
    assert_eq!(
        mismatch(check_replacement(0, kind, 2, &replacement)),
        "trailing cache replacement does not match the truncated layer"
    );
}

#[test]
fn process_samples_are_scaled() {
    let options = PagedCacheOptions::new(2, 64, 64, 1).unwrap().with_process_sampling(true);
    let mut manager = CacheResidencyManager::new(options, 1);
    let usage = ProcessUsage {
        max_resident: 3,
        resident_unit: 1024,
        minor_faults: 4,
        major_faults: 5,
    };
    let report = manager.report(Some(usage));
    assert_eq!(report.process_rss_bytes, Some(3072));
    assert_eq!(report.process_minor_page_faults, Some(4));
    assert_eq!(report.process_major_page_faults, Some(5));
}

#[test]
fn saved_prompt_caches_load_again() {
    let mut runtime = Runtime::new(PagedCacheOptions::new(2, 1024, 1024, 1).unwrap());
    runtime.seal(0, 2).unwrap();
    runtime.seal(2, 4).unwrap();
    let descriptor = PromptCacheDescriptor {
        model_family: "llama".into(),
        effective_model_type: "llama".into(),
        checkpoint_fingerprint: "checkpoint".into(),
        architecture_fingerprint: "architecture".into(),
        layer_count: 1,
        global_layer_start: 0,
        global_layer_end: 1,
        batch_size: 1,
        sliding_window: None,
        sink_tokens: 0,
        topology: PromptCacheTopology::default(),
    };
    runtime.manager.check_persistable(&descriptor, 4).unwrap();
    assert!(runtime.manager.check_persistable(&descriptor, 5).is_err());
    let digests = vec!["0".repeat(64), "1".repeat(64)];
    let tokens = [9, 8, 7, 6];
    let manifest = runtime.manager.build_manifest(
        descriptor.clone(),
        &tokens,
        &PromptCacheOptions::default(),
        &digests,
    );
    assert_eq!(manifest.blocks.len(), 2);
    assert_eq!(manifest.total_prefix_tokens, 4);
    assert_eq!(manifest.prefix_sha256, hash_token_ids(&tokens));
    let identity = PromptCacheModelIdentity {
        model_family: "llama".into(),
        effective_model_type: "llama".into(),
        architecture_fingerprint: "architecture".into(),
        layer_count: 1,
        global_layer_start: 0,
        global_layer_end: 1,
        sliding_window: None,
        sink_tokens: 0,
        topology: PromptCacheTopology::default(),
        layer_layouts: PromptCacheModelIdentity::key_value_layouts(1, 1, 1),
    };
    let mappings = vec![ShardMapping::Mapped, ShardMapping::Mapped];
    let options = PagedCacheOptions::new(2, 1024, 1024, 1).unwrap();
    let opened = open_prompt_cache(
        "/tmp/p", &descriptor, &identity, &manifest, &tokens, options, 3, &mappings,
    )
    .unwrap();
    assert_eq!(opened.blocks.len(), 2);
    assert_eq!(opened.report.imported_mapped_shards, 2);
    assert!(opened.blocks.iter().all(|block| block.imported && block.tier == CacheTier::Disk));
    let options = PagedCacheOptions::new(2, 1024, 1024, 1).unwrap();
    assert!(matches!(
        open_prompt_cache(
            "/tmp/p", &descriptor, &identity, &manifest, &[9, 8, 7, 5], options, 3, &mappings,
        ),
        Err(CacheResidencyError::PrefixIdentityMismatch)
    ));
    let mut other = manifest.clone();
    other.schema_version = 1;
    let probes = vec![ShardProbe::Absent, ShardProbe::Absent];
    assert!(matches!(
        validate_manifest("/tmp/p", &other, &probes),
        Err(CacheResidencyError::UnsupportedSchema(1))
    ));
    assert!(matches!(
        validate_manifest("/tmp/p", &manifest, &probes),
        Err(CacheResidencyError::MissingShard(_))
    ));
    let escaping = vec![ShardProbe::Escapes, ShardProbe::Absent];
    assert!(matches!(
        validate_manifest("/tmp/p", &manifest, &escaping),
        Err(CacheResidencyError::UnsafeShardPath(_))
    ));
}

#[test]
fn save_destinations_are_planned() {
    let descriptor = PromptCacheDescriptor {
        model_family: "llama".into(),
        effective_model_type: "llama".into(),
        checkpoint_fingerprint: "checkpoint".into(),
        architecture_fingerprint: "architecture".into(),
        layer_count: 1,
        global_layer_start: 0,
        global_layer_end: 1,
        batch_size: 1,
        sliding_window: None,
        sink_tokens: 0,
        topology: PromptCacheTopology::default(),
    };
    let destination = |exists: bool, is_directory: bool| PromptCacheDestination {
        path: "/tmp/p".into(),
        parent: Some("/tmp".into()),
        file_name: Some("p".into()),
        exists,
        is_directory,
    };
    let options = PromptCacheOptions::default();
    let plan = plan_save(&destination(false, false), &descriptor, &options, 5).unwrap();
    assert!(!plan.replacing);
    assert_eq!(plan.parent, "/tmp");
    assert!(matches!(
        plan_save(&destination(true, true), &descriptor, &options, 5),
        Err(CacheResidencyError::PromptCacheExists(_))
    ));
    let replace = PromptCacheOptions { application_namespace: None, replace_existing: true };
    let plan = plan_save(&destination(true, true), &descriptor, &replace, 5).unwrap();
    assert!(plan.replacing);
    assert!(plan.published.starts_with("/tmp/p/.generations/"));
    let mut rootless = destination(false, false);
    rootless.file_name = None;
    assert!(matches!(
        plan_save(&rootless, &descriptor, &options, 5),
        Err(CacheResidencyError::InvalidPromptCachePath(_))
    ));
}

#[test]
fn generation_pointers_are_checked() {
    let pointer = |text: &str, present: bool| GenerationPointer::Names {
        length: text.len() as u64,
        text: text.into(),
        present,
    };
    assert!(resolve_prompt_cache_root("/tmp/p", &pointer("", true)).is_err());
    assert!(resolve_prompt_cache_root("/tmp/p", &pointer("../x", true)).is_err());
    let error = resolve_prompt_cache_root("/tmp/p", &pointer("a\"b", false)).unwrap_err();
    assert!(error.message().contains("prompt-cache generation \"a\\\"b\" is missing"));
    assert_eq!(
        resolve_prompt_cache_root("/tmp/p", &pointer("g-1\n", true)).unwrap(),
        "/tmp/p/.generations/g-1"
    );
}

#[test]
fn shards_that_are_no_shards_are_refused() {
    let path = "/tmp/p/b.safetensors".to_string();
    assert!(check_mapped_shard(&path, b"not a shard").is_err());
    let header = b"{not-json";
    let length = (header.len() as u64).to_le_bytes();
    assert!(matches!(
        probe_shard(&path, 100, &length, header),
        ShardProbe::Malformed { .. }
    ));
    let header = br#"{"keys":{"dtype":"F32","shape":[1],"data_offsets":[0,4]}}"#;
    let length = (header.len() as u64).to_le_bytes();
    let file_len = 8 + header.len() as u64 + 4;
    let ShardProbe::Described { contents, .. } = probe_shard(&path, file_len, &length, header) else {
        panic!("the header is sound");
    };
    assert_eq!(contents.payload_len, 4);
    assert_eq!(contents.tensors[0].name, "keys");
    assert_eq!(contents.tensors[0].shape, vec![1]);
    assert_eq!(stored_dtype_name(&contents.tensors[0].dtype), "Float32");
    assert!(verify_mapped_payload(b"short", "x").is_err());
}

#[test]
fn digests_are_sha256() {
    assert_eq!(
        hash_token_ids(&[]),
        "e3b0c44298fc1c149afbf4c8996fb92427ae41e4649b934ca495991b7852b855"
    );
    assert!(is_sha256_hex(&hash_token_ids(&[1, 2])));
    assert!(!is_sha256_hex("e3b0"));
    let fields = |names: [&str; 2]| {
        names.iter().map(|name| (name.to_string(), "1".to_string())).collect::<Vec<_>>()
    };
    let one = derive_prompt_cache_architecture_fingerprint("llama", fields(["a", "b"]));
    let two = derive_prompt_cache_architecture_fingerprint("llama", fields(["b", "a"]));
    assert_eq!(one, two);
    assert!(one.starts_with("sha256:"));
    assert_ne!(one, derive_prompt_cache_architecture_fingerprint("qwen", fields(["a", "b"])));
}

#[test]
fn paths_are_joined_like_paths() {
    assert_eq!(join_path("/tmp/p", "x"), "/tmp/p/x");
    assert_eq!(join_path("/tmp/p/", "x"), "/tmp/p/x");
}

#[test]
fn option_builders_change_one_thing() {
    let options = PagedCacheOptions::new(16, 1, 2, 3)
        .unwrap()
        .with_eviction_policy(CacheEvictionPolicy::LeastFrequentlyUsed)
        .with_persistence_retention(true);
    assert_eq!(options.block_size_tokens(), 16);
    assert_eq!(options.device_budget_bytes(), 1);
    assert_eq!(options.recent_device_blocks(), 3);
    assert_eq!(options.eviction_policy(), CacheEvictionPolicy::LeastFrequentlyUsed);
    assert!(options.retains_discarded_for_persistence());
    assert!(!options.full_attention_enabled());
    assert_eq!(options.live_disk_policy(), &LiveCacheDiskPolicy::Disabled);
    assert!(PagedCacheOptions::new(16, 1, 2, 3)
        .unwrap()
        .with_live_disk("/tmp/live".into(), 0, 1)
        .is_err());
    assert!(PagedCacheOptions::new(16, 1, 2, 3)
        .unwrap()
        .with_live_disk("/tmp/live".into(), 1, 0)
        .is_err());
    assert_eq!(CacheResidencyPolicy::default(), CacheResidencyPolicy::Device);
}

#[test]
fn errors_say_what_went_wrong() {
    let key = DiskOperationKey {
        generation: 4,
        id: CacheBlockId {
            session_id: 1,
            global_layer: 2,
            representation: CacheRepresentation::KeyValue,
            start: 0,
            end: 2,
            rank: None,
        },
        kind: DiskOperationKind::Read,
    };
    assert_eq!(
        CacheResidencyError::PrefixIdentityMismatch.message(),
        "prompt cache prefix token identity does not match"
    );
    assert_eq!(
        CacheResidencyError::InvalidPromptCachePath("/x".into()).message(),
        "invalid prompt cache path /x"
    );
    assert!(CacheResidencyError::DiskOperationCancelled { generation: key.generation }
        .message()
        .contains("4"));
    assert!(CacheResidencyError::MissingBlock(key.id).message().contains("global_layer: 2"));
}
