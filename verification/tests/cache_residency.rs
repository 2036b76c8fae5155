use safemlx_lm::cache_residency::block::{
    CacheArray, CacheBlockArrays, CacheBlockId, CacheRankIdentity, CacheRepresentation, CacheTier,
};
use safemlx_lm::cache_residency::catalog::{
    CacheBlockRecord, CacheResidencyManager, CacheTail, DiskLocation, HostWriteReservation,
};
use safemlx_lm::cache_residency::demotion::{DiskWriteResult, RebalanceStep};
use safemlx_lm::cache_residency::error::CacheResidencyError;
use safemlx_lm::cache_residency::inspection::inspect_prompt_cache;
use safemlx_lm::cache_residency::lease::DiskReply;
use safemlx_lm::cache_residency::manifest::{
    probe_shard, validate_manifest, ShardProbe,
};
use safemlx_lm::cache_residency::open::{
    open_prompt_cache, resolve_prompt_cache_root, GenerationPointer, ShardMapping,
};
use safemlx_lm::cache_residency::options::PagedCacheOptions;
use safemlx_lm::cache_residency::prompt::{
    validate_prompt_cache_model_identity, PromptCacheBlock, PromptCacheDescriptor,
    PromptCacheManifest, PromptCacheModelIdentity, PromptCacheOptions, PromptCacheTopology,
    PROMPT_CACHE_SCHEMA_VERSION,
};
use safemlx_lm::cache_residency::save::{plan_publication, plan_save, PromptCacheDestination};
use safemlx_lm::cache_residency::shard::{
    check_mapped_shard, hash_shard_payload, hash_token_ids, live_block_names, process_namespace,
    safe_shard_path,
    verify_disk_payload, MAX_PROMPT_CACHE_SHARD_HEADER_BYTES,
};
use safemlx_lm::cache_residency::stats::{
    CacheLayerResidencyStats, CACHE_RESIDENCY_LAYER_REPORT_LIMIT,
};
use safemlx_lm::cache_residency::worker::{
    DiskCompletionState, DiskOperationKey, DiskOperationKind, DiskWorker, EnqueueStep,
};
use safemlx_lm::expert_parallel::caches::{CacheReset, ExpertParallelCache};
use safetensors::tensor::{serialize, Dtype as StoredDtype, TensorView};

fn disk_test_id(start: i64) -> CacheBlockId {
    CacheBlockId {
        session_id: 7,
        global_layer: 0,
        representation: CacheRepresentation::KeyValue,
        start,
        end: start + 1,
        rank: None,
    }
}

fn missing_location(name: &str) -> DiskLocation {
    DiskLocation {
        path: format!("/tmp/cache/{}", name),
        first_name: "keys".into(),
        second_name: "values".into(),
        persistent: false,
        mapped: false,
        payload_sha256: None,
    }
}

fn resident_arrays(representation: CacheRepresentation, bytes: u64) -> CacheBlockArrays {
    let array = |handle: u64| CacheArray {
        handle,
        shape: vec![1],
        dtype: "Float32".into(),
        nbytes: bytes / 2,
    };
    match representation {
        CacheRepresentation::KeyValue => CacheBlockArrays::KeyValue {
            keys: array(1),
            values: array(2),
        },
        CacheRepresentation::CompressedLatentRotary => CacheBlockArrays::CompressedLatentRotary {
            latent: array(1),
            rotary_key: array(2),
        },
    }
}

fn record(id: CacheBlockId, tier: CacheTier, bytes: u64) -> CacheBlockRecord {
    let stored = tier == CacheTier::Disk;
    CacheBlockRecord {
        id,
        tier,
        arrays: if stored { None } else { Some(resident_arrays(id.representation, bytes)) },
        disk: if stored { Some(missing_location("stored.safetensors")) } else { None },
        bytes,
        first_shape: vec![1],
        second_shape: vec![1],
        first_dtype: "Float32".into(),
        second_dtype: "Float32".into(),
        imported: false,
        leases: 0,
        access_count: 0,
        last_access: 0,
        protected_prefix: false,
        pending_disk: None,
    }
}

fn manager_with_leased_block() -> CacheResidencyManager {
    let options = PagedCacheOptions::new(1, 64, 64, 1)
        .unwrap()
        .with_full_attention(true);
    let mut manager = CacheResidencyManager::new(options, 11);
    let id = CacheBlockId {
        session_id: manager.session_id(),
        global_layer: 0,
        representation: CacheRepresentation::KeyValue,
        start: 0,
        end: 1,
        rank: None,
    };
    let mut leased = record(id, CacheTier::Host, 0);
    leased.first_shape = vec![1, 1, 1, 1];
    leased.second_shape = vec![1, 1, 1, 1];
    leased.leases = 1;
    manager.blocks.push(leased);
    manager
}

fn prompt_descriptor() -> PromptCacheDescriptor {
    PromptCacheDescriptor {
        model_family: "llama".into(),
        effective_model_type: "llama".into(),
        checkpoint_fingerprint: "checkpoint".into(),
        architecture_fingerprint: "architecture".into(),
        layer_count: 1,
        global_layer_start: 0,
        global_layer_end: 1,
        batch_size: 1,
        sliding_window: None,
        sink_tokens: 0,
        topology: PromptCacheTopology::default(),
    }
}

fn prompt_model_identity() -> PromptCacheModelIdentity {
    let descriptor = prompt_descriptor();
    PromptCacheModelIdentity {
        model_family: descriptor.model_family,
        effective_model_type: descriptor.effective_model_type,
        architecture_fingerprint: descriptor.architecture_fingerprint,
        layer_count: descriptor.layer_count,
        global_layer_start: descriptor.global_layer_start,
        global_layer_end: descriptor.global_layer_end,
        sliding_window: descriptor.sliding_window,
        sink_tokens: descriptor.sink_tokens,
        topology: descriptor.topology,
        layer_layouts: PromptCacheModelIdentity::key_value_layouts(1, 1, 1),
    }
}

fn shard_bytes(first: (&str, Vec<usize>, &[u8]), second: (&str, Vec<usize>, &[u8])) -> Vec<u8> {
    let first_view = TensorView::new(StoredDtype::F32, first.1, first.2).unwrap();
    let second_view = TensorView::new(StoredDtype::F32, second.1, second.2).unwrap();
    serialize([(first.0, first_view), (second.0, second_view)], None).unwrap()
}

fn prompt_fixture(root: &str, namespace: &str) -> (PromptCacheManifest, Vec<u8>) {
    let keys = 1.0f32.to_le_bytes();
    let values = 2.0f32.to_le_bytes();
    let shard = shard_bytes(
        ("keys", vec![1, 1, 1, 1], &keys),
        ("values", vec![1, 1, 1, 1], &values),
    );
    let descriptor = prompt_descriptor();
    let manifest = PromptCacheManifest {
        schema_version: PROMPT_CACHE_SCHEMA_VERSION,
        model_family: descriptor.model_family,
        effective_model_type: descriptor.effective_model_type,
        checkpoint_fingerprint: descriptor.checkpoint_fingerprint,
        architecture_fingerprint: descriptor.architecture_fingerprint,
        layer_count: 1,
        global_layer_start: 0,
        global_layer_end: 1,
        block_size_tokens: 1,
        batch_size: 1,
        total_prefix_tokens: 1,
        prefix_sha256: hash_token_ids(&[7]),
        sliding_window: None,
        sink_tokens: 0,
        topology: PromptCacheTopology::default(),
        application_namespace: Some(namespace.into()),
        blocks: vec![PromptCacheBlock {
            global_layer: 0,
            representation: CacheRepresentation::KeyValue,
            start: 0,
            end: 1,
            rank: None,
            shard: "block.safetensors".into(),
            first_array: "keys".into(),
            second_array: "values".into(),
            first_shape: vec![1, 1, 1, 1],
            second_shape: vec![1, 1, 1, 1],
            first_dtype: "Float32".into(),
            second_dtype: "Float32".into(),
            logical_bytes: 8,
            payload_sha256: hash_shard_payload(&format!("{}/block.safetensors", root), &shard)
                .unwrap(),
        }],
    };
    (manifest, shard)
}

fn probe(path: &str, shard: &[u8]) -> ShardProbe {
    let mut length = [0u8; 8];
    length.copy_from_slice(&shard[..8]);
    let header_len = u64::from_le_bytes(length);
    let end = (8 + header_len.min(MAX_PROMPT_CACHE_SHARD_HEADER_BYTES)) as usize;
    let header = &shard[8..end.min(shard.len())];
    probe_shard(&path.to_string(), shard.len() as u64, &shard[..8], header)
}

/// Validates a manifest with the shard behind its only block.
fn inspect(root: &str, manifest: &PromptCacheManifest, shard: &[u8]) -> Result<(), CacheResidencyError> {
    let path = format!("{}/{}", root, manifest.blocks[0].shard);
    validate_manifest(root, manifest, &vec![probe(&path, shard)])
}

fn rebalance(manager: &mut CacheResidencyManager) -> Result<(), CacheResidencyError> {
    loop {
        match manager.rebalance_step(None)? {
            RebalanceStep::Continue => {}
            RebalanceStep::Done => return Ok(()),
            other => panic!("unexpected step {:?}", other),
        }
    }
}

#[test]
fn paged_options_require_finite_nonzero_limits() {
    assert!(PagedCacheOptions::new(0, 1, 1, 1).is_err());
    assert!(PagedCacheOptions::new(16, 0, 1, 1).is_err());
    assert!(PagedCacheOptions::new(16, 1, 1, 0).is_err());
    assert!(PagedCacheOptions::new(16, 1, 0, 1).is_ok());
}

#[test]
fn prefix_hash_is_stable_and_order_sensitive() {
    assert_eq!(hash_token_ids(&[1, 2, 3]), hash_token_ids(&[1, 2, 3]));
    assert_ne!(hash_token_ids(&[1, 2, 3]), hash_token_ids(&[3, 2, 1]));
}

#[test]
fn live_shard_paths_include_process_representation_rank_and_unique_write_identity() {
    let namespace = process_namespace(0x2a, 0x99);
    assert_eq!(namespace, "p0000002a-t00000000000000000000000000000099");
    let id = disk_test_id(0);
    let (first, first_temporary) = live_block_names(&namespace, 0, &id);
    let (second, _) = live_block_names(&namespace, 1, &id);
    assert_ne!(first, second);
    assert!(first.contains("live-p"));
    assert!(first.contains("-kv-rank-px-tx-ex-"));
    assert!(first_temporary.ends_with(".tmp.safetensors"));

    let mut ranked = id;
    ranked.representation = CacheRepresentation::CompressedLatentRotary;
    ranked.rank = Some(CacheRankIdentity {
        pipeline_rank: Some(1),
        tensor_parallel_rank: Some(2),
        expert_parallel_rank: Some(3),
    });
    let (ranked_path, _) = live_block_names(&namespace, 2, &ranked);
    assert!(ranked_path.contains("-mla-rank-p1-t2-e3-"));
}

#[test]
fn shard_paths_cannot_escape_cache_directory() {
    let root = "/tmp/cache";
    assert_eq!(
        safe_shard_path(root, "block-0001.safetensors", false).unwrap(),
        "/tmp/cache/block-0001.safetensors"
    );
    assert!(matches!(
        safe_shard_path(root, "../outside.safetensors", false),
        Err(CacheResidencyError::UnsafeShardPath(_))
    ));
    assert!(safe_shard_path(root, "/outside.safetensors", false).is_err());
    assert!(safe_shard_path(root, "linked.safetensors", true).is_err());
}

#[test]
fn same_length_prompt_payload_corruption_is_rejected_before_array_conversion() {
    let (manifest, mut shard) = prompt_fixture("/tmp/cache", "payload-checksum");
    let final_byte = shard.last_mut().expect("fixture shard has a payload");
    *final_byte ^= 0x01;

    // Header-only inspection remains valid because metadata and length did
    // not change. The mapped payload gate must still reject the shard.
    inspect("/tmp/cache", &manifest, &shard).unwrap();
    let path = "/tmp/cache/block.safetensors".to_string();
    check_mapped_shard(&path, &shard).unwrap();
    let location = DiskLocation {
        path,
        first_name: "keys".into(),
        second_name: "values".into(),
        persistent: true,
        mapped: true,
        payload_sha256: Some(manifest.blocks[0].payload_sha256.clone()),
    };
    let error = verify_disk_payload(&location, &shard).unwrap_err();
    assert!(error.message().contains("payload SHA-256 mismatch"));
}

#[test]
fn shards_that_describe_impossible_sizes_are_refused() {
    let path = "/tmp/cache/block.safetensors".to_string();
    let refused = |shard: &[u8]| match check_mapped_shard(&path, shard) {
        Err(CacheResidencyError::MalformedShard { path: at, .. }) => at == path,
        _ => false,
    };
    let framed = |header: &str| {
        let mut shard = (header.len() as u64).to_le_bytes().to_vec();
        shard.extend_from_slice(header.as_bytes());
        shard
    };
    assert!(refused(&[1, 2, 3]));
    assert!(refused(&64u64.to_le_bytes()));
    assert!(refused(&framed("no header")));

    let each: u64 = u64::MAX / 8;
    let mut header = String::from("{");
    for tensor in 0..8u64 {
        let comma = if tensor == 0 { "" } else { "," };
        header.push_str(&format!(
            "{comma}\"t{tensor}\":{{\"dtype\":\"U8\",\"shape\":[{each}],\"data_offsets\":[{},{}]}}",
            tensor * each,
            (tensor + 1) * each
        ));
    }
    header.push('}');
    assert!(refused(&framed(&header)));

    let (_, shard) = prompt_fixture("/tmp/cache", "payload-size");
    assert!(check_mapped_shard(&path, &shard).is_ok());
    assert!(refused(&shard[..shard.len() - 1]));
}

#[test]
fn shard_inspection_enforces_a_bounded_header_read() {
    let path = "oversized.safetensors".to_string();
    let bytes = (MAX_PROMPT_CACHE_SHARD_HEADER_BYTES + 1).to_le_bytes();
    let block = PromptCacheBlock {
        global_layer: 0,
        representation: CacheRepresentation::KeyValue,
        start: 0,
        end: 1,
        rank: None,
        shard: "oversized.safetensors".into(),
        first_array: "keys".into(),
        second_array: "values".into(),
        first_shape: vec![1, 1, 1, 1],
        second_shape: vec![1, 1, 1, 1],
        first_dtype: "Float32".into(),
        second_dtype: "Float32".into(),
        logical_bytes: 8,
        payload_sha256: "0".repeat(64),
    };
    let probed = probe_shard(&path, bytes.len() as u64, &bytes, &[]);
    let (mut manifest, _) = prompt_fixture("/tmp/cache", "oversized");
    manifest.blocks = vec![block];
    assert!(matches!(probed, ShardProbe::Malformed { .. }));
    assert!(matches!(
        validate_manifest("/tmp/cache", &manifest, &vec![probed]),
        Err(CacheResidencyError::MalformedShard { .. })
    ));
}

#[test]
fn imported_prompt_shards_are_actually_mapped_and_retained() {
    let (manifest, shard) = prompt_fixture("/tmp/cache", "mapped");
    inspect("/tmp/cache", &manifest, &shard).unwrap();
    check_mapped_shard(&"/tmp/cache/block.safetensors".to_string(), &shard).unwrap();
    let options = PagedCacheOptions::new(1, 64, 64, 1).unwrap();
    let manager = open_prompt_cache(
        "/tmp/cache",
        &prompt_descriptor(),
        &prompt_model_identity(),
        &manifest,
        &[7],
        options,
        1,
        &vec![ShardMapping::Mapped],
    )
    .unwrap();
    assert_eq!(manager.report.imported_mapped_shards, 1);
    assert_eq!(manager.blocks.len(), 1);
    assert!(manager
        .blocks
        .iter()
        .all(|record| record.disk.as_ref().map(|location| location.mapped) == Some(true)));
    for record in &manager.blocks {
        verify_disk_payload(record.disk.as_ref().unwrap(), &shard).unwrap();
    }
}

#[test]
fn generation_switch_keeps_the_previous_cache_canonical_until_commit() {
    let destination = "/tmp/prompt-cache";
    let generation_name = "generation-test";
    let generation = "/tmp/prompt-cache/.generations/generation-test";
    let (old, old_shard) = prompt_fixture(destination, "old");
    let (new, new_shard) = prompt_fixture(generation, "new");

    let before = resolve_prompt_cache_root(destination, &GenerationPointer::Absent).unwrap();
    assert_eq!(before, destination);
    inspect(&before, &old, &old_shard).unwrap();
    assert_eq!(old.application_namespace.as_deref(), Some("old"));

    let (pointer, temporary, current) = plan_publication(destination, generation_name, 1);
    assert_eq!(pointer, "generation-test\n");
    assert_eq!(temporary, "/tmp/prompt-cache/.CURRENT.tmp-1");
    assert_eq!(current, "/tmp/prompt-cache/CURRENT");
    let after = resolve_prompt_cache_root(
        destination,
        &GenerationPointer::Names {
            length: pointer.len() as u64,
            text: pointer,
            present: true,
        },
    )
    .unwrap();
    assert_eq!(after, generation);
    inspect(&after, &new, &new_shard).unwrap();
    assert_eq!(new.application_namespace.as_deref(), Some("new"));
}

#[test]
fn inspection_gives_back_what_a_finished_save_returned() {
    let destination = PromptCacheDestination {
        path: "/tmp/prompt-cache".into(),
        parent: Some("/tmp".into()),
        file_name: Some("prompt-cache".into()),
        exists: true,
        is_directory: true,
    };
    let replace = PromptCacheOptions { application_namespace: None, replace_existing: true };
    let plan = plan_save(&destination, &prompt_descriptor(), &replace, 12).unwrap();
    let (old, old_shard) = prompt_fixture(&destination.path, "old");
    let (new, new_shard) = prompt_fixture(&plan.temporary, "new");
    validate_manifest(&plan.temporary, &new, &vec![probe("block.safetensors", &new_shard)]).unwrap();

    let old_probes = vec![probe("block.safetensors", &old_shard)];
    let found = inspect_prompt_cache(
        &destination.path,
        &GenerationPointer::Absent,
        Ok(old.clone()),
        &old_probes,
    );
    assert_eq!(found.unwrap(), old);

    let (text, _, _) = plan_publication(&destination.path, &plan.generation_name, 12);
    let pointer = GenerationPointer::Names { length: text.len() as u64, text, present: true };
    assert_eq!(resolve_prompt_cache_root(&destination.path, &pointer).unwrap(), plan.published);
    let found = inspect_prompt_cache(
        &destination.path,
        &pointer,
        Ok(new.clone()),
        &vec![probe("block.safetensors", &new_shard)],
    )
    .unwrap();
    assert_eq!(found, new);
    assert_eq!(found.prefix_sha256, hash_token_ids(&[7]));

    let unread = Err(CacheResidencyError::ManifestJson("no object".into()));
    assert!(matches!(
        inspect_prompt_cache(&destination.path, &pointer, unread, &vec![]),
        Err(CacheResidencyError::ManifestJson(_))
    ));
    let mut wrong = new;
    wrong.total_prefix_tokens = 2;
    assert!(inspect_prompt_cache(&destination.path, &pointer, Ok(wrong), &old_probes).is_err());
    let missing =
        GenerationPointer::Names { length: 13, text: "generation-1\n".into(), present: false };
    assert!(inspect_prompt_cache(&destination.path, &missing, Ok(old), &old_probes).is_err());
}

#[test]
fn shards_without_a_header_length_have_no_digest() {
    for length in 0..8usize {
        let error = hash_shard_payload(&"/tmp/short".to_string(), &vec![1u8; length]).unwrap_err();
        match error {
            CacheResidencyError::Io { action, path, .. } => {
                assert_eq!(action, "read prompt cache shard header length");
                assert_eq!(path, "/tmp/short");
            }
            other => panic!("{:?}", other),
        }
    }
    assert!(matches!(
        hash_shard_payload(&"/tmp/short".to_string(), &[0u8; 8]),
        Err(CacheResidencyError::MalformedShard { .. })
    ));
}

#[test]
fn loaded_model_identity_rejects_a_forged_caller_descriptor() {
    let mut descriptor = prompt_descriptor();
    descriptor.layer_count = 2;
    descriptor.global_layer_end = 2;
    let loaded_model = PromptCacheModelIdentity {
        model_family: "llama".into(),
        effective_model_type: "llama".into(),
        architecture_fingerprint: descriptor.architecture_fingerprint.clone(),
        layer_count: 1,
        global_layer_start: 0,
        global_layer_end: 1,
        sliding_window: None,
        sink_tokens: 0,
        topology: PromptCacheTopology::default(),
        layer_layouts: PromptCacheModelIdentity::key_value_layouts(1, 1, 1),
    };
    assert!(matches!(
        validate_prompt_cache_model_identity(&descriptor, &loaded_model),
        Err(CacheResidencyError::IncompatiblePromptCache(_))
    ));
}

#[test]
fn loaded_model_identity_rejects_a_forged_architecture_fingerprint() {
    let mut descriptor = prompt_descriptor();
    let loaded_model = PromptCacheModelIdentity {
        model_family: descriptor.model_family.clone(),
        effective_model_type: descriptor.effective_model_type.clone(),
        architecture_fingerprint: "sha256:derived-from-loaded-model".into(),
        layer_count: descriptor.layer_count,
        global_layer_start: descriptor.global_layer_start,
        global_layer_end: descriptor.global_layer_end,
        sliding_window: descriptor.sliding_window,
        sink_tokens: descriptor.sink_tokens,
        topology: descriptor.topology.clone(),
        layer_layouts: PromptCacheModelIdentity::key_value_layouts(1, 1, 1),
    };
    descriptor.architecture_fingerprint = "sha256:caller-repeated-stale-value".into();
    let error = validate_prompt_cache_model_identity(&descriptor, &loaded_model).unwrap_err();
    assert!(error.message().contains("architecture_fingerprint"));
}

#[test]
fn prompt_load_rejects_model_incompatible_key_value_dimensions() {
    let (mut manifest, _) = prompt_fixture("/tmp/cache", "wrong-kv-dimensions");
    let keys = vec![0u8; 32];
    let values = vec![0u8; 32];
    let shard = shard_bytes(
        ("keys", vec![1, 2, 1, 4], &keys),
        ("values", vec![1, 2, 1, 4], &values),
    );
    manifest.blocks[0].first_shape = vec![1, 2, 1, 4];
    manifest.blocks[0].second_shape = vec![1, 2, 1, 4];
    manifest.blocks[0].logical_bytes = 64;
    inspect("/tmp/cache", &manifest, &shard).unwrap();

    let error = open_prompt_cache(
        "/tmp/cache",
        &prompt_descriptor(),
        &prompt_model_identity(),
        &manifest,
        &[7],
        PagedCacheOptions::new(1, 64, 64, 1).unwrap(),
        1,
        &vec![ShardMapping::Mapped],
    )
    .unwrap_err();
    assert!(error.message().contains("dimensions"));
}

#[test]
fn prompt_load_rejects_model_incompatible_layer_representation() {
    let (mut manifest, _) = prompt_fixture("/tmp/cache", "wrong-representation");
    let latent = vec![0u8; 16];
    let rotary = vec![0u8; 8];
    let shard = shard_bytes(
        ("latent", vec![1, 1, 4], &latent),
        ("rotary_key", vec![1, 1, 2], &rotary),
    );
    manifest.blocks[0].representation = CacheRepresentation::CompressedLatentRotary;
    manifest.blocks[0].first_array = "latent".into();
    manifest.blocks[0].second_array = "rotary_key".into();
    manifest.blocks[0].first_shape = vec![1, 1, 4];
    manifest.blocks[0].second_shape = vec![1, 1, 2];
    manifest.blocks[0].logical_bytes = 24;
    inspect("/tmp/cache", &manifest, &shard).unwrap();

    let error = open_prompt_cache(
        "/tmp/cache",
        &prompt_descriptor(),
        &prompt_model_identity(),
        &manifest,
        &[7],
        PagedCacheOptions::new(1, 64, 64, 1).unwrap(),
        1,
        &vec![ShardMapping::Mapped],
    )
    .unwrap_err();
    assert!(error.message().contains("expects KeyValue"));
}

#[test]
fn disk_worker_coalesces_duplicate_in_flight_reads() {
    let mut worker = DiskWorker::new(1);
    let key = DiskOperationKey {
        generation: 3,
        id: disk_test_id(0),
        kind: DiskOperationKind::Read,
    };
    let first = worker.prepare(key);
    let second = worker.prepare(key);
    assert!(!first.joined);
    assert!(second.joined);
    assert_eq!(worker.enqueue(&first.ticket), EnqueueStep::Sent);
    assert_eq!(worker.queue.len(), 1);
    let taken = worker.dequeue().unwrap();
    assert!(taken.run);
    assert!(!worker.is_ready(&second.ticket));
    assert!(worker.complete(&taken.ticket));
    assert!(worker.is_ready(&first.ticket));
    assert!(worker.is_ready(&second.ticket));
    assert_eq!(first.ticket, second.ticket);
    worker.retire(&first.ticket);
    assert!(!worker.prepare(key).joined);
}

#[test]
fn disk_worker_applies_backpressure_only_outside_submission() {
    let mut worker = DiskWorker::new(1);
    let key = |start: i64| DiskOperationKey {
        generation: 0,
        id: disk_test_id(start),
        kind: DiskOperationKind::Read,
    };
    let first = worker.prepare(key(0)).ticket;
    assert_eq!(worker.enqueue(&first), EnqueueStep::Sent);
    assert!(worker.dequeue().unwrap().run);
    let second = worker.prepare(key(1)).ticket;
    assert_eq!(worker.enqueue(&second), EnqueueStep::Sent);
    let third = worker.prepare(key(2)).ticket;
    assert_eq!(worker.enqueue(&third), EnqueueStep::Full);
    assert_eq!(worker.enqueue(&third), EnqueueStep::Full);

    assert!(worker.complete(&first));
    assert_eq!(worker.dequeue().unwrap().ticket, second);
    assert_eq!(worker.enqueue(&third), EnqueueStep::Sent);
    assert_eq!(worker.peak_occupancy, 1);
    assert!(worker.complete(&second));
    assert_eq!(worker.dequeue().unwrap().ticket, third);
    assert!(worker.complete(&third));
    for ticket in [&first, &second, &third] {
        assert!(worker.is_ready(ticket));
        assert!(worker.resources_released(ticket));
    }
}

#[test]
fn disk_worker_cancels_queued_generation_work() {
    let mut manager = CacheResidencyManager::new(PagedCacheOptions::new(1, 64, 64, 1).unwrap(), 7);
    let worker = &mut manager.worker;
    let key = |start: i64| DiskOperationKey {
        generation: 8,
        id: disk_test_id(start),
        kind: DiskOperationKind::Read,
    };
    let blocker = worker.prepare(key(0)).ticket;
    assert_eq!(worker.enqueue(&blocker), EnqueueStep::Sent);
    assert!(worker.dequeue().unwrap().run);

    let cancelled = worker.prepare(key(1)).ticket;
    assert_eq!(worker.enqueue(&cancelled), EnqueueStep::Sent);
    assert!(worker.cancel(&cancelled));
    assert!(!worker.cancel(&cancelled));
    assert_eq!(
        worker.completions[cancelled.operation].state,
        DiskCompletionState::Cancelled
    );
    assert!(worker.complete(&blocker));
    let dropped = worker.dequeue().unwrap();
    assert_eq!(dropped.ticket, cancelled);
    assert!(!dropped.run);
    assert!(worker.in_flight.is_empty());

    let reply = manager.worker.reply(&cancelled, None);
    assert!(matches!(
        manager.finish_host_release(&cancelled, 1, reply),
        Err(CacheResidencyError::DiskOperationCancelled { generation: 8 })
    ));
}

#[test]
fn cancelled_reads_are_reported_to_the_waiting_lease() {
    let mut manager = CacheResidencyManager::new(PagedCacheOptions::new(1, 64, 64, 1).unwrap(), 7);
    let id = disk_test_id(0);
    let key = DiskOperationKey { generation: 3, id, kind: DiskOperationKind::Read };
    let ticket = manager.worker.prepare(key).ticket;
    assert!(manager.worker.cancel(&ticket));
    manager.blocks.push(record(id, CacheTier::Disk, 4));
    let reply = manager.worker.reply(&ticket, None);
    assert!(matches!(reply, DiskReply::Cancelled { generation: 3 }));
    assert!(matches!(
        manager.finish_disk_read(&id, &ticket, "/tmp/live/0".into(), false, None, reply),
        Err(CacheResidencyError::DiskOperationCancelled { generation: 3 })
    ));
    assert!(manager.worker.in_flight.is_empty());
}

#[test]
fn replies_carry_what_the_worker_handed_back() {
    let mut worker = DiskWorker::new(1);
    let key = DiskOperationKey {
        generation: 0,
        id: disk_test_id(0),
        kind: DiskOperationKind::Write,
    };
    let ticket = worker.prepare(key).ticket;
    assert!(worker.complete(&ticket));
    assert!(matches!(worker.reply(&ticket, Some(Ok(None))), DiskReply::Written));
    match worker.reply(&ticket, Some(Err("disk full".into()))) {
        DiskReply::Failed(error) => assert!(error.message().contains("disk full")),
        other => panic!("{:?}", other),
    }
    match worker.reply(&ticket, None) {
        DiskReply::Failed(error) => assert!(error.message().contains("worker stopped")),
        other => panic!("{:?}", other),
    }
}

#[test]
fn places_of_forgotten_operations_are_used_again() {
    let mut manager = CacheResidencyManager::new(PagedCacheOptions::new(1, 64, 64, 1).unwrap(), 7);
    let key = |start: i64| DiskOperationKey {
        generation: 0,
        id: disk_test_id(start),
        kind: DiskOperationKind::Write,
    };
    let first = manager.worker.prepare(key(0)).ticket;
    let second = manager.worker.prepare(key(1)).ticket;
    assert!(!manager.forget_operation(&first));
    assert_eq!(manager.worker.enqueue(&first), EnqueueStep::Sent);
    assert!(manager.worker.cancel(&first));
    manager.worker.release_task_resources(&first);
    manager.worker.retire(&first);
    // It is still queued.
    assert!(!manager.forget_operation(&first));
    assert!(!manager.worker.dequeue().unwrap().run);
    // A block still waits for it.
    let mut waiting = record(disk_test_id(0), CacheTier::Host, 4);
    waiting.pending_disk = Some(first);
    manager.blocks.push(waiting);
    assert!(!manager.forget_operation(&first));
    manager.blocks[0].pending_disk = None;
    assert!(manager.forget_operation(&first));
    assert!(manager.worker.completions[first.operation].vacant);

    let third = manager.worker.prepare(key(2));
    assert!(!third.joined);
    assert_eq!(third.ticket.operation, first.operation);
    assert!(!manager.worker.is_ready(&third.ticket));
    assert!(!manager.worker.is_ready(&second));
    assert_eq!(manager.worker.completions.len(), 2);
    for start in 3..40 {
        let ticket = manager.worker.prepare(key(start)).ticket;
        assert!(manager.worker.complete(&ticket));
        assert!(manager.forget_operation(&ticket));
    }
    assert_eq!(manager.worker.completions.len(), 3);
}

#[test]
fn cancellation_wakes_a_backpressured_submitter() {
    let mut worker = DiskWorker::new(1);
    let key = |start: i64| DiskOperationKey {
        generation: 4,
        id: disk_test_id(start),
        kind: DiskOperationKind::Read,
    };
    let blocker = worker.prepare(key(0)).ticket;
    assert_eq!(worker.enqueue(&blocker), EnqueueStep::Sent);
    assert!(worker.dequeue().unwrap().run);
    let queued = worker.prepare(key(1)).ticket;
    assert_eq!(worker.enqueue(&queued), EnqueueStep::Sent);
    let blocked = worker.prepare(key(2)).ticket;
    assert_eq!(worker.enqueue(&blocked), EnqueueStep::Full);

    assert!(worker.cancel(&blocked));
    assert_eq!(worker.enqueue(&blocked), EnqueueStep::Settled);
    assert!(worker.resources_released(&blocked));
    assert_eq!(
        worker.completions[blocked.operation].state,
        DiskCompletionState::Cancelled
    );
    assert!(worker.complete(&blocker));
    assert_eq!(worker.dequeue().unwrap().ticket, queued);
}

#[test]
fn disk_worker_reports_operation_panics_and_keeps_running() {
    let mut worker = DiskWorker::new(1);
    let key = |start: i64| DiskOperationKey {
        generation: 2,
        id: disk_test_id(start),
        kind: DiskOperationKind::Read,
    };
    let panicking = worker.prepare(key(0)).ticket;
    assert_eq!(worker.enqueue(&panicking), EnqueueStep::Sent);
    let taken = worker.dequeue().unwrap();
    // The loop that runs operations turns a panic into a failed result.
    assert!(worker.complete(&taken.ticket));
    assert!(worker.is_ready(&panicking));
    worker.retire(&panicking);

    let following = worker.prepare(key(1)).ticket;
    assert_eq!(worker.enqueue(&following), EnqueueStep::Sent);
    assert!(worker.dequeue().unwrap().run);
    assert!(worker.complete(&following));
    assert!(worker.is_ready(&following));
}

#[test]
fn background_write_failures_surface_on_the_next_foreground_operation() {
    let options = PagedCacheOptions::new(1, 64, 64, 1)
        .unwrap()
        .with_full_attention(true);
    let mut manager = CacheResidencyManager::new(options, 7);
    let id = disk_test_id(0);
    let key = DiskOperationKey {
        generation: 0,
        id,
        kind: DiskOperationKind::Write,
    };
    let ticket = manager.worker.prepare(key).ticket;
    let mut pending = record(id, CacheTier::Host, 0);
    pending.pending_disk = Some(ticket);
    manager.blocks.push(pending);
    let failure = CacheResidencyError::Runtime("injected asynchronous write failure".into());
    assert_eq!(
        manager.reconcile(&key, DiskWriteResult::Failed(failure.message())),
        None
    );

    let update = manager.begin_tail_update(0, 0, 0);
    let error = rebalance(&mut manager).unwrap_err();
    manager.undo_tail_update(&update);
    assert!(error.message().contains("injected asynchronous write failure"));
    let report = manager.report(None);
    assert_eq!(report.failures, 1);
    assert_eq!(report.per_layer.len(), 1);
    assert_eq!(report.per_layer[0].global_layer, 0);
    assert_eq!(report.per_layer[0].stats.failures, report.failures);
    manager.worker.retire(&ticket);
}

#[test]
fn promoted_and_cancelled_writes_retain_host_reservations_until_release() {
    let options = PagedCacheOptions::new(1, 16, 16, 1)
        .unwrap()
        .with_live_disk("/tmp/live".into(), 1024, 1)
        .unwrap();
    let mut manager = CacheResidencyManager::new(options, 7);
    let id = disk_test_id(0);
    let key = DiskOperationKey {
        generation: 0,
        id,
        kind: DiskOperationKind::Write,
    };
    let ticket = manager.worker.prepare(key).ticket;
    assert_eq!(manager.worker.enqueue(&ticket), EnqueueStep::Sent);
    assert!(manager.worker.dequeue().unwrap().run);
    manager.host_write_reservations.push(HostWriteReservation {
        reservation_id: 7,
        global_layer: id.global_layer,
        bytes: 16,
        ticket,
    });
    let mut pending = record(id, CacheTier::Host, 16);
    pending.pending_disk = Some(ticket);
    manager.blocks.push(pending);

    let report = manager.report(None);
    assert_eq!(report.current_host_bytes, 16);
    assert_eq!(report.in_flight_write_bytes, 16);
    assert_eq!(report.host_blocks, 1);

    // Demand promotion replaces the record's arrays with device storage,
    // but the disk task still owns the original host staging allocation.
    manager.blocks[0].tier = CacheTier::Device;
    let report = manager.report(None);
    assert_eq!(report.device_blocks, 1);
    assert_eq!(report.host_blocks, 0);
    assert_eq!(report.current_device_bytes, 16);
    assert_eq!(report.current_host_bytes, 16);
    assert_eq!(report.in_flight_write_bytes, 16);

    let change = manager.clear().unwrap();
    assert_eq!(change.tickets, vec![ticket]);
    assert_eq!(
        manager.worker.completions[ticket.operation].state,
        DiskCompletionState::Cancelled
    );
    assert!(!manager.worker.resources_released(&ticket));
    let report = manager.report(None);
    assert_eq!(report.cancellations, 1);
    assert_eq!(report.host_blocks, 0);
    assert_eq!(report.current_host_bytes, 16);
    assert_eq!(report.in_flight_write_bytes, 16);
    assert!(!manager.worker.complete(&ticket));
    manager.release_reservation(&key, 7);
    assert!(manager.worker.resources_released(&ticket));
    let report = manager.report(None);
    assert_eq!(report.current_host_bytes, 0);
    assert_eq!(report.in_flight_write_bytes, 0);
}

#[test]
fn disk_backed_device_blocks_bypass_a_zero_host_budget() {
    let mut manager =
        CacheResidencyManager::new(PagedCacheOptions::new(1, 16, 0, 1).unwrap(), 7);
    let older = disk_test_id(0);
    let recent = disk_test_id(2);
    let mut stored = record(older, CacheTier::Device, 16);
    stored.disk = Some(missing_location("older.safetensors"));
    manager.blocks.push(stored);
    manager.blocks.push(record(recent, CacheTier::Device, 16));

    rebalance(&mut manager).unwrap();
    assert_eq!(manager.blocks[manager.find_block(&older).unwrap()].tier, CacheTier::Disk);
    assert_eq!(manager.blocks[manager.find_block(&recent).unwrap()].tier, CacheTier::Device);
    assert_eq!(manager.report.current_host_bytes, 0);
    assert_eq!(manager.report.current_device_bytes, 16);
    assert_eq!(manager.report.current_disk_bytes, 16);
}

#[test]
fn per_layer_residency_report_is_bounded_and_losslessly_aggregated() {
    let mut manager = CacheResidencyManager::new(
        PagedCacheOptions::new(1, u64::MAX, u64::MAX, 1).unwrap(),
        7,
    );
    let layer_count = CACHE_RESIDENCY_LAYER_REPORT_LIMIT + 3;
    for global_layer in 0..layer_count {
        let representation = if global_layer % 2 == 0 {
            CacheRepresentation::KeyValue
        } else {
            CacheRepresentation::CompressedLatentRotary
        };
        let tier = match global_layer % 3 {
            0 => CacheTier::Device,
            1 => CacheTier::Host,
            _ => CacheTier::Disk,
        };
        let id = CacheBlockId {
            session_id: manager.session_id(),
            global_layer,
            representation,
            start: 0,
            end: global_layer as i64 + 1,
            rank: None,
        };
        let mut block = record(id, tier, global_layer as u64 + 1);
        block.protected_prefix = global_layer % 5 == 0;
        manager.blocks.push(block);
        manager.tails.push(CacheTail {
            global_layer,
            bytes: 2,
            end: global_layer as i64 + 1,
        });
    }

    let report = manager.report(None);
    assert_eq!(report.per_layer.len(), CACHE_RESIDENCY_LAYER_REPORT_LIMIT);
    assert_eq!(report.per_layer_overflow_layers, 3);
    assert_eq!(
        report
            .per_layer
            .iter()
            .map(|layer| layer.global_layer)
            .collect::<Vec<_>>(),
        (0..CACHE_RESIDENCY_LAYER_REPORT_LIMIT).collect::<Vec<_>>()
    );

    let mut aggregate = CacheLayerResidencyStats::default();
    for layer in &report.per_layer {
        aggregate.accumulate(&layer.stats);
    }
    aggregate.accumulate(&report.per_layer_overflow);
    assert_eq!(aggregate.key_value_blocks, report.key_value_blocks);
    assert_eq!(
        aggregate.compressed_latent_blocks,
        report.compressed_latent_blocks
    );
    assert_eq!(aggregate.device_blocks, report.device_blocks);
    assert_eq!(aggregate.host_blocks, report.host_blocks);
    assert_eq!(aggregate.disk_blocks, report.disk_blocks);
    assert_eq!(aggregate.current_device_bytes, report.current_device_bytes);
    assert_eq!(aggregate.current_host_bytes, report.current_host_bytes);
    assert_eq!(aggregate.current_disk_bytes, report.current_disk_bytes);
    assert_eq!(aggregate.mutable_tail_bytes, report.mutable_tail_bytes);
    assert_eq!(
        aggregate.protected_recent_blocks,
        report.protected_recent_blocks
    );
    assert_eq!(
        aggregate.protected_prefix_blocks,
        report.protected_prefix_blocks
    );
    assert_eq!(report.logical_cached_tokens, layer_count as u64);
    assert_eq!(
        report.per_layer_overflow.logical_cached_tokens,
        ((CACHE_RESIDENCY_LAYER_REPORT_LIMIT + 1)..=layer_count)
            .map(|tokens| tokens as u64)
            .sum::<u64>()
    );
}

#[test]
fn per_layer_cumulative_attention_is_bounded_and_survives_clear() {
    let mut manager = CacheResidencyManager::new(
        PagedCacheOptions::new(1, u64::MAX, u64::MAX, 1).unwrap(),
        7,
    );
    let layer_count = CACHE_RESIDENCY_LAYER_REPORT_LIMIT + 3;
    for global_layer in 0..layer_count {
        manager.record_attention_scan(
            global_layer,
            global_layer % 2 == 0,
            1,
            global_layer as u64 + 1,
            global_layer as u64 + 7,
        );
    }

    let report = manager.report(None).clone();
    assert_eq!(report.per_layer.len(), CACHE_RESIDENCY_LAYER_REPORT_LIMIT);
    assert_eq!(report.per_layer_overflow_layers, 0);
    assert_eq!(
        report
            .per_layer
            .iter()
            .map(|layer| layer.global_layer)
            .collect::<Vec<_>>(),
        (0..CACHE_RESIDENCY_LAYER_REPORT_LIMIT).collect::<Vec<_>>()
    );
    let mut aggregate = CacheLayerResidencyStats::default();
    for layer in &report.per_layer {
        aggregate.accumulate(&layer.stats);
    }
    aggregate.accumulate(&report.per_layer_overflow);
    assert_eq!(
        aggregate.prefill_full_attention_blocks,
        report.prefill_full_attention_blocks
    );
    assert_eq!(
        aggregate.prefill_full_attention_bytes,
        report.prefill_full_attention_bytes
    );
    assert_eq!(
        aggregate.decode_full_attention_blocks,
        report.decode_full_attention_blocks
    );
    assert_eq!(
        aggregate.decode_full_attention_bytes,
        report.decode_full_attention_bytes
    );
    assert_eq!(
        aggregate.attention_scratch_peak_bytes,
        report.attention_scratch_peak_bytes
    );
    assert_eq!(report.per_layer_overflow.prefill_full_attention_blocks, 2);
    assert_eq!(report.per_layer_overflow.decode_full_attention_blocks, 1);

    manager.clear().unwrap();
    let after_clear = manager.report(None).clone();
    assert_eq!(
        after_clear.per_layer.len(),
        CACHE_RESIDENCY_LAYER_REPORT_LIMIT
    );
    assert_eq!(
        after_clear.prefill_full_attention_blocks,
        report.prefill_full_attention_blocks
    );
    assert_eq!(
        after_clear.per_layer_overflow.decode_full_attention_bytes,
        report.per_layer_overflow.decode_full_attention_bytes
    );
    assert!(after_clear
        .per_layer
        .iter()
        .all(|layer| layer.stats.current_device_bytes == 0
            && layer.stats.current_host_bytes == 0
            && layer.stats.current_disk_bytes == 0));
}

#[test]
fn model_reset_surfaces_propagate_paged_clear_failures() {
    let mut manager = manager_with_leased_block();
    assert!(matches!(manager.clear(), Err(CacheResidencyError::BlockLeased(_))));
    assert_eq!(manager.blocks.len(), 1);

    // A paged cache asks its caller to clear the manager, so the refusal reaches the caller.
    let mut paged: ExpertParallelCache<u8, u8> = ExpertParallelCache::Qwen3Paged(vec![Some(0)]);
    assert_eq!(paged.reset(), CacheReset::ClearManager);
    let mut expert_parallel: ExpertParallelCache<u8, CacheResidencyManager> =
        ExpertParallelCache::GptOss(manager_with_leased_block());
    assert_eq!(expert_parallel.reset(), CacheReset::ResetArchitecture);
    let ExpertParallelCache::GptOss(mut kept) = expert_parallel else {
        panic!("expected the architecture's own cache");
    };
    assert!(kept.clear().is_err());
    assert_eq!(kept.blocks.len(), 1);
}

#[test]
fn abandoned_submissions_can_be_prepared_again() {
    let mut worker = DiskWorker::new(1);
    let key = DiskOperationKey {
        generation: 1,
        id: disk_test_id(0),
        kind: DiskOperationKind::Write,
    };
    let first = worker.prepare(key).ticket;
    worker.abandon(&first);
    assert!(worker.is_ready(&first));
    assert!(worker.resources_released(&first));
    let second = worker.prepare(key);
    assert!(!second.joined);
    assert_ne!(second.ticket, first);
}
