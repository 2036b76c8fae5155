use safemlx_lm::array::Dtype;
use safemlx_lm::expert_cache::acquire::{
    after_host_step, check_route_dtype, AcquireOutcome, AcquisitionCounts, ExpertCache, HostStep,
};
use safemlx_lm::expert_cache::catalog::{
    catalog_experts, ExpertCacheLoadOptions, ExpertCatalogEntry, ExpertIdentity, ExpertPass,
};
use safemlx_lm::expert_cache::error::ExpertCacheError;
use safemlx_lm::expert_cache::report::{
    count_evicted, count_resident, ResidencyReport, UnitResidency,
};
use safemlx_lm::offload::{
    CacheEvictionPolicy, LayerwiseLoadOptions, MemoryTier, OffloadConfig, OffloadUnit,
};

fn config(device: u64, host: u64) -> OffloadConfig {
    OffloadConfig {
        device_budget_bytes: Some(device),
        host_budget_bytes: Some(host),
        prefetch_units: 1,
        eviction_policy: CacheEvictionPolicy::LeastRecentlyUsed,
    }
}

fn options(device: u64, host: u64, scratch: u64) -> ExpertCacheLoadOptions {
    let non_expert = LayerwiseLoadOptions {
        offload: config(1024, 1024),
        max_mapped_shards: 4,
    };
    ExpertCacheLoadOptions::new(non_expert, config(device, host), scratch).unwrap()
}

fn entry(layer: usize, expert: usize, bytes: u64) -> ExpertCatalogEntry {
    let identity = ExpertIdentity::new(layer, expert);
    let unit = OffloadUnit {
        id: identity.unit_id(),
        bindings: vec!["weight".into(), "scale".into()],
    };
    ExpertCatalogEntry::new(identity, unit, bytes).unwrap()
}

fn cache(device: u64, host: u64, scratch: u64) -> ExpertCache<()> {
    let entries = (0..3).map(|expert| entry(2, expert, 16)).collect();
    let options = options(device, host, scratch);
    let catalog = catalog_experts(&entries, &options).unwrap();
    ExpertCache::new(catalog, &options, ())
}

fn residency(device: &[usize]) -> ResidencyReport {
    ResidencyReport {
        units: (0..3)
            .map(|expert| UnitResidency {
                id: ExpertIdentity::new(2, expert).unit_id().as_str().to_string(),
                expected_bytes: 16,
                host_resident: false,
                device_resident: device.contains(&expert),
            })
            .collect(),
        peak_host_bytes: 0,
        peak_device_bytes: 16 * device.len() as u64,
    }
}

#[test]
fn coalesces_routes_in_global_order_and_separates_pass_counters() {
    let mut cache = cache(32, 32, 32);
    let plan = cache.plan_routes(2, &[2, 0, 2, 0], &vec![2, 2]).unwrap();
    let mut counts = AcquisitionCounts::new();
    counts.observe(false, false);
    counts.observe(false, false);
    let first = cache.finish_acquisition(
        plan,
        ExpertPass::Prefill,
        vec![0, 2],
        counts,
        &residency(&[]),
        &residency(&[0, 2]),
        0,
    );
    assert_eq!(
        first.identities(),
        &[ExpertIdentity::new(2, 0), ExpertIdentity::new(2, 2)]
    );
    assert_eq!(first.demand(), &[2, 2]);
    assert_eq!(first.compact_routes(), &[1, 0, 1, 0]);
    assert_eq!(first.pass(), ExpertPass::Prefill);
    assert_eq!(first.leases(), &[0, 2]);

    let plan = cache.plan_routes(2, &[0, 2], &vec![1, 2]).unwrap();
    let mut counts = AcquisitionCounts::new();
    counts.observe(false, true);
    counts.observe(false, true);
    cache.finish_acquisition(
        plan,
        ExpertPass::Decode,
        vec![0, 2],
        counts,
        &residency(&[0, 2]),
        &residency(&[0, 2]),
        0,
    );
    let report = cache.report(residency(&[0, 2]));
    assert_eq!(report.prefill.requested_routes, 4);
    assert_eq!(report.prefill.distinct_experts, 2);
    assert_eq!(report.prefill.coalesced_duplicates, 2);
    assert_eq!(report.prefill.device.misses, 2);
    assert_eq!(report.decode.requested_routes, 2);
    assert_eq!(report.decode.device.hits, 2);
    assert_eq!(report.owned_experts, 3);
    assert_eq!(report.owned_bytes, 48);
    assert_eq!(report.device_resident_experts, 2);
    assert_eq!(report.device_resident_bytes, 32);
}

#[test]
fn rejects_invalid_missing_and_over_scratch_routes_before_loading() {
    let cache = cache(48, 0, 16);
    assert!(matches!(
        cache.plan_routes(2, &[-1], &vec![1]),
        Err(ExpertCacheError::InvalidExpertId { .. })
    ));
    assert!(matches!(
        cache.plan_routes(2, &[3], &vec![1]),
        Err(ExpertCacheError::MissingOwnedExpert { .. })
    ));
    assert!(matches!(
        cache.plan_routes(2, &[0, 1], &vec![2]),
        Err(ExpertCacheError::ScratchLimitExceeded { .. })
    ));
    let report = cache.report(residency(&[]));
    assert_eq!(report.device_resident_experts, 0);
    assert_eq!(report.prefill.requested_routes, 0);
    assert_eq!(report.decode.requested_routes, 0);
}

#[test]
fn empty_routes_do_not_materialize_or_build_a_bank() {
    let mut cache = cache(16, 16, 16);
    let plan = cache.plan_routes(2, &[], &vec![0, 2]).unwrap();
    let acquired = cache.finish_acquisition(
        plan,
        ExpertPass::Decode,
        Vec::<u8>::new(),
        AcquisitionCounts::new(),
        &residency(&[]),
        &residency(&[]),
        0,
    );
    assert!(acquired.is_empty());
    assert_eq!(acquired.scratch_bytes(), 0);
    assert_eq!(acquired.plan.route_shape, &[0, 2]);
    assert!(matches!(
        acquired.compact_binding("weight"),
        Err(ExpertCacheError::EmptyCompactBinding { .. })
    ));
    let report = cache.report(residency(&[]));
    assert_eq!(report.host_resident_experts, 0);
    assert_eq!(report.device_resident_experts, 0);
    assert_eq!(report.decode.compact_banks, 0);
}

#[test]
fn route_shapes_and_layers_are_checked() {
    let cache = cache(48, 0, 48);
    assert!(matches!(
        cache.plan_routes(7, &[0], &vec![1]),
        Err(ExpertCacheError::UnknownLayer { layer: 7 })
    ));
    assert!(matches!(
        cache.plan_routes(2, &[0], &vec![-1]),
        Err(ExpertCacheError::InvalidRouteShape(_))
    ));
    assert!(matches!(
        cache.plan_routes(2, &[0, 1], &vec![3]),
        Err(ExpertCacheError::RouteShapeMismatch { .. })
    ));
    assert!(matches!(
        check_route_dtype(Dtype::Float32),
        Err(ExpertCacheError::InvalidRouteDtype { actual: Dtype::Float32 })
    ));
    assert!(check_route_dtype(Dtype::Int32).is_ok());
}

#[test]
fn expert_catalogs_are_checked() {
    let options = options(48, 0, 48);
    assert!(matches!(
        catalog_experts(&Vec::new(), &options),
        Err(ExpertCacheError::EmptyCatalog)
    ));
    assert!(matches!(
        catalog_experts(&vec![entry(0, 1, 8), entry(0, 1, 8)], &options),
        Err(ExpertCacheError::DuplicateExpert { .. })
    ));
    let identity = ExpertIdentity::new(0, 1);
    let unit = OffloadUnit { id: ExpertIdentity::new(0, 2).unit_id(), bindings: vec![] };
    assert!(matches!(
        ExpertCatalogEntry::new(identity, unit.clone(), 8),
        Err(ExpertCacheError::UnitIdentityMismatch { .. })
    ));
    assert!(matches!(
        ExpertCatalogEntry::new(ExpertIdentity::new(0, 2), unit, 0),
        Err(ExpertCacheError::ZeroSizedExpert { .. })
    ));
    let non_expert = LayerwiseLoadOptions { offload: config(1, 1), max_mapped_shards: 1 };
    assert!(matches!(
        ExpertCacheLoadOptions::new(non_expert, config(1, 1), 0),
        Err(ExpertCacheError::ZeroScratchLimit)
    ));
    let sorted = catalog_experts(&vec![entry(1, 0, 4), entry(0, 3, 8)], &options).unwrap();
    assert_eq!(sorted[0].identity, ExpertIdentity::new(0, 3));
    assert_eq!(sorted[1].identity, ExpertIdentity::new(1, 0));
}

#[test]
fn expert_units_have_distinct_padded_names() {
    assert_eq!(
        ExpertIdentity::new(0, 1).unit_id().as_str(),
        "expert.layer.00000.global.00001"
    );
    assert_eq!(
        ExpertIdentity::new(123456, 7).unit_id().as_str(),
        "expert.layer.123456.global.00007"
    );
    assert_ne!(
        ExpertIdentity::new(1, 0).unit_id().as_str(),
        ExpertIdentity::new(0, 1).unit_id().as_str()
    );
}

#[test]
fn host_staging_is_optional_only_while_the_device_can_load_directly() {
    let staged = cache(48, 48, 48);
    assert_eq!(staged.host_step(false, false), HostStep::Try);
    assert_eq!(staged.host_step(true, true), HostStep::Require);
    assert_eq!(staged.host_step(false, true), HostStep::Skip);
    let direct = cache(48, 0, 48);
    assert_eq!(direct.host_step(false, false), HostStep::Skip);
    let exhausted = AcquireOutcome::BudgetExhausted {
        tier: MemoryTier::Host,
        message: "full".into(),
    };
    assert!(after_host_step(HostStep::Try, &exhausted).is_ok());
    assert!(after_host_step(HostStep::Require, &exhausted).is_err());
    let failed = AcquireOutcome::Failed { message: "broken".into() };
    assert!(after_host_step(HostStep::Try, &failed).is_err());
    assert!(after_host_step(HostStep::Try, &AcquireOutcome::Acquired).is_ok());
}

#[test]
fn compact_banks_respect_the_scratch_limit() {
    let mut cache = cache(48, 0, 40);
    cache.record_compact_bank(ExpertPass::Decode, 32, 5).unwrap();
    cache.record_compact_bank(ExpertPass::Decode, 16, 5).unwrap();
    assert!(matches!(
        cache.record_compact_bank(ExpertPass::Decode, 41, 5),
        Err(ExpertCacheError::ScratchLimitExceeded { required_bytes: 41, limit_bytes: 40, .. })
    ));
    let report = cache.report(residency(&[]));
    assert_eq!(report.decode.compact_banks, 2);
    assert_eq!(report.decode.compact_bank_bytes, 48);
    assert_eq!(report.decode.peak_compact_bank_bytes, 32);
    assert_eq!(report.decode.compact_bank_time, 10);
}

#[test]
fn evictions_are_units_that_left_a_tier() {
    let before = residency(&[0, 1]);
    let after = residency(&[1, 2]);
    assert_eq!(count_evicted(&before.units, &after.units, false), (1, 16));
    assert_eq!(count_evicted(&before.units, &after.units, true), (0, 0));
    assert_eq!(count_resident(&after.units, false), (2, 32));
}

#[test]
fn error_texts_name_the_expert() {
    let error = ExpertCacheError::ScratchLimitExceeded {
        required_bytes: 32,
        limit_bytes: 16,
        distinct_experts: 2,
    };
    let text = error.message();
    assert!(text.contains("32") && text.contains("16"));
    let quoted = ExpertCacheError::EmptyCompactBinding { name: "gate\"up".into() }.message();
    assert!(quoted.contains("gate"));
}

#[test]
fn pass_statistics_add_up() {
    let mut cache = cache(48, 48, 48);
    for ids in [vec![2, 0, 2, 0, 1], vec![1, 1], vec![]] {
        let plan = cache.plan_routes(2, &ids, &vec![ids.len() as i32]).unwrap();
        let mut counts = AcquisitionCounts::new();
        for index in 0..plan.identities.len() {
            counts.observe(index == 0, index == 1);
        }
        cache.finish_acquisition(
            plan,
            ExpertPass::Prefill,
            vec![0; 3],
            counts,
            &residency(&[]),
            &residency(&[]),
            1,
        );
        cache.record_compact_bank(ExpertPass::Prefill, 16, 2).unwrap();
    }
    let pass = cache.report(residency(&[])).prefill;
    assert_eq!(pass.requested_routes, 7);
    assert_eq!(pass.distinct_experts, 4);
    assert_eq!(pass.coalesced_duplicates, 3);
    assert_eq!((pass.host.requests, pass.host.hits, pass.host.misses), (4, 2, 2));
    assert_eq!((pass.device.requests, pass.device.hits, pass.device.misses), (4, 1, 3));
    assert_eq!((pass.compact_bank_bytes, pass.peak_compact_bank_bytes), (48, 16));
}

#[test]
fn units_are_ordered_as_their_experts() {
    let identities = [
        ExpertIdentity::new(0, 99999),
        ExpertIdentity::new(1, 0),
        ExpertIdentity::new(1, 9),
        ExpertIdentity::new(1, 10),
        ExpertIdentity::new(10, 2),
        ExpertIdentity::new(99999, 99999),
    ];
    for left in &identities {
        for right in &identities {
            let (a, b) = (left.unit_id(), right.unit_id());
            assert_eq!(left < right, a.as_str() < b.as_str());
            assert_eq!(left == right, a.as_str() == b.as_str());
        }
    }
}
