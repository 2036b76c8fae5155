use safemlx_lm::array::Dtype;
use safemlx_lm::cache::StateArray;
use safemlx_lm::cache_residency::block::{
    CacheArray, CacheBlockArrays, CacheBlockId, CacheRepresentation,
};
use safemlx_lm::cache_residency::catalog::DiskLocation;
use safemlx_lm::cache_residency::coverage::{walk_spans, SpanWalk, TokenSpan};
use safemlx_lm::cache_residency::error::CacheResidencyError;
use safemlx_lm::cache_residency::shard::{
    array_names, assemble_block_arrays, is_safe_shard_path, NamedArray,
};
use safemlx_lm::duration::{combine, LONGEST_DURATION};
use safemlx_lm::layerwise::{find_key, has_key, numbered_prefix, numbered_unit_name, CheckpointKey};
use safemlx_lm::offload::OffloadUnitId;
use safemlx_lm::order::{sort_texts, text_precedes};
use safemlx_lm::rows::{copy_rows, extend_rows, overwrite_rows, pad_rows};
use safemlx_lm::text::{
    before_first_dot, behind_last_dot, contains_text, find_text, hex_text, list_text, numeral_text,
    padded_text, parse_size, replace_first, signed_text, sizes_text, strip_prefix, trim,
    wide_decimal_text,
};
use safemlx_lm::units::{UnitNotes, UnitSet};

#[test]
fn numbers_are_written_like_rust_does() {
    assert_eq!(signed_text(i64::MIN), i64::MIN.to_string());
    assert_eq!(wide_decimal_text(u128::MAX), u128::MAX.to_string());
    assert_eq!(numeral_text(0xdead_beef, 16), "deadbeef");
    assert_eq!(padded_text("7", 5), "00007");
    assert_eq!(padded_text("1234567", 5), "1234567");
    assert_eq!(hex_text(&[0, 15, 255]), "000fff");
    assert_eq!(list_text(&vec![1, -2]), format!("{:?}", vec![1, -2]));
    assert_eq!(sizes_text(&vec![3, 4]), format!("{:?}", vec![3, 4]));
    assert_eq!(parse_size("42"), Some(42));
    assert_eq!(parse_size("x"), None);
    assert_eq!(parse_size(""), None);
    assert_eq!(parse_size("99999999999999999999999"), None);
    assert_eq!(parse_size(&usize::MAX.to_string()), Some(usize::MAX));
}

#[test]
fn texts_are_cut_and_searched() {
    assert_eq!(strip_prefix("model.x", "model."), Some("x"));
    assert_eq!(strip_prefix("x", "model."), None);
    assert_eq!(trim(" \t a b \n"), "a b");
    assert_eq!(find_text("abcabc", "ca"), Some(2));
    assert!(contains_text("abc", ""));
    assert!(!contains_text("abc", "d"));
    assert_eq!(replace_first("a.b.a", "a", "x"), "x.b.a");
    assert_eq!(behind_last_dot("a.b.c"), "c");
    assert_eq!(before_first_dot("a.b.c"), "a");
}

#[test]
fn texts_are_sorted_like_strings() {
    let names = ["b", "a", "ab", "", "B"];
    let mut expected: Vec<String> = names.iter().map(|name| name.to_string()).collect();
    expected.sort();
    let sorted = sort_texts(names.iter().map(|name| name.to_string()).collect());
    assert_eq!(sorted, expected);
    assert!(text_precedes("a", "ab"));
    assert!(!text_precedes("b", "ab"));
}

#[test]
fn durations_saturate() {
    assert_eq!(combine(1, 2), 3);
    assert_eq!(combine(LONGEST_DURATION, 1), LONGEST_DURATION);
}

#[test]
fn rows_are_copied_and_overwritten() {
    let mut rows = copy_rows(&vec![1, 2, 3, 4], 1, 3);
    assert_eq!(rows, vec![2, 3]);
    extend_rows(&mut rows, &vec![9]);
    pad_rows(&mut rows, 0, 2);
    assert_eq!(rows, vec![2, 3, 9, 0, 0]);
    overwrite_rows(&mut rows, 3, &vec![7, 8]);
    assert_eq!(rows, vec![2, 3, 9, 7, 8]);
    let array = StateArray { rows, zero: 0 };
    assert_eq!(array.slice(1, 3).rows, vec![3, 9]);
}

#[test]
fn element_types_are_classified() {
    assert!(Dtype::Bfloat16.is_float());
    assert!(!Dtype::Int32.is_float());
    assert!(Dtype::Uint32.is_routable());
    assert!(!Dtype::Float16.is_routable());
    assert_eq!(Dtype::Float32.name(), "Float32");
}

#[test]
fn unit_sets_hold_units_once() {
    let id = OffloadUnitId { id: "layer.0".into() };
    let mut set = UnitSet::new();
    set.insert(&id);
    set.insert(&id);
    assert_eq!(set.len(), 1);
    assert!(set.remove(&id));
    assert!(!set.remove(&id));
    let mut notes = UnitNotes::new();
    let other = OffloadUnitId { id: "layer.1".into() };
    notes.insert(&other, "late".into());
    notes.insert(&id, "early".into());
    let (first, text) = notes.first().unwrap();
    assert_eq!((first.as_str(), text.as_str()), ("layer.0", "early"));
    assert_eq!(notes.remove(&id), Some("early".to_string()));
    assert_eq!(notes.remove(&id), None);
}

#[test]
fn unit_names_are_numbered() {
    assert_eq!(numbered_unit_name("deepseek_v3.layer.", 3), "deepseek_v3.layer.00003");
    assert_eq!(numbered_prefix("model.layers.", 3), "model.layers.3");
    let keys = vec![CheckpointKey { raw: "raw".into(), canonical: "canonical".into() }];
    assert!(has_key(&keys, "raw"));
    assert!(!has_key(&keys, "canonical"));
    assert_eq!(find_key(&keys, "canonical"), Some("raw".to_string()));
    assert_eq!(find_key(&keys, "raw"), None);
}

#[test]
fn spans_cover_a_prefix_in_any_order() {
    let span = |start: i64, end: i64| TokenSpan { start, end };
    assert_eq!(walk_spans(vec![span(2, 4), span(0, 2)], 0), SpanWalk::Reaches(4));
    assert_eq!(
        walk_spans(vec![span(0, 2), span(3, 4)], 0),
        SpanWalk::Breaks { expected: 2, found: 3 }
    );
    assert_eq!(walk_spans(vec![], 0), SpanWalk::Reaches(0));
}

#[test]
fn stored_arrays_are_matched_by_name() {
    let array = |handle: u64| CacheArray {
        handle,
        shape: vec![1],
        dtype: "Float32".into(),
        nbytes: 4,
    };
    let named = |name: &str, handle: u64| NamedArray { name: name.into(), array: array(handle) };
    let location = DiskLocation {
        path: "/tmp/b".into(),
        first_name: "keys".into(),
        second_name: "values".into(),
        persistent: false,
        mapped: false,
        payload_sha256: None,
    };
    let kind = CacheRepresentation::KeyValue;
    assert_eq!(array_names(kind), ("keys", "values"));
    let assembled =
        assemble_block_arrays(&location, kind, vec![named("values", 2), named("keys", 1)]).unwrap();
    assert_eq!(assembled, CacheBlockArrays::KeyValue { keys: array(1), values: array(2) });
    assert!(matches!(
        assemble_block_arrays(&location, kind, vec![named("keys", 1)]),
        Err(CacheResidencyError::MalformedShard { reason, .. }) if reason == "missing array values"
    ));
    let extra = vec![named("keys", 1), named("values", 2), named("other", 3)];
    assert!(matches!(
        assemble_block_arrays(&location, kind, extra),
        Err(CacheResidencyError::MalformedShard { reason, .. }) if reason == "unexpected extra arrays"
    ));
}

#[test]
fn shard_paths_have_plain_components() {
    assert!(is_safe_shard_path("a/b.safetensors"));
    assert!(!is_safe_shard_path("a/../b"));
    assert!(!is_safe_shard_path("/a"));
}

#[test]
fn block_identities_are_ordered() {
    let id = |layer: usize, start: i64| CacheBlockId {
        session_id: 1,
        global_layer: layer,
        representation: CacheRepresentation::KeyValue,
        start,
        end: start + 1,
        rank: None,
    };
    assert!(id(0, 5).precedes(&id(1, 0)));
    assert!(id(0, 0).precedes(&id(0, 1)));
    assert!(!id(0, 0).precedes(&id(0, 0)));
    assert_eq!(id(0, 5).precedes(&id(1, 0)), id(0, 5) < id(1, 0));
}
