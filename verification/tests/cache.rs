use safemlx_lm::cache::{
    CompressedLatentCache, ConcatKeyValueCache, KeyValueCache, LatentArray, SlidingKeyValueCache,
    StateArray,
};

fn states(rows: &[[f32; 2]]) -> StateArray<[f32; 2]> {
    StateArray { rows: rows.to_vec(), zero: [0.0; 2] }
}

fn column(rows: &[f32]) -> StateArray<f32> {
    StateArray { rows: rows.to_vec(), zero: 0.0 }
}

fn latent(batch: i32, width: i32, rows: &[f32]) -> LatentArray<f32> {
    LatentArray { shape: vec![batch, rows.len() as i32, width], states: column(rows) }
}

#[test]
fn chunked_cache_grows_by_steps_and_preserves_sliding_values() {
    let mut cache = ConcatKeyValueCache::new_with_max_size_and_step(8, 4);
    let mut fetched = None;
    for value in 0..10 {
        let row = [value as f32; 2];
        fetched = Some(cache.update_and_fetch(states(&[row]), states(&[row])).0);
        if value == 0 {
            assert_eq!(cache.capacity, 4);
        } else if value == 4 {
            assert_eq!(cache.capacity, 8);
        }
    }

    let fetched = fetched.unwrap();
    assert_eq!(cache.offset(), 10);
    assert_eq!(fetched.rows.len(), 8);
    assert_eq!(fetched.rows[0][0], 2.0);
    assert_eq!(fetched.rows.last().unwrap()[0], 9.0);
}

#[test]
fn sliding_cache_returns_transient_context_and_retains_only_its_window() {
    let mut cache = SlidingKeyValueCache::new(3);
    let keys = [0.0f32, 1.0, 2.0, 3.0];
    let fetched = cache.update_and_fetch(column(&keys), column(&keys)).0;
    assert_eq!(fetched.rows.len(), 4);
    assert_eq!(cache.offset(), 4);
    assert_eq!(cache.arrays()[0].rows.len(), 3);

    let fetched = cache.update_and_fetch(column(&[4.0]), column(&[4.0])).0;
    assert_eq!(fetched.rows.len(), 4);
    assert_eq!(fetched.rows[0], 1.0);
    assert_eq!(cache.arrays()[0].rows.len(), 3);
    assert_eq!(cache.arrays()[0].rows[0], 2.0);
    assert_eq!(cache.offset(), 5);
}

#[test]
fn unbounded_cache_keeps_everything_and_truncates() {
    let mut cache = ConcatKeyValueCache::new_with_step(4);
    cache.update_and_fetch(column(&[1.0, 2.0, 3.0]), column(&[4.0, 5.0, 6.0]));
    let (keys, values) = cache.update_and_fetch(column(&[7.0, 8.0]), column(&[9.0, 10.0]));
    assert_eq!(keys.rows, vec![1.0, 2.0, 3.0, 7.0, 8.0]);
    assert_eq!(values.rows, vec![4.0, 5.0, 6.0, 9.0, 10.0]);
    assert_eq!(cache.capacity(), 8);
    assert_eq!(cache.max_size(), None);
    assert!(!cache.is_quantized());
    assert_eq!((cache.group_size(), cache.bits()), (None, None));
    cache.truncate(2);
    assert_eq!(cache.offset(), 2);
    let (keys, _) = cache.update_and_fetch(column(&[11.0]), column(&[12.0]));
    assert_eq!(keys.rows, vec![1.0, 2.0, 11.0]);
    cache.clear();
    assert_eq!(cache.offset(), 0);
    assert!(cache.arrays().is_empty());
}

#[test]
fn one_long_update_equals_many_short_ones() {
    let mut whole = ConcatKeyValueCache::new_with_max_size(3);
    let rows: Vec<f32> = (0..7).map(|value| value as f32).collect();
    let at_once = whole.update_and_fetch(column(&rows), column(&rows)).0;
    let mut stepped = ConcatKeyValueCache::new_with_max_size(3);
    let mut last = None;
    for row in &rows {
        last = Some(stepped.update_and_fetch(column(&[*row]), column(&[*row])).0);
    }
    assert_eq!(at_once.rows, last.unwrap().rows);
    assert_eq!(whole.offset(), stepped.offset());
}

#[test]
fn compressed_latents_grow_together() {
    let mut cache = CompressedLatentCache::new();
    assert!(cache.arrays().is_none());
    let (latents, rotary) = cache
        .update_and_fetch(latent(1, 4, &[1.0, 2.0]), latent(1, 2, &[3.0, 4.0]))
        .unwrap();
    assert_eq!(latents.states.rows, vec![1.0, 2.0]);
    assert_eq!(rotary.states.rows, vec![3.0, 4.0]);
    assert_eq!(cache.offset(), 2);
    assert_eq!(cache.capacity(), 256);
    let (latents, _) = cache
        .update_and_fetch(latent(1, 4, &[5.0]), latent(1, 2, &[6.0]))
        .unwrap();
    assert_eq!(latents.shape, vec![1, 3, 4]);
    assert_eq!(latents.states.rows, vec![1.0, 2.0, 5.0]);
    let mismatch = cache.update_and_fetch(latent(1, 4, &[5.0, 6.0]), latent(1, 2, &[6.0]));
    assert!(mismatch.is_err());
    assert!(cache.update_and_fetch(latent(1, 3, &[5.0]), latent(1, 2, &[6.0])).is_err());
    assert_eq!(cache.offset(), 3);
    cache.clear();
    assert_eq!(cache.offset(), 0);
}

fn filled<C: KeyValueCache<f32>>(mut cache: C) -> i32 {
    cache.update_and_fetch(column(&[1.0, 2.0]), column(&[3.0, 4.0]));
    assert!(!cache.is_quantized() && cache.bits().is_none() && cache.group_size().is_none());
    assert_eq!(cache.retained_arrays().len(), 2);
    cache.offset()
}

#[test]
fn caches_are_used_through_references() {
    let mut cache = ConcatKeyValueCache::<f32>::default();
    assert_eq!((cache.offset, cache.step, cache.max_size), (0, 0, None));
    assert_eq!(filled(&mut cache), 2);
    assert_eq!(filled(&mut cache), 4);
    assert_eq!(cache.offset(), 4);
    assert_eq!(cache.keys.as_ref().unwrap().rows, vec![1.0, 2.0, 1.0, 2.0]);

    let mut sliding = SlidingKeyValueCache::<f32>::new(3);
    assert_eq!(filled(&mut sliding), 2);
    assert_eq!((&mut sliding).max_size(), Some(3));
}

#[test]
fn clones_share_nothing_with_their_cache() {
    let mut cache = ConcatKeyValueCache::<f32>::new_with_step(4);
    filled(&mut cache);
    let copy = cache.clone();
    filled(&mut cache);
    assert_eq!((copy.offset, copy.length, copy.capacity, copy.step), (2, 2, 4, 4));
    assert_eq!(copy.keys.unwrap().rows, vec![1.0, 2.0, 0.0, 0.0]);
    assert_eq!(copy.values.unwrap().rows, vec![3.0, 4.0, 0.0, 0.0]);

    let mut sliding = SlidingKeyValueCache::<f32>::new(3);
    filled(&mut sliding);
    let copy = sliding.clone();
    assert_eq!((copy.offset, copy.max_size), (2, 3));
    assert_eq!(copy.keys.unwrap().rows, vec![1.0, 2.0]);

    let mut compressed = CompressedLatentCache::<f32>::new();
    compressed
        .update_and_fetch(latent(1, 4, &[1.0, 2.0]), latent(1, 2, &[3.0, 4.0]))
        .unwrap();
    let copy = compressed.clone();
    assert_eq!((copy.offset, copy.length, copy.capacity, copy.step), (2, 2, 256, 256));
    assert_eq!(copy.latent.unwrap().states.rows, vec![1.0, 2.0]);
    assert_eq!(copy.rotary_key.unwrap().shape, vec![1, 2, 2]);
    assert_eq!(copy.storage.unwrap().latent.rows.len(), 256);
}
