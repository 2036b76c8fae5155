//! Replicated attention caches of an expert-parallel model.

use vstd::prelude::*;

use crate::cache::{ConcatKeyValueCache, KeyValueCache, SlidingKeyValueCache};

verus! {

/// Which representation a replicated attention cache has.
#[derive(Debug, Clone, Copy, PartialEq, Eq, Structural)]
pub enum CacheKind {
    /// DeepSeek compressed-latent attention cache.
    DeepSeek,
    /// Qwen3 standard key/value cache.
    Qwen3,
    /// Qwen3 bounded sliding-window key/value cache.
    Qwen3Sliding,
    /// Qwen3 globally budgeted paged key/value cache.
    Qwen3Paged,
    /// GPT-OSS alternating full/sliding attention cache.
    GptOss,
    /// Inkling attention and convolution cache.
    Inkling,
    /// LFM2 heterogeneous attention/convolution cache.
    Lfm2,
    /// Nemotron-H heterogeneous recurrent/attention cache.
    NemotronH,
    /// Qwen3-Next/Qwen3.5 heterogeneous attention cache.
    QwenHybrid,
    /// Qwen3-VL-MoE multimodal-RoPE text cache.
    Qwen3Vl,
}

/// Architecture-checked replicated attention cache used by an EP model. `R` is a row of
/// states and `C` a cache that the architecture keeps itself.
#[derive(Debug)]
pub enum ExpertParallelCache<R, C> {
    /// DeepSeek compressed-latent attention cache.
    DeepSeek(C),
    /// Qwen3 standard key/value cache.
    Qwen3(Vec<Option<ConcatKeyValueCache<R>>>),
    /// Qwen3 bounded sliding-window key/value cache.
    Qwen3Sliding(Vec<Option<SlidingKeyValueCache<R>>>),
    /// Qwen3 globally budgeted paged key/value cache.
    Qwen3Paged(Vec<Option<C>>),
    /// GPT-OSS alternating full/sliding attention cache.
    GptOss(C),
    /// Inkling attention and convolution cache.
    Inkling(C),
    /// LFM2 heterogeneous attention/convolution cache.
    Lfm2(C),
    /// Nemotron-H heterogeneous recurrent/attention cache.
    NemotronH(C),
    /// Qwen3-Next/Qwen3.5 heterogeneous attention cache.
    QwenHybrid(C),
    /// Qwen3-VL-MoE multimodal-RoPE text cache.
    Qwen3Vl(C),
}

/// What remains to be done after a cache was reset here.
#[derive(Debug, Clone, Copy, PartialEq, Eq, Structural)]
pub enum CacheReset {
    /// Nothing: all cached state is gone.
    Done,
    /// The shared manager of the paged layers is cleared first; where that succeeds, every
    /// layer then resets its own state.
    ClearManager,
    /// The architecture resets the cache that it keeps.
    ResetArchitecture,
}

/// Whether every layer's cache is what clearing it leaves.
pub open spec fn all_cleared<R: Copy>(
    after: Seq<Option<ConcatKeyValueCache<R>>>,
    before: Seq<Option<ConcatKeyValueCache<R>>>,
) -> bool {
    &&& after.len() == before.len()
    &&& forall|i: int|
        0 <= i < after.len() ==> (#[trigger] after[i]) == (match before[i] {
            Some(cache) => Some(
                ConcatKeyValueCache::<R> {
                    keys: None,
                    values: None,
                    offset: 0,
                    length: 0,
                    capacity: 0,
                    ..cache
                },
            ),
            None => None,
        })
}

/// Whether every layer's sliding cache is what clearing it leaves.
pub open spec fn all_slid_clear<R: Copy>(
    after: Seq<Option<SlidingKeyValueCache<R>>>,
    before: Seq<Option<SlidingKeyValueCache<R>>>,
) -> bool {
    &&& after.len() == before.len()
    &&& forall|i: int|
        0 <= i < after.len() ==> (#[trigger] after[i]) == (match before[i] {
            Some(cache) => Some(
                SlidingKeyValueCache::<R> { keys: None, values: None, offset: 0, ..cache },
            ),
            None => None,
        })
}

/// Whether some layer has a cache.
pub open spec fn any_layer<C>(layers: Seq<Option<C>>) -> bool {
    exists|i: int| 0 <= i < layers.len() && (#[trigger] layers[i]) is Some
}

fn has_layer<C>(layers: &Vec<Option<C>>) -> (some: bool)
    ensures
        some == any_layer(layers@),
{
    let mut index: usize = 0;
    while index < layers.len()
        invariant
            index <= layers@.len(),
            forall|i: int| 0 <= i < index ==> (#[trigger] layers@[i]) is None,
        decreases layers@.len() - index,
    {
        if layers[index].is_some() {
            return true;
        }
        index = index + 1;
    }
    false
}

impl<R: Copy, C> ExpertParallelCache<R, C> {
    /// The representation of the cache.
    pub open spec fn representation(self) -> CacheKind {
        match self {
            ExpertParallelCache::DeepSeek(_) => CacheKind::DeepSeek,
            ExpertParallelCache::Qwen3(_) => CacheKind::Qwen3,
            ExpertParallelCache::Qwen3Sliding(_) => CacheKind::Qwen3Sliding,
            ExpertParallelCache::Qwen3Paged(_) => CacheKind::Qwen3Paged,
            ExpertParallelCache::GptOss(_) => CacheKind::GptOss,
            ExpertParallelCache::Inkling(_) => CacheKind::Inkling,
            ExpertParallelCache::Lfm2(_) => CacheKind::Lfm2,
            ExpertParallelCache::NemotronH(_) => CacheKind::NemotronH,
            ExpertParallelCache::QwenHybrid(_) => CacheKind::QwenHybrid,
            ExpertParallelCache::Qwen3Vl(_) => CacheKind::Qwen3Vl,
        }
    }

    /// Returns the representation of the cache.
    pub fn kind(&self) -> (kind: CacheKind)
        ensures
            kind == self.representation(),
    {
        match self {
            ExpertParallelCache::DeepSeek(_) => CacheKind::DeepSeek,
            ExpertParallelCache::Qwen3(_) => CacheKind::Qwen3,
            ExpertParallelCache::Qwen3Sliding(_) => CacheKind::Qwen3Sliding,
            ExpertParallelCache::Qwen3Paged(_) => CacheKind::Qwen3Paged,
            ExpertParallelCache::GptOss(_) => CacheKind::GptOss,
            ExpertParallelCache::Inkling(_) => CacheKind::Inkling,
            ExpertParallelCache::Lfm2(_) => CacheKind::Lfm2,
            ExpertParallelCache::NemotronH(_) => CacheKind::NemotronH,
            ExpertParallelCache::QwenHybrid(_) => CacheKind::QwenHybrid,
            ExpertParallelCache::Qwen3Vl(_) => CacheKind::Qwen3Vl,
        }
    }

    /// Clears all cached attention state that is kept here, and answers what the keeper of
    /// other state does next.
    pub fn reset(&mut self) -> (next: CacheReset)
        ensures
            match *old(self) {
                ExpertParallelCache::Qwen3(before) => {
                    &&& next == CacheReset::Done
                    &&& *final(self) matches ExpertParallelCache::Qwen3(after) && all_cleared(
                        after@,
                        before@,
                    )
                },
                ExpertParallelCache::Qwen3Sliding(before) => {
                    &&& next == CacheReset::Done
                    &&& *final(self) matches ExpertParallelCache::Qwen3Sliding(after)
                        && all_slid_clear(after@, before@)
                },
                ExpertParallelCache::Qwen3Paged(layers) => {
                    &&& next == (if any_layer(layers@) {
                        CacheReset::ClearManager
                    } else {
                        CacheReset::Done
                    })
                    &&& *final(self) == *old(self)
                },
                _ => next == CacheReset::ResetArchitecture && *final(self) == *old(self),
            },
    {
        match self {
            ExpertParallelCache::Qwen3(caches) => {
                clear_layers(caches);
                CacheReset::Done
            },
            ExpertParallelCache::Qwen3Sliding(caches) => {
                clear_sliding_layers(caches);
                CacheReset::Done
            },
            ExpertParallelCache::Qwen3Paged(layers) => if has_layer(layers) {
                CacheReset::ClearManager
            } else {
                CacheReset::Done
            },
            _ => CacheReset::ResetArchitecture,
        }
    }

    /// Returns the common replicated cache offset: that of the first layer, or nothing
    /// where no layer has cached anything. Caches that the architecture keeps have the
    /// offset `kept`.
    pub fn offset(&self, kept: i32) -> (offset: i32)
        ensures
            offset == (match *self {
                ExpertParallelCache::Qwen3(caches) => if caches@.len() > 0 {
                    match caches@[0] {
                        Some(cache) => cache.offset as int,
                        None => 0,
                    }
                } else {
                    0
                },
                ExpertParallelCache::Qwen3Sliding(caches) => if caches@.len() > 0 {
                    match caches@[0] {
                        Some(cache) => cache.offset as int,
                        None => 0,
                    }
                } else {
                    0
                },
                ExpertParallelCache::Qwen3Paged(caches) => if caches@.len() > 0 && caches@[0]
                    is Some {
                    kept as int
                } else {
                    0
                },
                _ => kept as int,
            }),
    {
        match self {
            ExpertParallelCache::Qwen3(caches) => if caches.len() > 0 {
                match &caches[0] {
                    Some(cache) => cache.offset(),
                    None => 0,
                }
            } else {
                0
            },
            ExpertParallelCache::Qwen3Sliding(caches) => if caches.len() > 0 {
                match &caches[0] {
                    Some(cache) => cache.offset(),
                    None => 0,
                }
            } else {
                0
            },
            ExpertParallelCache::Qwen3Paged(caches) => if caches.len() > 0 && caches[0].is_some() {
                kept
            } else {
                0
            },
            _ => kept,
        }
    }
}

fn clear_layers<R: Copy>(caches: &mut Vec<Option<ConcatKeyValueCache<R>>>)
    ensures
        all_cleared(final(caches)@, old(caches)@),
{
    let ghost before = caches@;
    let mut index: usize = 0;
    while index < caches.len()
        invariant
            index <= caches@.len() == before.len(),
            all_cleared(caches@.take(index as int), before.take(index as int)),
            caches@.skip(index as int) == before.skip(index as int),
        decreases caches@.len() - index,
    {
        let ghost earlier = caches@;
        assert(earlier.skip(index as int)[0] == before.skip(index as int)[0]);
        match &mut caches[index] {
            Some(cache) => {
                cache.clear();
            },
            None => {},
        }
        proof {
            let done = caches@.take(index + 1);
            let past = before.take(index + 1);
            assert forall|i: int| 0 <= i < done.len() implies (#[trigger] done[i]) == (match past[i] {
                Some(cache) => Some(
                    ConcatKeyValueCache::<R> {
                        keys: None,
                        values: None,
                        offset: 0,
                        length: 0,
                        capacity: 0,
                        ..cache
                    },
                ),
                None => None,
            }) by {
                if i < index {
                    assert(earlier.take(index as int)[i] == done[i]);
                    assert(before.take(index as int)[i] == past[i]);
                }
            }
            let rest = caches@.skip(index + 1);
            assert forall|i: int| 0 <= i < rest.len() implies #[trigger] rest[i] == before.skip(
                index + 1,
            )[i] by {
                assert(earlier.skip(index as int)[i + 1] == before.skip(index as int)[i + 1]);
            }
            assert(rest =~= before.skip(index + 1));
        }
        index = index + 1;
    }
    assert(caches@.take(index as int) =~= caches@);
    assert(before.take(index as int) =~= before);
}

fn clear_sliding_layers<R: Copy>(caches: &mut Vec<Option<SlidingKeyValueCache<R>>>)
    ensures
        all_slid_clear(final(caches)@, old(caches)@),
{
    let ghost before = caches@;
    let mut index: usize = 0;
    while index < caches.len()
        invariant
            index <= caches@.len() == before.len(),
            all_slid_clear(caches@.take(index as int), before.take(index as int)),
            caches@.skip(index as int) == before.skip(index as int),
        decreases caches@.len() - index,
    {
        let ghost earlier = caches@;
        assert(earlier.skip(index as int)[0] == before.skip(index as int)[0]);
        match &mut caches[index] {
            Some(cache) => {
                cache.clear();
            },
            None => {},
        }
        proof {
            let done = caches@.take(index + 1);
            let past = before.take(index + 1);
            assert forall|i: int| 0 <= i < done.len() implies (#[trigger] done[i]) == (match past[i] {
                Some(cache) => Some(
                    SlidingKeyValueCache::<R> { keys: None, values: None, offset: 0, ..cache },
                ),
                None => None,
            }) by {
                if i < index {
                    assert(earlier.take(index as int)[i] == done[i]);
                    assert(before.take(index as int)[i] == past[i]);
                }
            }
            let rest = caches@.skip(index + 1);
            assert forall|i: int| 0 <= i < rest.len() implies #[trigger] rest[i] == before.skip(
                index + 1,
            )[i] by {
                assert(earlier.skip(index as int)[i + 1] == before.skip(index as int)[i + 1]);
            }
            assert(rest =~= before.skip(index + 1));
        }
        index = index + 1;
    }
    assert(caches@.take(index as int) =~= caches@);
    assert(before.take(index as int) =~= before);
}

/// Cleared caches hold nothing and keep their place: a layer has a cache exactly where it
/// had one, without states, at the start and without capacity, and its growth and its
/// window stay as they were set.
pub proof fn cleared_layers_start_over<R: Copy>(
    after: Seq<Option<ConcatKeyValueCache<R>>>,
    before: Seq<Option<ConcatKeyValueCache<R>>>,
    i: int,
)
    requires
        all_cleared(after, before),
        0 <= i < before.len(),
    ensures
        after.len() == before.len(),
        before[i] is None ==> after[i] is None,
        before[i] is Some ==> {
            &&& after[i] is Some
            &&& after[i]->Some_0.keys is None
            &&& after[i]->Some_0.values is None
            &&& after[i]->Some_0.offset == 0
            &&& after[i]->Some_0.length == 0
            &&& after[i]->Some_0.capacity == 0
            &&& after[i]->Some_0.step == before[i]->Some_0.step
            &&& after[i]->Some_0.max_size == before[i]->Some_0.max_size
        },
{
    let here = after[i];
}

/// Cleared sliding caches hold nothing and keep their window.
pub proof fn cleared_windows_start_over<R: Copy>(
    after: Seq<Option<SlidingKeyValueCache<R>>>,
    before: Seq<Option<SlidingKeyValueCache<R>>>,
    i: int,
)
    requires
        all_slid_clear(after, before),
        0 <= i < before.len(),
    ensures
        after.len() == before.len(),
        before[i] is None ==> after[i] is None,
        before[i] is Some ==> {
            &&& after[i] is Some
            &&& after[i]->Some_0.keys is None
            &&& after[i]->Some_0.values is None
            &&& after[i]->Some_0.offset == 0
            &&& after[i]->Some_0.max_size == before[i]->Some_0.max_size
        },
{
    let here = after[i];
}

/// The offset of a cache is that of its first layer; a cache that the architecture keeps
/// has the offset that is kept with it, and one without layers starts at zero.
pub proof fn offsets_are_those_of_the_first_layer<R: Copy, C>(
    cache: ExpertParallelCache<R, C>,
    kept: i32,
    offset: i32,
)
    requires
        call_ensures(ExpertParallelCache::<R, C>::offset, (&cache, kept), offset),
    ensures
        cache matches ExpertParallelCache::Qwen3(layers) ==> (layers@.len() > 0 && layers@[0] is Some
            ==> offset == layers@[0]->Some_0.offset),
        cache matches ExpertParallelCache::Qwen3(layers) ==> (layers@.len() == 0 ==> offset == 0),
        cache matches ExpertParallelCache::Qwen3Sliding(layers) ==> (layers@.len() > 0 && layers@[0]
            is Some ==> offset == layers@[0]->Some_0.offset),
        cache matches ExpertParallelCache::Qwen3Sliding(layers) ==> (layers@.len() == 0 ==> offset
            == 0),
        !(cache is Qwen3 || cache is Qwen3Sliding || cache is Qwen3Paged) ==> offset == kept,
{
}

} // verus!
