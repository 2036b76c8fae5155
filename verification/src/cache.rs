//! Key/value caches of attention layers.

use vstd::prelude::*;

use crate::error::{Error, Failure};
use crate::rows::{copy_rows, extend_rows, overwrite_rows, pad_rows};

verus! {

/// Tokens by which the storage of a [`CompressedLatentCache`] grows.
pub const COMPRESSED_LATENT_CACHE_STEP: i32 = 256;

/// States of consecutive tokens, one row each along the sequence axis, and the row of
/// zeros of the same lanes and element type.
#[derive(Debug)]
pub struct StateArray<R> {
    /// Rows in token order.
    pub rows: Vec<R>,
    /// The row of zeros that padding consists of.
    pub zero: R,
}

impl<R: Copy> StateArray<R> {
    /// Copies the rows from `start` up to `end`.
    pub fn slice(&self, start: usize, end: usize) -> (part: Self)
        requires
            start <= end <= self.rows@.len(),
        ensures
            part.rows@ == self.rows@.subrange(start as int, end as int),
            part.zero == self.zero,
    {
        StateArray { rows: copy_rows(&self.rows, start, end), zero: self.zero }
    }

    /// Copies all rows.
    pub fn copy(&self) -> (part: Self)
        ensures
            part.rows@ == self.rows@,
            part.zero == self.zero,
    {
        let part = self.slice(0, self.rows.len());
        assert(part.rows@ =~= self.rows@);
        part
    }
}

impl<R: Copy> Clone for StateArray<R> {
    fn clone(&self) -> (part: Self)
        ensures
            same_states(part, *self),
    {
        self.copy()
    }
}

/// Whether two arrays hold the same states.
pub open spec fn same_states<R>(left: StateArray<R>, right: StateArray<R>) -> bool {
    &&& left.rows@ == right.rows@
    &&& left.zero == right.zero
}

/// Whether the same states are stored twice, or nothing is.
pub open spec fn same_storage<R>(
    left: Option<StateArray<R>>,
    right: Option<StateArray<R>>,
) -> bool {
    match (left, right) {
        (Some(left), Some(right)) => same_states(left, right),
        (None, None) => true,
        _ => false,
    }
}

fn copy_storage<R: Copy>(storage: &Option<StateArray<R>>) -> (copy: Option<StateArray<R>>)
    ensures
        same_storage(copy, *storage),
{
    match storage {
        Some(array) => Some(array.copy()),
        None => None,
    }
}

/// A per-layer attention key/value cache.
pub trait KeyValueCache<R: Copy>: Sized {
    /// Whether the fields of the cache agree with one another.
    spec fn wf(&self) -> bool;

    /// The sequence offset that the cache represents.
    spec fn position(&self) -> int;

    /// The most tokens that the cache retains, if it is bounded.
    spec fn window(&self) -> Option<int>;

    /// Whether states of the same lanes and element type as these are cached, and the
    /// token counts stay within the limits of the array runtime.
    spec fn admits(&self, keys: StateArray<R>, values: StateArray<R>) -> bool;

    /// Returns whether this cache stores quantized keys and values.
    fn is_quantized(&self) -> (quantized: bool)
        default_ensures
            !quantized,
    {
        false
    }

    /// Returns the group size used for quantization. `None` if not quantized.
    fn group_size(&self) -> (size: Option<i32>)
        default_ensures
            size is None,
    {
        None
    }

    /// Returns the number of bits used for quantization. `None` if not quantized.
    fn bits(&self) -> (bits: Option<i32>)
        default_ensures
            bits is None,
    {
        None
    }

    /// Returns the current sequence offset represented by the cache.
    fn offset(&self) -> (offset: i32)
        ensures
            offset == self.position(),
    ;

    /// Returns the maximum retained sequence length for sliding-window caches.
    fn max_size(&self) -> (size: Option<i32>)
        ensures
            self.window() == (match size {
                Some(size) => Some(size as int),
                None => None,
            }),
    ;

    /// Returns retained cache arrays that must be materialized before weights
    /// used to produce them can be released.
    fn retained_arrays(&self) -> (arrays: Vec<&StateArray<R>>)
        default_ensures
            arrays@.len() == 0,
    {
        Vec::new()
    }

    /// Adds the newest keys and values and returns the full keys and values to attend over.
    fn update_and_fetch(&mut self, keys: StateArray<R>, values: StateArray<R>) -> (fetched: (
        StateArray<R>,
        StateArray<R>,
    ))
        requires
            (*old(self)).wf(),
            (*old(self)).admits(keys, values),
        ensures
            (*final(self)).wf(),
            (*final(self)).position() == (*old(self)).position() + keys.rows@.len(),
            (*final(self)).window() == (*old(self)).window(),
    ;
}

impl<R: Copy, T: KeyValueCache<R>> KeyValueCache<R> for &mut T {
    open spec fn wf(&self) -> bool {
        (**self).wf()
    }

    open spec fn position(&self) -> int {
        (**self).position()
    }

    open spec fn window(&self) -> Option<int> {
        (**self).window()
    }

    open spec fn admits(&self, keys: StateArray<R>, values: StateArray<R>) -> bool {
        (**self).admits(keys, values)
    }

    fn is_quantized(&self) -> (quantized: bool)
        ensures
            call_ensures(T::is_quantized, (&*old(*self),), quantized),
    {
        T::is_quantized(self)
    }

    fn group_size(&self) -> (size: Option<i32>)
        ensures
            call_ensures(T::group_size, (&*old(*self),), size),
    {
        T::group_size(self)
    }

    fn bits(&self) -> (bits: Option<i32>)
        ensures
            call_ensures(T::bits, (&*old(*self),), bits),
    {
        T::bits(self)
    }

    fn offset(&self) -> (offset: i32) {
        T::offset(self)
    }

    fn max_size(&self) -> (size: Option<i32>) {
        T::max_size(self)
    }

    fn retained_arrays(&self) -> (arrays: Vec<&StateArray<R>>)
        ensures
            call_ensures(T::retained_arrays, (&*old(*self),), arrays),
    {
        T::retained_arrays(self)
    }

    fn update_and_fetch(&mut self, keys: StateArray<R>, values: StateArray<R>) -> (fetched: (
        StateArray<R>,
        StateArray<R>,
    )) {
        T::update_and_fetch(self, keys, values)
    }
}

/// The rows of an array, or none where it is absent.
pub open spec fn rows_of<R>(array: Option<StateArray<R>>) -> Seq<R> {
    match array {
        Some(array) => array.rows@,
        None => Seq::empty(),
    }
}

/// The newest rows that a window retains.
pub open spec fn newest<R>(rows: Seq<R>, window: Option<i32>) -> Seq<R> {
    match window {
        Some(window) => if rows.len() > window {
            rows.skip(rows.len() - window)
        } else {
            rows
        },
        None => rows,
    }
}

/// A cache that appends all key/value states along the sequence axis.
#[derive(Debug)]
pub struct ConcatKeyValueCache<R> {
    /// Stored keys, with padding behind the logical length.
    pub keys: Option<StateArray<R>>,
    /// Stored values, with padding behind the logical length.
    pub values: Option<StateArray<R>>,
    /// Tokens seen.
    pub offset: i32,
    /// Tokens retained.
    pub length: i32,
    /// Tokens that the storage has room for.
    pub capacity: i32,
    /// Tokens by which the storage grows; at most one means exact growth.
    pub step: i32,
    /// Most tokens retained.
    pub max_size: Option<i32>,
}

/// The capacity that `required` tokens need: whole chunks, but no more than the window.
pub open spec fn grown(required: int, step: i32, max_size: Option<i32>) -> int {
    let chunk = if step > 1 {
        step as int
    } else {
        1
    };
    let capacity = (required + chunk - 1) / chunk * chunk;
    match max_size {
        Some(max_size) => if max_size < capacity {
            max_size as int
        } else {
            capacity
        },
        None => capacity,
    }
}

/// Whether the stored array agrees with the counters of its cache: rows up to the
/// capacity, zeros behind the logical length.
pub open spec fn stores<R>(array: Option<StateArray<R>>, length: i32, capacity: i32) -> bool {
    match array {
        Some(array) => {
            &&& array.rows@.len() == capacity
            &&& array.rows@.skip(length as int) == crate::rows::repeated(
                array.zero,
                (capacity - length) as nat,
            )
        },
        None => length == 0 && capacity == 0,
    }
}

/// Whether an array continues a stored one.
pub open spec fn continues<R>(stored: Option<StateArray<R>>, array: StateArray<R>) -> bool {
    stored matches Some(stored) ==> stored.zero == array.zero
}

impl<R: Copy> Clone for ConcatKeyValueCache<R> {
    fn clone(&self) -> (cache: Self)
        ensures
            same_storage(cache.keys, self.keys),
            same_storage(cache.values, self.values),
            cache == (ConcatKeyValueCache::<R> {
                keys: cache.keys,
                values: cache.values,
                ..*self
            }),
    {
        ConcatKeyValueCache {
            keys: copy_storage(&self.keys),
            values: copy_storage(&self.values),
            offset: self.offset,
            length: self.length,
            capacity: self.capacity,
            step: self.step,
            max_size: self.max_size,
        }
    }
}

impl<R: Copy> Default for ConcatKeyValueCache<R> {
    /// Creates an empty concatenating key/value cache.
    fn default() -> (cache: Self)
        ensures
            cache == (ConcatKeyValueCache::<R> {
                keys: None,
                values: None,
                offset: 0,
                length: 0,
                capacity: 0,
                step: 0,
                max_size: None,
            }),
            cache.wf(),
    {
        Self::new()
    }
}

impl<R: Copy> ConcatKeyValueCache<R> {
    /// The retained keys.
    pub open spec fn cached_keys(self) -> Seq<R> {
        rows_of(self.keys).take(self.length as int)
    }

    /// The retained values.
    pub open spec fn cached_values(self) -> Seq<R> {
        rows_of(self.values).take(self.length as int)
    }

    /// The capacity after so many more tokens.
    pub open spec fn capacity_after(self, new_tokens: int) -> int {
        let required = self.length + new_tokens;
        if self.max_size matches Some(max_size) && required > max_size {
            self.max_size->0 as int
        } else if self.step <= 1 {
            required
        } else if self.keys is None || required > self.capacity {
            grown(required, self.step, self.max_size)
        } else {
            self.capacity as int
        }
    }

    /// Creates an empty concatenating key/value cache.
    pub fn new() -> (cache: Self)
        ensures
            cache == (ConcatKeyValueCache::<R> {
                keys: None,
                values: None,
                offset: 0,
                length: 0,
                capacity: 0,
                step: 0,
                max_size: None,
            }),
            cache.wf(),
    {
        ConcatKeyValueCache {
            keys: None,
            values: None,
            offset: 0,
            length: 0,
            capacity: 0,
            step: 0,
            max_size: None,
        }
    }

    /// Creates an empty concatenating cache that retains at most `max_size` tokens.
    pub fn new_with_max_size(max_size: i32) -> (cache: Self)
        ensures
            cache == (ConcatKeyValueCache::<R> {
                keys: None,
                values: None,
                offset: 0,
                length: 0,
                capacity: 0,
                step: 0,
                max_size: Some(max_size),
            }),
            max_size >= 0 ==> cache.wf(),
    {
        ConcatKeyValueCache {
            keys: None,
            values: None,
            offset: 0,
            length: 0,
            capacity: 0,
            step: 0,
            max_size: Some(max_size),
        }
    }

    /// Creates an unbounded cache whose backing arrays grow in `step`-token chunks.
    pub fn new_with_step(step: i32) -> (cache: Self)
        ensures
            cache == (ConcatKeyValueCache::<R> {
                keys: None,
                values: None,
                offset: 0,
                length: 0,
                capacity: 0,
                step: if step < 1 {
                    1
                } else {
                    step
                },
                max_size: None,
            }),
            cache.wf(),
    {
        ConcatKeyValueCache {
            keys: None,
            values: None,
            offset: 0,
            length: 0,
            capacity: 0,
            step: if step < 1 {
                1
            } else {
                step
            },
            max_size: None,
        }
    }

    /// Creates a bounded cache whose backing arrays grow in `step`-token chunks.
    ///
    /// Chunked growth avoids rebuilding the full retained cache on every decode
    /// step. The returned key/value arrays are still sliced to the logical
    /// sequence length, so attention semantics are unchanged.
    pub fn new_with_max_size_and_step(max_size: i32, step: i32) -> (cache: Self)
        ensures
            cache == (ConcatKeyValueCache::<R> {
                keys: None,
                values: None,
                offset: 0,
                length: 0,
                capacity: 0,
                step: if step < 1 {
                    1
                } else {
                    step
                },
                max_size: Some(max_size),
            }),
            max_size >= 0 ==> cache.wf(),
    {
        ConcatKeyValueCache {
            keys: None,
            values: None,
            offset: 0,
            length: 0,
            capacity: 0,
            step: if step < 1 {
                1
            } else {
                step
            },
            max_size: Some(max_size),
        }
    }

    /// Returns the allocated token capacity of the backing arrays.
    pub fn capacity(&self) -> (capacity: i32)
        ensures
            capacity == self.capacity,
    {
        self.capacity
    }

    /// Truncates the cache to `len` tokens.
    pub fn truncate(&mut self, len: i32)
        requires
            len >= 0,
            old(self).keys matches Some(keys) ==> len <= keys.rows@.len(),
            old(self).values matches Some(values) ==> len <= values.rows@.len(),
        ensures
            final(self).offset == len,
            final(self).length == len,
            final(self).capacity == len,
            final(self).step == old(self).step,
            final(self).max_size == old(self).max_size,
            final(self).keys is Some <==> old(self).keys is Some,
            final(self).values is Some <==> old(self).values is Some,
            final(self).keys matches Some(keys) ==> keys.rows@ == rows_of(old(self).keys).take(
                len as int,
            ) && keys.zero == old(self).keys->0.zero,
            final(self).values matches Some(values) ==> values.rows@ == rows_of(
                old(self).values,
            ).take(len as int) && values.zero == old(self).values->0.zero,
            (*old(self)).wf() && (old(self).keys is Some || len == 0) ==> (*final(self)).wf(),
    {
        match &self.keys {
            Some(keys) => {
                let part = keys.slice(0, len as usize);
                assert(part.rows@ =~= keys.rows@.take(len as int));
                self.keys = Some(part);
            },
            None => {},
        }
        match &self.values {
            Some(values) => {
                let part = values.slice(0, len as usize);
                assert(part.rows@ =~= values.rows@.take(len as int));
                self.values = Some(part);
            },
            None => {},
        }
        self.offset = len;
        self.length = len;
        self.capacity = len;
        proof {
            if self.keys is Some {
                let keys = self.keys->0;
                assert(keys.rows@.skip(len as int) =~= crate::rows::repeated(keys.zero, 0));
            }
            if self.values is Some {
                let values = self.values->0;
                assert(values.rows@.skip(len as int) =~= crate::rows::repeated(values.zero, 0));
            }
        }
    }

    /// Returns the arrays currently retained by the cache.
    pub fn arrays(&self) -> (arrays: Vec<&StateArray<R>>)
        ensures
            listed_arrays(arrays@, self.keys, self.values),
    {
        list_arrays(&self.keys, &self.values)
    }

    /// Clears cached arrays while preserving cache configuration.
    pub fn clear(&mut self)
        ensures
            *final(self) == (ConcatKeyValueCache::<R> {
                keys: None,
                values: None,
                offset: 0,
                length: 0,
                capacity: 0,
                ..*old(self)
            }),
            (*old(self)).wf() ==> (*final(self)).wf(),
    {
        self.keys = None;
        self.values = None;
        self.offset = 0;
        self.length = 0;
        self.capacity = 0;
    }

    fn grown_capacity(&self, required: i32) -> (capacity: i32)
        requires
            0 <= required,
            self.step > 1,
            required + self.step - 1 <= i32::MAX,
            self.max_size matches Some(max_size) ==> required <= max_size,
        ensures
            capacity == grown(required as int, self.step, self.max_size),
            capacity >= required,
            self.max_size matches Some(max_size) ==> capacity <= max_size,
            self.max_size is None ==> capacity % self.step == 0,
    {
        let step: i32 = self.step;
        proof {
            chunks_cover(required as int, step as int);
        }
        let chunks: i32 = (required + (step - 1)) / step;
        let capacity: i32 = chunks * step;
        match self.max_size {
            Some(max_size) => if max_size < capacity {
                max_size
            } else {
                capacity
            },
            None => capacity,
        }
    }
}

proof fn chunks_cover(required: int, step: int)
    requires
        0 <= required,
        step > 1,
    ensures
        0 <= (required + step - 1) / step,
        required <= (required + step - 1) / step * step <= required + step - 1,
        ((required + step - 1) / step * step) % step == 0,
{
    let sum = required + step - 1;
    vstd::arithmetic::div_mod::lemma_fundamental_div_mod(sum, step);
    vstd::arithmetic::div_mod::lemma_mod_bound(sum, step);
    vstd::arithmetic::div_mod::lemma_div_pos_is_pos(sum, step);
    vstd::arithmetic::div_mod::lemma_mod_multiples_basic(sum / step, step);
    vstd::arithmetic::mul::lemma_mul_is_commutative(sum / step, step);
}

/// Whether a list holds the keys and the values that are there, in this order.
pub open spec fn listed_arrays<R>(
    arrays: Seq<&StateArray<R>>,
    keys: Option<StateArray<R>>,
    values: Option<StateArray<R>>,
) -> bool {
    match (keys, values) {
        (Some(keys), Some(values)) => arrays.len() == 2 && *arrays[0] == keys && *arrays[1]
            == values,
        (Some(keys), None) => arrays.len() == 1 && *arrays[0] == keys,
        (None, Some(values)) => arrays.len() == 1 && *arrays[0] == values,
        (None, None) => arrays.len() == 0,
    }
}

fn list_arrays<'a, R>(keys: &'a Option<StateArray<R>>, values: &'a Option<StateArray<R>>) -> (arrays: Vec<
    &'a StateArray<R>,
>)
    ensures
        listed_arrays(arrays@, *keys, *values),
{
    let mut arrays: Vec<&'a StateArray<R>> = Vec::new();
    match keys {
        Some(keys) => {
            arrays.push(keys);
        },
        None => {},
    }
    match values {
        Some(values) => {
            arrays.push(values);
        },
        None => {},
    }
    arrays
}

/// Rows of a stored array after the new ones: those within the logical length and the
/// new ones, of these the newest that the window retains, and zeros up to the capacity.
pub open spec fn storage_after<R>(
    stored: Option<StateArray<R>>,
    length: i32,
    new: StateArray<R>,
    max_size: Option<i32>,
    capacity: int,
) -> Seq<R> {
    let retained = newest(rows_of(stored).take(length as int) + new.rows@, max_size);
    retained + crate::rows::repeated(new.zero, (capacity - retained.len()) as nat)
}

/// Stores new rows behind the retained ones, and returns all that are retained then.
fn store<R: Copy>(
    stored: Option<StateArray<R>>,
    length: i32,
    new: &StateArray<R>,
    max_size: Option<i32>,
    capacity: i32,
) -> (after: (StateArray<R>, StateArray<R>))
    requires
        0 <= length <= rows_of(stored).len(),
        stored is None ==> length == 0,
        continues(stored, *new),
        stored matches Some(array) ==> array.rows@.skip(length as int) == crate::rows::repeated(
            array.zero,
            (array.rows@.len() - length) as nat,
        ),
        length + new.rows@.len() <= i32::MAX,
        max_size matches Some(max_size) ==> 0 <= max_size,
        match max_size {
            Some(max_size) if length + new.rows@.len() > max_size => capacity == max_size,
            _ => length + new.rows@.len() <= capacity && rows_of(stored).len() <= capacity,
        },
    ensures
        after.0.rows@ == storage_after(stored, length, *new, max_size, capacity as int),
        after.0.zero == new.zero,
        after.1.rows@ == newest(rows_of(stored).take(length as int) + new.rows@, max_size),
        after.1.zero == new.zero,
{
    let kept: usize = length as usize;
    let required: usize = kept + new.rows.len();
    let ghost all = rows_of(stored).take(length as int) + new.rows@;
    let beyond = match max_size {
        Some(max_size) => required > max_size as usize,
        None => false,
    };
    if beyond {
        let window: usize = capacity as usize;
        let mut combined = match &stored {
            Some(array) => {
                let part = array.slice(0, kept);
                assert(part.rows@ =~= rows_of(stored).take(length as int));
                part.rows
            },
            None => {
                let none: Vec<R> = Vec::new();
                assert(none@ =~= rows_of(stored).take(length as int));
                none
            },
        };
        extend_rows(&mut combined, &new.rows);
        assert(combined@ =~= all);
        let retained = StateArray {
            rows: copy_rows(&combined, required - window, required),
            zero: new.zero,
        };
        assert(retained.rows@ =~= newest(all, max_size));
        assert(storage_after(stored, length, *new, max_size, capacity as int)
            =~= retained.rows@);
        let fetched = retained.copy();
        (retained, fetched)
    } else {
        let ghost before = stored;
        let mut rows = match stored {
            Some(array) => array.rows,
            None => Vec::new(),
        };
        assert(rows@ =~= rows_of(before));
        let missing: usize = capacity as usize - rows.len();
        pad_rows(&mut rows, new.zero, missing);
        let ghost padded = rows@;
        overwrite_rows(&mut rows, kept, &new.rows);
        proof {
            assert(newest(all, max_size) == all);
            assert(padded.take(kept as int) =~= rows_of(before).take(length as int));
            let tail = crate::rows::repeated(new.zero, (capacity - required) as nat);
            assert forall|i: int| 0 <= i < capacity - required implies #[trigger] padded.skip(
                required as int,
            )[i] == new.zero by {
                let at = required + i;
                if at < rows_of(before).len() {
                    assert(rows_of(before).skip(length as int)[at - length] == new.zero);
                }
            }
            assert(padded.skip(required as int) =~= tail);
            assert(rows@ =~= storage_after(before, length, *new, max_size, capacity as int));
        }
        let fetched = StateArray { rows: copy_rows(&rows, 0, required), zero: new.zero };
        assert(fetched.rows@ =~= all);
        (StateArray { rows, zero: new.zero }, fetched)
    }
}

impl<R: Copy> KeyValueCache<R> for ConcatKeyValueCache<R> {
    open spec fn wf(&self) -> bool {
        &&& self.keys is Some <==> self.values is Some
        &&& 0 <= self.length <= self.capacity
        &&& stores(self.keys, self.length, self.capacity)
        &&& stores(self.values, self.length, self.capacity)
        &&& self.step <= 1 ==> self.length == self.capacity
        &&& self.max_size matches Some(max_size) ==> self.capacity <= max_size
    }

    open spec fn position(&self) -> int {
        self.offset as int
    }

    open spec fn window(&self) -> Option<int> {
        match self.max_size {
            Some(size) => Some(size as int),
            None => None,
        }
    }

    open spec fn admits(&self, keys: StateArray<R>, values: StateArray<R>) -> bool {
        &&& keys.rows@.len() == values.rows@.len()
        &&& continues(self.keys, keys)
        &&& continues(self.values, values)
        &&& self.offset + keys.rows@.len() <= i32::MAX
        &&& self.length + keys.rows@.len() + (if self.step > 1 {
            self.step - 1
        } else {
            0
        }) <= i32::MAX
    }

    fn offset(&self) -> (offset: i32) {
        self.offset
    }

    fn max_size(&self) -> (size: Option<i32>)
        ensures
            size == self.max_size,
    {
        self.max_size
    }

    fn retained_arrays(&self) -> (arrays: Vec<&StateArray<R>>)
        ensures
            listed_arrays(arrays@, self.keys, self.values),
    {
        list_arrays(&self.keys, &self.values)
    }

    fn update_and_fetch(&mut self, keys: StateArray<R>, values: StateArray<R>) -> (fetched: (
        StateArray<R>,
        StateArray<R>,
    ))
        ensures
            ({
                let before = *old(self);
                let after = *final(self);
                let capacity = before.capacity_after(keys.rows@.len() as int);
                &&& fetched.0.rows@ == newest(before.cached_keys() + keys.rows@, before.max_size)
                &&& fetched.1.rows@ == newest(
                    before.cached_values() + values.rows@,
                    before.max_size,
                )
                &&& fetched.0.zero == keys.zero && fetched.1.zero == values.zero
                &&& after.offset == before.offset + keys.rows@.len()
                &&& after.cached_keys() == fetched.0.rows@
                &&& after.cached_values() == fetched.1.rows@
                &&& after.length == fetched.0.rows@.len()
                &&& after.capacity == capacity
                &&& after.step == before.step && after.max_size == before.max_size
                &&& after.keys is Some && after.values is Some
                &&& after.keys->0.zero == keys.zero && after.values->0.zero == values.zero
                &&& after.keys->0.rows@ == storage_after(
                    before.keys,
                    before.length,
                    keys,
                    before.max_size,
                    capacity,
                )
                &&& after.values->0.rows@ == storage_after(
                    before.values,
                    before.length,
                    values,
                    before.max_size,
                    capacity,
                )
            }),
    {
        let count: usize = keys.rows.len();
        let new_tokens: i32 = count as i32;
        let required: i32 = self.length + new_tokens;
        let ghost before = *self;
        let capacity: i32 = match self.max_size {
            Some(max_size) => if required > max_size {
                max_size
            } else if self.step <= 1 {
                required
            } else if self.keys.is_none() || required > self.capacity {
                self.grown_capacity(required)
            } else {
                self.capacity
            },
            None => if self.step <= 1 {
                required
            } else if self.keys.is_none() || required > self.capacity {
                self.grown_capacity(required)
            } else {
                self.capacity
            },
        };
        let stored_keys = self.keys.take();
        let stored_values = self.values.take();
        let (new_keys, fetched_keys) = store(
            stored_keys,
            self.length,
            &keys,
            self.max_size,
            capacity,
        );
        let (new_values, fetched_values) = store(
            stored_values,
            self.length,
            &values,
            self.max_size,
            capacity,
        );
        self.offset = self.offset + new_tokens;
        self.length = fetched_keys.rows.len() as i32;
        self.capacity = capacity;
        proof {
            let retained = fetched_keys.rows@.len() as int;
            assert(new_keys.rows@.skip(retained) =~= crate::rows::repeated(
                keys.zero,
                (capacity - retained) as nat,
            ));
            assert(new_values.rows@.skip(retained) =~= crate::rows::repeated(
                values.zero,
                (capacity - retained) as nat,
            ));
        }
        self.keys = Some(new_keys);
        self.values = Some(new_values);
        assert(self.cached_keys() =~= fetched_keys.rows@);
        assert(self.cached_values() =~= fetched_values.rows@);
        (fetched_keys, fetched_values)
    }
}

/// Feeding a cache in two pieces retains the same states as feeding it at once.
pub proof fn windows_compose<R>(rows: Seq<R>, first: Seq<R>, second: Seq<R>, window: Option<i32>)
    requires
        window matches Some(window) ==> window >= 0,
    ensures
        newest(newest(rows + first, window) + second, window) == newest(
            rows + (first + second),
            window,
        ),
{
    match window {
        Some(size) => {
            assert(newest(newest(rows + first, window) + second, window) =~= newest(
                rows + (first + second),
                window,
            ));
        },
        None => {
            assert(rows + first + second =~= rows + (first + second));
        },
    }
}

/// The storage of an unbounded cache that grows in chunks always has room for the tokens
/// it retains and consists of whole chunks.
pub proof fn capacity_is_chunked<R: Copy>(cache: ConcatKeyValueCache<R>, new_tokens: int)
    requires
        cache.wf(),
        0 <= new_tokens,
        cache.step > 1,
        cache.max_size is None,
        cache.keys is None || cache.capacity % cache.step == 0,
    ensures
        cache.capacity_after(new_tokens) % (cache.step as int) == 0,
        cache.capacity_after(new_tokens) >= cache.length + new_tokens,
{
    chunks_cover(cache.length + new_tokens, cache.step as int);
}

/// A bounded key/value cache for causal sliding-window attention.
///
/// The cache keeps only the newest `max_size` states between calls while
/// preserving an absolute token offset for positional encodings. During an
/// update it returns the retained prefix together with every newly submitted
/// state so multi-token attention can still compute all queries correctly;
/// callers must apply the matching sliding-window mask.
#[derive(Debug)]
pub struct SlidingKeyValueCache<R> {
    /// Retained keys.
    pub keys: Option<StateArray<R>>,
    /// Retained values.
    pub values: Option<StateArray<R>>,
    /// Tokens seen.
    pub offset: i32,
    /// Most tokens retained.
    pub max_size: i32,
}

impl<R: Copy> Clone for SlidingKeyValueCache<R> {
    fn clone(&self) -> (cache: Self)
        ensures
            same_storage(cache.keys, self.keys),
            same_storage(cache.values, self.values),
            cache == (SlidingKeyValueCache::<R> {
                keys: cache.keys,
                values: cache.values,
                ..*self
            }),
    {
        SlidingKeyValueCache {
            keys: copy_storage(&self.keys),
            values: copy_storage(&self.values),
            offset: self.offset,
            max_size: self.max_size,
        }
    }
}

impl<R: Copy> Default for SlidingKeyValueCache<R> {
    /// Creates an effectively unbounded cache.
    fn default() -> (cache: Self)
        ensures
            cache == (SlidingKeyValueCache::<R> {
                keys: None,
                values: None,
                offset: 0,
                max_size: i32::MAX,
            }),
            cache.wf(),
    {
        Self::new(i32::MAX)
    }
}

impl<R: Copy> SlidingKeyValueCache<R> {
    /// Creates an empty cache retaining at most `max_size` states.
    pub fn new(max_size: i32) -> (cache: Self)
        requires
            max_size > 0,
        ensures
            cache == (SlidingKeyValueCache::<R> { keys: None, values: None, offset: 0, max_size }),
            cache.wf(),
    {
        SlidingKeyValueCache { keys: None, values: None, offset: 0, max_size }
    }

    /// Returns the arrays retained for the next attention call.
    pub fn arrays(&self) -> (arrays: Vec<&StateArray<R>>)
        ensures
            listed_arrays(arrays@, self.keys, self.values),
    {
        list_arrays(&self.keys, &self.values)
    }

    /// Clears cached arrays while preserving the configured window size.
    pub fn clear(&mut self)
        ensures
            *final(self) == (SlidingKeyValueCache::<R> {
                keys: None,
                values: None,
                offset: 0,
                ..*old(self)
            }),
            (*old(self)).wf() ==> (*final(self)).wf(),
    {
        self.keys = None;
        self.values = None;
        self.offset = 0;
    }
}

/// Joins retained and new rows, and cuts them down to the window.
fn slide<R: Copy>(stored: Option<StateArray<R>>, new: StateArray<R>, max_size: i32) -> (after: (
    StateArray<R>,
    StateArray<R>,
))
    requires
        max_size > 0,
        rows_of(stored).len() + new.rows@.len() <= i32::MAX,
    ensures
        after.0.rows@ == newest(rows_of(stored) + new.rows@, Some(max_size)),
        after.0.zero == new.zero,
        after.1.rows@ == rows_of(stored) + new.rows@,
        after.1.zero == new.zero,
{
    let zero = new.zero;
    let ghost all = rows_of(stored) + new.rows@;
    let combined = match stored {
        Some(previous) => {
            let mut rows = previous.rows;
            extend_rows(&mut rows, &new.rows);
            rows
        },
        None => new.rows,
    };
    assert(combined@ =~= all);
    let length: usize = combined.len();
    let window: usize = max_size as usize;
    let start: usize = if length > window {
        length - window
    } else {
        0
    };
    let retained = copy_rows(&combined, start, length);
    assert(retained@ =~= newest(all, Some(max_size)));
    (StateArray { rows: retained, zero }, StateArray { rows: combined, zero })
}

impl<R: Copy> KeyValueCache<R> for SlidingKeyValueCache<R> {
    open spec fn wf(&self) -> bool {
        &&& self.max_size > 0
        &&& self.keys is Some <==> self.values is Some
        &&& rows_of(self.keys).len() == rows_of(self.values).len()
        &&& rows_of(self.keys).len() <= self.max_size
    }

    open spec fn position(&self) -> int {
        self.offset as int
    }

    open spec fn window(&self) -> Option<int> {
        Some(self.max_size as int)
    }

    open spec fn admits(&self, keys: StateArray<R>, values: StateArray<R>) -> bool {
        &&& keys.rows@.len() == values.rows@.len()
        &&& continues(self.keys, keys)
        &&& continues(self.values, values)
        &&& self.offset + keys.rows@.len() <= i32::MAX
        &&& rows_of(self.keys).len() + keys.rows@.len() <= i32::MAX
    }

    fn offset(&self) -> (offset: i32) {
        self.offset
    }

    fn max_size(&self) -> (size: Option<i32>)
        ensures
            size == Some(self.max_size),
    {
        Some(self.max_size)
    }

    fn retained_arrays(&self) -> (arrays: Vec<&StateArray<R>>)
        ensures
            listed_arrays(arrays@, self.keys, self.values),
    {
        list_arrays(&self.keys, &self.values)
    }

    fn update_and_fetch(&mut self, keys: StateArray<R>, values: StateArray<R>) -> (fetched: (
        StateArray<R>,
        StateArray<R>,
    ))
        ensures
            ({
                let before = *old(self);
                let after = *final(self);
                &&& fetched.0.rows@ == rows_of(before.keys) + keys.rows@
                &&& fetched.1.rows@ == rows_of(before.values) + values.rows@
                &&& fetched.0.zero == keys.zero && fetched.1.zero == values.zero
                &&& after.offset == before.offset + keys.rows@.len()
                &&& after.max_size == before.max_size
                &&& after.keys is Some && after.values is Some
                &&& after.keys->0.zero == keys.zero && after.values->0.zero == values.zero
                &&& after.keys->0.rows@ == newest(fetched.0.rows@, Some(before.max_size))
                &&& after.values->0.rows@ == newest(fetched.1.rows@, Some(before.max_size))
            }),
    {
        let count: usize = keys.rows.len();
        let new_tokens: i32 = count as i32;
        let stored_keys = self.keys.take();
        let stored_values = self.values.take();
        let (new_keys, fetched_keys) = slide(stored_keys, keys, self.max_size);
        let (new_values, fetched_values) = slide(stored_values, values, self.max_size);
        self.offset = self.offset + new_tokens;
        self.keys = Some(new_keys);
        self.values = Some(new_values);
        (fetched_keys, fetched_values)
    }
}

/// States of consecutive tokens of the shape `[batch, sequence, dimension]`, one row for
/// each token.
#[derive(Debug)]
pub struct LatentArray<R> {
    /// Dimensions of the array.
    pub shape: Vec<i32>,
    /// Rows in token order, and their row of zeros.
    pub states: StateArray<R>,
}

impl<R: Copy> Clone for LatentArray<R> {
    fn clone(&self) -> (array: Self)
        ensures
            same_latents(array, *self),
    {
        let shape = copy_rows(&self.shape, 0, self.shape.len());
        assert(shape@ =~= self.shape@);
        LatentArray { shape, states: self.states.copy() }
    }
}

/// Whether two arrays have the same shape and hold the same states.
pub open spec fn same_latents<R>(left: LatentArray<R>, right: LatentArray<R>) -> bool {
    &&& left.shape@ == right.shape@
    &&& same_states(left.states, right.states)
}

/// Whether the same latent states are retained twice, or none are.
pub open spec fn same_retained<R>(
    left: Option<LatentArray<R>>,
    right: Option<LatentArray<R>>,
) -> bool {
    match (left, right) {
        (Some(left), Some(right)) => same_latents(left, right),
        (None, None) => true,
        _ => false,
    }
}

fn copy_retained<R: Copy>(retained: &Option<LatentArray<R>>) -> (copy: Option<LatentArray<R>>)
    ensures
        same_retained(copy, *retained),
{
    match retained {
        Some(array) => Some(array.clone()),
        None => None,
    }
}

impl<R> LatentArray<R> {
    /// A rank-3 array has as many rows as its sequence dimension says.
    pub open spec fn wf(self) -> bool {
        self.shape@.len() == 3 ==> self.states.rows@.len() == self.shape@[1]
    }

    /// Whether the array is the rank-3 array of these dimensions and rows.
    pub open spec fn is_array(self, batch: i32, rows: Seq<R>, dimension: i32, zero: R) -> bool {
        &&& self.shape@ == seq![batch, rows.len() as i32, dimension]
        &&& self.states.rows@ == rows
        &&& self.states.zero == zero
    }
}

/// Compressed attention cache that stores one latent KV vector and one rotary
/// key vector per token, independent of the number of attention heads.
///
/// This representation is used by Multi-head Latent Attention (MLA). Arrays
/// have shape `[batch, sequence, dimension]`; head-specific keys and values are
/// reconstructed transiently by the attention implementation.
#[derive(Debug)]
pub struct CompressedLatentCache<R> {
    /// Stored latent vectors and rotary keys, with padding behind the logical length.
    pub storage: Option<LatentStorage<R>>,
    /// Retained latent vectors.
    pub latent: Option<LatentArray<R>>,
    /// Retained rotary keys.
    pub rotary_key: Option<LatentArray<R>>,
    /// Tokens seen.
    pub offset: i32,
    /// Tokens retained.
    pub length: i32,
    /// Tokens that the storage has room for.
    pub capacity: i32,
    /// Tokens by which the storage grows.
    pub step: i32,
}

/// Backing arrays of a [`CompressedLatentCache`].
#[derive(Debug)]
pub struct LatentStorage<R> {
    /// Batch size of both arrays.
    pub batch: i32,
    /// Dimension of a latent vector.
    pub latent_dimension: i32,
    /// Dimension of a rotary key.
    pub rotary_dimension: i32,
    /// Rows of latent vectors.
    pub latent: StateArray<R>,
    /// Rows of rotary keys.
    pub rotary_key: StateArray<R>,
}

/// Whether two backing stores have the same dimensions and hold the same states.
pub open spec fn same_backing<R>(left: LatentStorage<R>, right: LatentStorage<R>) -> bool {
    &&& left.batch == right.batch
    &&& left.latent_dimension == right.latent_dimension
    &&& left.rotary_dimension == right.rotary_dimension
    &&& same_states(left.latent, right.latent)
    &&& same_states(left.rotary_key, right.rotary_key)
}

impl<R: Copy> Clone for LatentStorage<R> {
    fn clone(&self) -> (storage: Self)
        ensures
            same_backing(storage, *self),
    {
        LatentStorage {
            batch: self.batch,
            latent_dimension: self.latent_dimension,
            rotary_dimension: self.rotary_dimension,
            latent: self.latent.copy(),
            rotary_key: self.rotary_key.copy(),
        }
    }
}

impl<R: Copy> Clone for CompressedLatentCache<R> {
    fn clone(&self) -> (cache: Self)
        ensures
            match (cache.storage, self.storage) {
                (Some(copied), Some(storage)) => same_backing(copied, storage),
                (None, None) => true,
                _ => false,
            },
            same_retained(cache.latent, self.latent),
            same_retained(cache.rotary_key, self.rotary_key),
            cache == (CompressedLatentCache::<R> {
                storage: cache.storage,
                latent: cache.latent,
                rotary_key: cache.rotary_key,
                ..*self
            }),
    {
        CompressedLatentCache {
            storage: match &self.storage {
                Some(storage) => Some(storage.clone()),
                None => None,
            },
            latent: copy_retained(&self.latent),
            rotary_key: copy_retained(&self.rotary_key),
            offset: self.offset,
            length: self.length,
            capacity: self.capacity,
            step: self.step,
        }
    }
}

impl<R: Copy> Default for CompressedLatentCache<R> {
    fn default() -> (cache: Self)
        ensures
            cache == empty_latent_cache::<R>(),
    {
        CompressedLatentCache {
            storage: None,
            latent: None,
            rotary_key: None,
            offset: 0,
            length: 0,
            capacity: 0,
            step: COMPRESSED_LATENT_CACHE_STEP,
        }
    }
}

/// The cache without any token.
pub open spec fn empty_latent_cache<R>() -> CompressedLatentCache<R> {
    CompressedLatentCache {
        storage: None,
        latent: None,
        rotary_key: None,
        offset: 0,
        length: 0,
        capacity: 0,
        step: COMPRESSED_LATENT_CACHE_STEP,
    }
}

/// Why an update is refused, if it is.
pub open spec fn latent_failure<R>(
    cache: CompressedLatentCache<R>,
    latent: LatentArray<R>,
    rotary_key: LatentArray<R>,
) -> Option<Failure> {
    if latent.shape@.len() != 3 || rotary_key.shape@.len() != 3 {
        Some(
            Failure::Exception(
                "compressed latent cache expects rank-3 [batch, sequence, dimension] arrays"@,
            ),
        )
    } else if latent.shape@[0] != rotary_key.shape@[0] || latent.shape@[1] != rotary_key.shape@[1] {
        Some(
            Failure::Exception(
                "compressed latent and rotary-key cache updates must share batch and sequence dimensions"@,
            ),
        )
    } else if cache.storage matches Some(stored) && (stored.batch != latent.shape@[0]
        || stored.latent_dimension != latent.shape@[2] || stored.rotary_dimension
        != rotary_key.shape@[2]) {
        Some(
            Failure::Exception(
                "compressed latent cache update dimensions do not match retained state"@,
            ),
        )
    } else {
        None
    }
}

impl<R: Copy> CompressedLatentCache<R> {
    /// Stored latent rows.
    pub open spec fn latent_store(self) -> Option<StateArray<R>> {
        match self.storage {
            Some(storage) => Some(storage.latent),
            None => None,
        }
    }

    /// Stored rotary-key rows.
    pub open spec fn rotary_store(self) -> Option<StateArray<R>> {
        match self.storage {
            Some(storage) => Some(storage.rotary_key),
            None => None,
        }
    }

    /// The retained latent vectors.
    pub open spec fn cached_latent(self) -> Seq<R> {
        rows_of(self.latent_store()).take(self.length as int)
    }

    /// The retained rotary keys.
    pub open spec fn cached_rotary(self) -> Seq<R> {
        rows_of(self.rotary_store()).take(self.length as int)
    }

    /// Whether the fields of the cache agree with one another: the arrays that it hands
    /// out are the stored ones up to the logical length.
    pub open spec fn wf(self) -> bool {
        &&& self.step > 1
        &&& 0 <= self.length <= self.capacity
        &&& self.length == self.offset
        &&& self.capacity % self.step == 0
        &&& stores(self.latent_store(), self.length, self.capacity)
        &&& stores(self.rotary_store(), self.length, self.capacity)
        &&& match self.storage {
            Some(storage) => {
                &&& self.latent is Some && self.latent->0.is_array(
                    storage.batch,
                    self.cached_latent(),
                    storage.latent_dimension,
                    storage.latent.zero,
                )
                &&& self.rotary_key is Some && self.rotary_key->0.is_array(
                    storage.batch,
                    self.cached_rotary(),
                    storage.rotary_dimension,
                    storage.rotary_key.zero,
                )
            },
            None => self.latent is None && self.rotary_key is None,
        }
    }

    /// Whether the cache can take so many rows of this kind.
    pub open spec fn has_room(self, latent: StateArray<R>, rotary_key: StateArray<R>) -> bool {
        &&& continues(self.latent_store(), latent)
        &&& continues(self.rotary_store(), rotary_key)
        &&& self.length + latent.rows@.len() + self.step - 1 <= i32::MAX
    }

    /// The capacity after so many more tokens.
    pub open spec fn capacity_after(self, new_tokens: int) -> int {
        let required = self.length + new_tokens;
        if self.storage is None || required > self.capacity {
            grown(required, self.step, None)
        } else {
            self.capacity as int
        }
    }

    /// Creates an empty compressed latent cache.
    pub fn new() -> (cache: Self)
        ensures
            cache == empty_latent_cache::<R>(),
            cache.wf(),
    {
        Self::default()
    }

    /// Returns the number of cached tokens.
    pub fn offset(&self) -> (offset: i32)
        ensures
            offset == self.offset,
    {
        self.offset
    }

    /// Returns the allocated token capacity of the backing arrays.
    pub fn capacity(&self) -> (capacity: i32)
        ensures
            capacity == self.capacity,
    {
        self.capacity
    }

    /// Returns the retained latent and rotary-key arrays, when initialized.
    pub fn arrays(&self) -> (arrays: Option<(&LatentArray<R>, &LatentArray<R>)>)
        ensures
            match arrays {
                Some((latent, rotary_key)) => self.latent == Some(*latent) && self.rotary_key
                    == Some(*rotary_key),
                None => self.latent is None || self.rotary_key is None,
            },
    {
        match (&self.latent, &self.rotary_key) {
            (Some(latent), Some(rotary_key)) => Some((latent, rotary_key)),
            _ => None,
        }
    }

    /// Clears all retained state.
    pub fn clear(&mut self)
        ensures
            *final(self) == (CompressedLatentCache::<R> {
                storage: None,
                latent: None,
                rotary_key: None,
                offset: 0,
                length: 0,
                capacity: 0,
                ..*old(self)
            }),
            (*old(self)).wf() ==> (*final(self)).wf(),
    {
        self.storage = None;
        self.latent = None;
        self.rotary_key = None;
        self.offset = 0;
        self.length = 0;
        self.capacity = 0;
        proof {
            if (*old(self)).wf() {
                vstd::arithmetic::div_mod::lemma_small_mod(0, self.step as nat);
            }
        }
    }

    fn grown_capacity(&self, required: i32) -> (capacity: i32)
        requires
            0 <= required,
            self.step > 1,
            required + self.step - 1 <= i32::MAX,
        ensures
            capacity == grown(required as int, self.step, None),
            capacity >= required,
            capacity % self.step == 0,
    {
        proof {
            chunks_cover(required as int, self.step as int);
        }
        let chunks: i32 = (required + (self.step - 1)) / self.step;
        chunks * self.step
    }

    /// Appends compressed states and returns the full states to attend over.
    pub fn update_and_fetch(&mut self, latent: LatentArray<R>, rotary_key: LatentArray<R>) -> (outcome:
        Result<(LatentArray<R>, LatentArray<R>), Error>)
        requires
            (*old(self)).wf(),
            latent.wf(),
            rotary_key.wf(),
            latent_failure(*old(self), latent, rotary_key) is None ==> old(self).has_room(
                latent.states,
                rotary_key.states,
            ),
        ensures
            (*final(self)).wf(),
            crate::error::failed(outcome) == latent_failure(*old(self), latent, rotary_key),
            outcome is Err ==> *final(self) == *old(self),
            outcome matches Ok(fetched) ==> {
                let before = *old(self);
                let after = *final(self);
                let all_latent = before.cached_latent() + latent.states.rows@;
                let all_rotary = before.cached_rotary() + rotary_key.states.rows@;
                &&& fetched.0.is_array(
                    latent.shape@[0],
                    all_latent,
                    latent.shape@[2],
                    latent.states.zero,
                )
                &&& fetched.1.is_array(
                    latent.shape@[0],
                    all_rotary,
                    rotary_key.shape@[2],
                    rotary_key.states.zero,
                )
                &&& after.cached_latent() == all_latent
                &&& after.cached_rotary() == all_rotary
                &&& after.storage matches Some(storage) && storage.batch == latent.shape@[0]
                    && storage.latent_dimension == latent.shape@[2] && storage.rotary_dimension
                    == rotary_key.shape@[2]
                &&& after.offset == before.offset + latent.states.rows@.len()
                &&& after.length == after.offset
                &&& after.capacity == before.capacity_after(latent.states.rows@.len() as int)
                &&& after.step == before.step
            },
    {
        if latent.shape.len() != 3 || rotary_key.shape.len() != 3 {
            return Err(
                Error::Exception(
                    "compressed latent cache expects rank-3 [batch, sequence, dimension] arrays".to_owned(),
                ),
            );
        }
        let batch: i32 = latent.shape[0];
        let latent_dimension: i32 = latent.shape[2];
        let rotary_dimension: i32 = rotary_key.shape[2];
        if batch != rotary_key.shape[0] || latent.shape[1] != rotary_key.shape[1] {
            return Err(
                Error::Exception(
                    "compressed latent and rotary-key cache updates must share batch and sequence dimensions".to_owned(),
                ),
            );
        }
        match &self.storage {
            Some(stored) => {
                if stored.batch != batch || stored.latent_dimension != latent_dimension
                    || stored.rotary_dimension != rotary_dimension {
                    return Err(
                        Error::Exception(
                            "compressed latent cache update dimensions do not match retained state".to_owned(),
                        ),
                    );
                }
            },
            None => {},
        }
        let new_tokens: i32 = latent.shape[1];
        let required: i32 = self.length + new_tokens;
        let ghost before = *self;
        let capacity: i32 = if self.storage.is_none() || required > self.capacity {
            self.grown_capacity(required)
        } else {
            self.capacity
        };
        let (stored_latent, stored_rotary) = match self.storage.take() {
            Some(storage) => (Some(storage.latent), Some(storage.rotary_key)),
            None => (None, None),
        };
        let (latent_rows, fetched_latent) = store(
            stored_latent,
            self.length,
            &latent.states,
            None,
            capacity,
        );
        let (rotary_rows, fetched_rotary) = store(
            stored_rotary,
            self.length,
            &rotary_key.states,
            None,
            capacity,
        );
        proof {
            let all = before.cached_latent() + latent.states.rows@;
            let others = before.cached_rotary() + rotary_key.states.rows@;
            assert(latent_rows.rows@.take(required as int) =~= all);
            assert(rotary_rows.rows@.take(required as int) =~= others);
            assert(latent_rows.rows@.skip(required as int) =~= crate::rows::repeated(
                latent.states.zero,
                (capacity - required) as nat,
            ));
            assert(rotary_rows.rows@.skip(required as int) =~= crate::rows::repeated(
                rotary_key.states.zero,
                (capacity - required) as nat,
            ));
        }
        self.storage = Some(
            LatentStorage {
                batch,
                latent_dimension,
                rotary_dimension,
                latent: latent_rows,
                rotary_key: rotary_rows,
            },
        );
        self.length = required;
        self.offset = self.offset + new_tokens;
        self.capacity = capacity;
        let latent_shape = vec![batch, required, latent_dimension];
        let rotary_shape = vec![batch, required, rotary_dimension];
        assert(latent_shape@ =~= seq![batch, required, latent_dimension]);
        assert(rotary_shape@ =~= seq![batch, required, rotary_dimension]);
        self.latent = Some(LatentArray { shape: latent_shape, states: fetched_latent.copy() });
        self.rotary_key = Some(LatentArray { shape: rotary_shape, states: fetched_rotary.copy() });
        let latent_shape = vec![batch, required, latent_dimension];
        let rotary_shape = vec![batch, required, rotary_dimension];
        assert(latent_shape@ =~= seq![batch, required, latent_dimension]);
        assert(rotary_shape@ =~= seq![batch, required, rotary_dimension]);
        Ok(
            (
                LatentArray { shape: latent_shape, states: fetched_latent },
                LatentArray { shape: rotary_shape, states: fetched_rotary },
            ),
        )
    }
}

/// Placeholder for a future generic key/value cache implementation.
pub struct DefaultKeyValueCache {}

/// A window retains the newest rows: as many as it has room for, and, counted from the end,
/// each at its own place.
pub proof fn windows_retain_the_newest<R>(rows: Seq<R>, window: Option<i32>, behind: int)
    requires
        window matches Some(size) ==> size >= 0,
    ensures
        newest(rows, window).len() == (match window {
            Some(size) => if rows.len() < size {
                rows.len() as int
            } else {
                size as int
            },
            None => rows.len() as int,
        }),
        0 <= behind < newest(rows, window).len() ==> newest(rows, window)[newest(
            rows,
            window,
        ).len() - 1 - behind] == rows[rows.len() - 1 - behind],
{
}

/// The newest states are always attended to: whatever a cache held, the states that an
/// update brings end what it hands out, as far as the window reaches.
pub proof fn updates_end_with_the_new_states<R>(
    held: Seq<R>,
    brought: Seq<R>,
    window: Option<i32>,
    behind: int,
)
    requires
        window matches Some(size) ==> size >= 0,
        0 <= behind < brought.len(),
        window matches Some(size) ==> behind < size,
    ensures
        ({
            let fetched = newest(held + brought, window);
            &&& behind < fetched.len()
            &&& fetched[fetched.len() - 1 - behind] == brought[brought.len() - 1 - behind]
        }),
{
}

/// Storage grows by less than a chunk beyond what is needed, and never beyond a window that
/// the needed tokens fit in.
pub proof fn growth_is_tight(required: int, step: i32, max_size: Option<i32>)
    requires
        0 <= required,
        step > 1,
        max_size matches Some(size) ==> required <= size,
    ensures
        required <= grown(required, step, max_size) < required + step,
        max_size matches Some(size) ==> grown(required, step, max_size) <= size,
        max_size is None ==> grown(required, step, max_size) % (step as int) == 0,
{
    chunks_cover(required, step as int);
}

/// A cache has room for the tokens that it retains, and a bounded one never stores more
/// than its window.
pub proof fn capacity_holds_what_is_retained<R: Copy>(
    cache: ConcatKeyValueCache<R>,
    new_tokens: int,
)
    requires
        cache.wf(),
        0 <= new_tokens,
        cache.max_size matches Some(size) ==> size >= 0,
    ensures
        ({
            let retained = match cache.max_size {
                Some(size) => if cache.length + new_tokens < size {
                    cache.length + new_tokens
                } else {
                    size as int
                },
                None => cache.length + new_tokens,
            };
            &&& cache.capacity_after(new_tokens) >= retained
            &&& cache.max_size matches Some(size) ==> cache.capacity_after(new_tokens) <= size
        }),
        cache.step <= 1 && cache.max_size is None ==> cache.capacity_after(new_tokens)
            == cache.length + new_tokens,
{
    if cache.step > 1 {
        chunks_cover(cache.length + new_tokens, cache.step as int);
    }
}

/// Compressed states are taken in exactly where both arrays have rank 3 and agree on batch
/// and sequence, and where they have the dimensions of what is stored.
pub proof fn compressed_updates_agree<R>(
    cache: CompressedLatentCache<R>,
    latent: LatentArray<R>,
    rotary_key: LatentArray<R>,
)
    ensures
        latent_failure(cache, latent, rotary_key) is None <==> {
            &&& latent.shape@.len() == 3
            &&& rotary_key.shape@.len() == 3
            &&& latent.shape@[0] == rotary_key.shape@[0]
            &&& latent.shape@[1] == rotary_key.shape@[1]
            &&& cache.storage matches Some(stored) ==> {
                &&& stored.batch == latent.shape@[0]
                &&& stored.latent_dimension == latent.shape@[2]
                &&& stored.rotary_dimension == rotary_key.shape@[2]
            }
        },
{
}

/// The storage of a compressed cache holds what is retained and consists of whole chunks.
pub proof fn compressed_capacity_is_chunked<R: Copy>(
    cache: CompressedLatentCache<R>,
    new_tokens: int,
)
    requires
        cache.step > 1,
        0 <= cache.length <= cache.capacity,
        cache.capacity % cache.step == 0,
        0 <= new_tokens,
    ensures
        cache.capacity_after(new_tokens) >= cache.length + new_tokens,
        cache.capacity_after(new_tokens) % (cache.step as int) == 0,
        cache.capacity_after(new_tokens) < cache.length + new_tokens + cache.step
            || cache.capacity_after(new_tokens) == cache.capacity,
{
    chunks_cover(cache.length + new_tokens, cache.step as int);
}

/// Storage ends its states with the newest ones and is padded behind them: it fills its
/// capacity, the last states are the new ones, and all that lies behind is zero.
pub proof fn stored_states_are_padded<R>(
    stored: Option<StateArray<R>>,
    length: i32,
    new: StateArray<R>,
    max_size: Option<i32>,
    capacity: int,
    behind: int,
)
    requires
        max_size matches Some(size) ==> size >= 0,
        0 <= length <= rows_of(stored).len(),
        newest(rows_of(stored).take(length as int) + new.rows@, max_size).len() <= capacity,
    ensures
        ({
            let rows = storage_after(stored, length, new, max_size, capacity);
            let kept = newest(rows_of(stored).take(length as int) + new.rows@, max_size).len() as int;
            &&& rows.len() == capacity
            &&& kept <= length + new.rows@.len()
            &&& max_size is None ==> kept == length + new.rows@.len()
            &&& 0 <= behind < new.rows@.len() && behind < kept ==> rows[kept - 1 - behind]
                == new.rows@[new.rows@.len() - 1 - behind]
            &&& new.rows@.len() <= behind < kept ==> rows[kept - 1 - behind] == rows_of(
                stored,
            )[length + new.rows@.len() - 1 - behind]
            &&& kept <= behind < capacity ==> rows[behind] == new.zero
        }),
{
    let all = rows_of(stored).take(length as int) + new.rows@;
    windows_retain_the_newest(all, max_size, behind);
    let kept = newest(all, max_size);
    let rows = storage_after(stored, length, new, max_size, capacity);
    if 0 <= behind < kept.len() {
        assert(rows[kept.len() - 1 - behind] == kept[kept.len() - 1 - behind]);
    }
}

/// A cache hands out the keys and the values that it has, keys first.
pub proof fn keys_are_listed_before_values<R>(
    arrays: Seq<&StateArray<R>>,
    keys: Option<StateArray<R>>,
    values: Option<StateArray<R>>,
)
    requires
        listed_arrays(arrays, keys, values),
    ensures
        keys is Some ==> arrays.len() > 0 && *arrays[0] == keys->Some_0,
        values is Some ==> arrays.len() > 0 && *arrays[arrays.len() - 1] == values->Some_0,
        arrays.len() == (if keys is Some {
            1int
        } else {
            0
        }) + (if values is Some {
            1int
        } else {
            0
        }),
{
}

/// A new compressed cache holds nothing and has seen nothing.
pub proof fn new_compressed_caches_hold_nothing<R>()
    ensures
        empty_latent_cache::<R>().storage is None,
        empty_latent_cache::<R>().latent is None,
        empty_latent_cache::<R>().rotary_key is None,
        empty_latent_cache::<R>().offset == 0,
        empty_latent_cache::<R>().length == 0,
        empty_latent_cache::<R>().capacity == 0,
        empty_latent_cache::<R>().step > 0,
{
}

/// The retained states of a cache are as many as it says and stand at the front of its
/// storage.
pub proof fn retained_states_stand_in_front<R: Copy>(cache: ConcatKeyValueCache<R>, i: int)
    requires
        0 <= i < cache.length,
        cache.length <= rows_of(cache.keys).len(),
        cache.length <= rows_of(cache.values).len(),
    ensures
        cache.cached_keys().len() == cache.length,
        cache.cached_values().len() == cache.length,
        cache.keys matches Some(keys) ==> cache.cached_keys()[i] == keys.rows@[i],
        cache.values matches Some(values) ==> cache.cached_values()[i] == values.rows@[i],
{
}

} // verus!
