//! Attribution of cumulative activity to layers.

use vstd::prelude::*;

use crate::cache_residency::catalog::{CacheResidencyManager, LayerActivity};
use crate::cache_residency::stats::{
    Activity, CacheLayerActivityCounters, CACHE_RESIDENCY_LAYER_REPORT_LIMIT,
};

verus! {

/// Whether activity of a layer goes to a row of its own: it has one already, or
/// rows are left.
pub open spec fn gets_row(activity: Seq<LayerActivity>, layer: usize) -> bool {
    crate::cache_residency::report::is_observed(activity, layer) || activity.len()
        < CACHE_RESIDENCY_LAYER_REPORT_LIMIT
}

impl CacheResidencyManager {
    /// Whether the rows of layers are those of `before` with `delta` attributed to the
    /// layer, or to the overflow where the layer gets no row.
    pub open spec fn credits(
        self,
        before: CacheResidencyManager,
        layer: Option<usize>,
        delta: Activity,
    ) -> bool {
        if layer is Some && gets_row(before.layer_activity@, layer->Some_0) {
            &&& self.layer_activity_overflow == before.layer_activity_overflow
            &&& crate::cache_residency::report::is_observed(self.layer_activity@, layer->Some_0)
            &&& crate::cache_residency::report::activity_of(self.layer_activity@, layer->Some_0)
                == crate::cache_residency::report::activity_of(
                before.layer_activity@,
                layer->Some_0,
            ).plus(delta)
            &&& forall|other: usize|
                other != layer->Some_0 ==> #[trigger] crate::cache_residency::report::is_observed(
                    self.layer_activity@,
                    other,
                ) == crate::cache_residency::report::is_observed(before.layer_activity@, other)
            &&& forall|other: usize|
                other != layer->Some_0 ==> #[trigger] crate::cache_residency::report::activity_of(
                    self.layer_activity@,
                    other,
                ) == crate::cache_residency::report::activity_of(before.layer_activity@, other)
        } else {
            &&& self.layer_activity@ == before.layer_activity@
            &&& self.layer_activity_overflow@ == before.layer_activity_overflow@.plus(delta)
        }
    }

    /// Whether this manager is `before` with `delta` counted in the totals and
    /// attributed to the layer, or to the overflow where the layer gets no row.
    pub open spec fn attributes(
        self,
        before: CacheResidencyManager,
        layer: Option<usize>,
        delta: Activity,
    ) -> bool {
        &&& self == (CacheResidencyManager {
            report: before.report.with_activity(before.report.activity().plus(delta)),
            layer_activity: self.layer_activity,
            layer_activity_overflow: self.layer_activity_overflow,
            ..before
        })
        &&& self.report.activity() == before.report.activity().plus(delta)
        &&& self.credits(before, layer, delta)
    }
}

impl CacheResidencyManager {
    /// Activity of one layer that is noted twice is attributed as its sum.
    pub(crate) proof fn credits_add_up(
        self,
        between: CacheResidencyManager,
        after: CacheResidencyManager,
        layer: usize,
        first: Activity,
        second: Activity,
    )
        requires
            between.credits(self, Some(layer), first),
            after.credits(between, Some(layer), second),
        ensures
            after.credits(self, Some(layer), first.plus(second)),
    {
        if gets_row(self.layer_activity@, layer) {
            assert forall|other: usize| other != layer implies (
            #[trigger] crate::cache_residency::report::is_observed(after.layer_activity@, other)
                == crate::cache_residency::report::is_observed(self.layer_activity@, other)) by {
                assert(crate::cache_residency::report::is_observed(between.layer_activity@, other)
                    == crate::cache_residency::report::is_observed(self.layer_activity@, other));
            }
            assert forall|other: usize| other != layer implies (
            #[trigger] crate::cache_residency::report::activity_of(after.layer_activity@, other)
                == crate::cache_residency::report::activity_of(self.layer_activity@, other)) by {
                assert(crate::cache_residency::report::activity_of(between.layer_activity@, other)
                    == crate::cache_residency::report::activity_of(self.layer_activity@, other));
            }
        }
    }
}

proof fn observed_update(activity: Seq<LayerActivity>, index: int, row: LayerActivity, delta: Activity)
    requires
        0 <= index < activity.len(),
        row.counters@ == activity[index].counters@.plus(delta),
    ensures
        crate::cache_residency::catalog::observed_activity(activity.update(index, row))
            == crate::cache_residency::catalog::observed_activity(activity).plus(delta),
    decreases activity.len(),
{
    let after = activity.update(index, row);
    if index == activity.len() - 1 {
        assert(after.drop_last() =~= activity.drop_last());
    } else {
        observed_update(activity.drop_last(), index, row, delta);
        assert(after.drop_last() =~= activity.drop_last().update(index, row));
        assert(after.last() == activity.last());
    }
}

proof fn observed_insert(activity: Seq<LayerActivity>, index: int, row: LayerActivity)
    requires
        0 <= index <= activity.len(),
    ensures
        crate::cache_residency::catalog::observed_activity(activity.insert(index, row))
            == crate::cache_residency::catalog::observed_activity(activity).plus(row.counters@),
    decreases activity.len(),
{
    let after = activity.insert(index, row);
    if index == activity.len() {
        assert(after.drop_last() =~= activity);
    } else {
        observed_insert(activity.drop_last(), index, row);
        assert(after.drop_last() =~= activity.drop_last().insert(index, row));
        assert(after.last() == activity.last());
    }
}

/// In ordered activity a layer's row is the one at its position.
proof fn row_is(activity: Seq<LayerActivity>, i: int)
    requires
        crate::cache_residency::catalog::activity_ordered(activity),
        0 <= i < activity.len(),
    ensures
        crate::cache_residency::report::is_observed(activity, activity[i].global_layer),
        crate::cache_residency::report::activity_of(activity, activity[i].global_layer)
            == activity[i].counters@,
{
    let layer = activity[i].global_layer;
    let j = choose|j: int| 0 <= j < activity.len() && (#[trigger] activity[j]).global_layer == layer;
    if i < j {
        assert(activity[i].global_layer < activity[j].global_layer);
    }
    if j < i {
        assert(activity[j].global_layer < activity[i].global_layer);
    }
}

/// Rows of other layers are the same in both lists.
proof fn other_rows_agree(
    before: Seq<LayerActivity>,
    after: Seq<LayerActivity>,
    layer: usize,
    other: usize,
    forward: spec_fn(int) -> int,
    backward: spec_fn(int) -> int,
)
    requires
        crate::cache_residency::catalog::activity_ordered(before),
        crate::cache_residency::catalog::activity_ordered(after),
        other != layer,
        forall|i: int|
            0 <= i < before.len() && (#[trigger] before[i]).global_layer != layer ==> 0 <= forward(i)
                < after.len() && after[forward(i)] == before[i],
        forall|i: int|
            0 <= i < after.len() && (#[trigger] after[i]).global_layer != layer ==> 0 <= backward(i)
                < before.len() && before[backward(i)] == after[i],
    ensures
        crate::cache_residency::report::is_observed(after, other)
            == crate::cache_residency::report::is_observed(before, other),
        crate::cache_residency::report::activity_of(after, other)
            == crate::cache_residency::report::activity_of(before, other),
{
    if crate::cache_residency::report::is_observed(before, other) {
        let i = choose|i: int|
            0 <= i < before.len() && (#[trigger] before[i]).global_layer == other;
        assert(after[forward(i)] == before[i]);
        row_is(before, i);
        row_is(after, forward(i));
    }
    if crate::cache_residency::report::is_observed(after, other) {
        let i = choose|i: int| 0 <= i < after.len() && (#[trigger] after[i]).global_layer == other;
        assert(before[backward(i)] == after[i]);
        row_is(before, backward(i));
    }
}

impl CacheResidencyManager {
    /// Counts activity in the totals and attributes it to its layer. Activity without
    /// a layer, or of a layer that gets no row, goes to the overflow.
    #[verifier::rlimit(40)]
    pub fn note_activity(&mut self, layer: Option<usize>, delta: &CacheLayerActivityCounters)
        requires
            old(self).wf(),
            old(self).report.activity().plus(delta@).fits(),
        ensures
            final(self).wf(),
            final(self).attributes(*old(self), layer, delta@),
    {
        let ghost before = self.layer_activity@;
        let ghost observed = crate::cache_residency::catalog::observed_activity(before);
        proof {
            nonnegative(before);
        }
        self.report.add_activity(delta);
        let layer_index: usize = match layer {
            Some(layer) => layer,
            None => {
                self.layer_activity_overflow.accumulate(delta);
                return ;
            },
        };
        let mut index: usize = 0;
        while index < self.layer_activity.len() && self.layer_activity[index].global_layer
            < layer_index
            invariant
                index <= self.layer_activity@.len(),
                self.layer_activity@ == before,
                forall|i: int|
                    0 <= i < index ==> (#[trigger] self.layer_activity@[i]).global_layer
                        < layer_index,
            decreases self.layer_activity@.len() - index,
        {
            index = index + 1;
        }
        if index < self.layer_activity.len() && self.layer_activity[index].global_layer
            == layer_index {
            let mut row = self.layer_activity[index];
            proof {
                crate::cache_residency::activity::row_within(before, index as int, observed);
            }
            row.counters.accumulate(delta);
            self.layer_activity[index] = row;
            proof {
                let after = self.layer_activity@;
                observed_update(before, index as int, row, delta@);
                row_is(before, index as int);
                row_is(after, index as int);
                assert forall|other: usize| other != layer_index implies (
                #[trigger] crate::cache_residency::report::is_observed(after, other)
                    == crate::cache_residency::report::is_observed(before, other)) by {
                    other_rows_agree(before, after, layer_index, other, |i: int| i, |i: int| i);
                }
                assert forall|other: usize| other != layer_index implies (
                #[trigger] crate::cache_residency::report::activity_of(after, other)
                    == crate::cache_residency::report::activity_of(before, other)) by {
                    other_rows_agree(before, after, layer_index, other, |i: int| i, |i: int| i);
                }
            }
        } else {
            proof {
                if crate::cache_residency::report::is_observed(before, layer_index) {
                    let i = choose|i: int|
                        0 <= i < before.len() && (#[trigger] before[i]).global_layer
                            == layer_index;
                    assert(i == index || i > index);
                    if i > index {
                        assert(before[index as int].global_layer < before[i].global_layer);
                    }
                }
            }
            if self.layer_activity.len() < CACHE_RESIDENCY_LAYER_REPORT_LIMIT {
                let row = LayerActivity { global_layer: layer_index, counters: *delta };
                self.layer_activity.insert(index, row);
                proof {
                    let after = self.layer_activity@;
                    before.insert_ensures(index as int, row);
                    observed_insert(before, index as int, row);
                    assert forall|i: int, j: int| 0 <= i < j < after.len() implies (
                    #[trigger] after[i]).global_layer < (#[trigger] after[j]).global_layer by {
                        let a = if i < index {
                            i
                        } else {
                            i - 1
                        };
                        let b = if j < index {
                            j
                        } else {
                            j - 1
                        };
                        if i == index {
                            assert(after[j] == before[b]);
                            assert(before[index as int].global_layer <= before[b].global_layer) by {
                                if b > index {
                                    assert(before[index as int].global_layer
                                        < before[b].global_layer);
                                }
                            }
                        } else if j == index {
                            assert(after[i] == before[a]);
                        } else {
                            assert(after[i] == before[a] && after[j] == before[b]);
                        }
                    }
                    row_is(after, index as int);
                    let forward = |i: int|
                        if i < index {
                            i
                        } else {
                            i + 1
                        };
                    let backward = |i: int|
                        if i < index {
                            i
                        } else {
                            i - 1
                        };
                    assert forall|other: usize| other != layer_index implies (
                    #[trigger] crate::cache_residency::report::is_observed(after, other)
                        == crate::cache_residency::report::is_observed(before, other)) by {
                        other_rows_agree(before, after, layer_index, other, forward, backward);
                    }
                    assert forall|other: usize| other != layer_index implies (
                    #[trigger] crate::cache_residency::report::activity_of(after, other)
                        == crate::cache_residency::report::activity_of(before, other)) by {
                        other_rows_agree(before, after, layer_index, other, forward, backward);
                    }
                }
            } else {
                self.layer_activity_overflow.accumulate(delta);
            }
        }
    }
}

/// Sums of activity are not negative.
proof fn nonnegative(activity: Seq<LayerActivity>)
    ensures
        Activity::zero().at_most(crate::cache_residency::catalog::observed_activity(activity)),
    decreases activity.len(),
{
    if activity.len() > 0 {
        nonnegative(activity.drop_last());
    }
}

/// A row's activity is at most that of all rows.
proof fn row_within(activity: Seq<LayerActivity>, index: int, observed: Activity)
    requires
        0 <= index < activity.len(),
        observed == crate::cache_residency::catalog::observed_activity(activity),
    ensures
        activity[index].counters@.at_most(observed),
    decreases activity.len(),
{
    nonnegative(activity.drop_last());
    if index < activity.len() - 1 {
        row_within(
            activity.drop_last(),
            index,
            crate::cache_residency::catalog::observed_activity(activity.drop_last()),
        );
    }
}

} // verus!
