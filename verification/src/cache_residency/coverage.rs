//! Gap-free, overlap-free coverage of a token prefix by the spans of one layer.

use vstd::prelude::*;

verus! {

/// The half-open token range of one block.
#[derive(Debug, Clone, Copy, PartialEq, Eq, Structural)]
pub struct TokenSpan {
    /// Inclusive absolute token position.
    pub start: i64,
    /// Exclusive absolute token position.
    pub end: i64,
}

/// Where a walk over spans in the order of their starts ends.
#[derive(Debug, Clone, Copy, PartialEq, Eq, Structural)]
pub enum SpanWalk {
    /// Every span started where its predecessor ended; the last one ends here.
    Reaches(i64),
    /// A span did not start where its predecessor ended.
    Breaks {
        /// End of the predecessor.
        expected: i64,
        /// Start of the span.
        found: i64,
    },
}

/// Position of the earliest span; of several with one start, the first.
pub open spec fn earliest(spans: Seq<TokenSpan>) -> int
    decreases spans.len(),
{
    if spans.len() <= 1 {
        0
    } else {
        let before = earliest(spans.drop_last());
        if spans.last().start < spans[before].start {
            spans.len() - 1
        } else {
            before
        }
    }
}

/// Follows spans from a position, earliest first.
pub open spec fn walk(spans: Seq<TokenSpan>, from: i64) -> SpanWalk
    decreases spans.len(),
{
    if spans.len() == 0 {
        SpanWalk::Reaches(from)
    } else {
        let next = spans[earliest(spans)];
        if next.start != from {
            SpanWalk::Breaks { expected: from, found: next.start }
        } else {
            proof {
                earliest_is_least(spans);
            }
            walk(spans.remove(earliest(spans)), next.end)
        }
    }
}

/// The earliest span starts no later than any other.
pub proof fn earliest_is_least(spans: Seq<TokenSpan>)
    requires
        spans.len() > 0,
    ensures
        0 <= earliest(spans) < spans.len(),
        forall|i: int|
            0 <= i < spans.len() ==> spans[earliest(spans)].start <= (#[trigger] spans[i]).start,
        forall|i: int|
            0 <= i < earliest(spans) ==> spans[earliest(spans)].start < (#[trigger] spans[i]).start,
    decreases spans.len(),
{
    if spans.len() > 1 {
        let shorter = spans.drop_last();
        earliest_is_least(shorter);
        assert forall|i: int| 0 <= i < spans.len() implies spans[earliest(spans)].start <= (
        #[trigger] spans[i]).start by {
            if i < spans.len() - 1 {
                assert(shorter[i] == spans[i]);
            }
        }
        assert forall|i: int| 0 <= i < earliest(spans) implies spans[earliest(spans)].start < (
        #[trigger] spans[i]).start by {
            assert(shorter[i] == spans[i]);
        }
    }
}

/// Follows spans from a position, earliest first.
pub fn walk_spans(spans: Vec<TokenSpan>, from: i64) -> (outcome: SpanWalk)
    ensures
        outcome == walk(spans@, from),
{
    let mut left = spans;
    let mut position: i64 = from;
    while left.len() > 0
        invariant
            walk(left@, position) == walk(spans@, from),
        decreases left@.len(),
    {
        let mut best: usize = 0;
        let mut index: usize = 1;
        assert(left@.take(1).len() == 1);
        while index < left.len()
            invariant
                1 <= index <= left@.len(),
                best < index,
                best == earliest(left@.take(index as int)),
            decreases left@.len() - index,
        {
            assert(left@.take(index + 1).drop_last() =~= left@.take(index as int));
            if left[index].start < left[best].start {
                best = index;
            }
            index = index + 1;
        }
        assert(left@.take(index as int) =~= left@);
        let next = left.remove(best);
        if next.start != position {
            return SpanWalk::Breaks { expected: position, found: next.start };
        }
        position = next.end;
    }
    SpanWalk::Reaches(position)
}

/// Whether a span holds a token position.
pub open spec fn holds(span: TokenSpan, token: int) -> bool {
    span.start <= token < span.end
}

/// Whether one of several spans holds a token position.
pub open spec fn covered(spans: Seq<TokenSpan>, token: int) -> bool {
    exists|i: int| 0 <= i < spans.len() && #[trigger] holds(spans[i], token)
}

/// Whether spans cover the positions from `from` up to `to`: none of them is empty, all
/// of them lie within, every position is in one of them, and no position is in two.
pub open spec fn partitions(spans: Seq<TokenSpan>, from: int, to: int) -> bool {
    &&& from <= to
    &&& forall|i: int|
        0 <= i < spans.len() ==> from <= (#[trigger] spans[i]).start < spans[i].end <= to
    &&& forall|token: int| from <= token < to ==> #[trigger] covered(spans, token)
    &&& forall|token: int, i: int, j: int|
        0 <= i < spans.len() && 0 <= j < spans.len() && #[trigger] holds(spans[i], token)
            && #[trigger] holds(spans[j], token) ==> i == j
}

/// Spans without an empty one are followed from one position to another exactly if
/// they cover the positions between the two, each once.
pub proof fn walk_reaches_exactly_partitions(spans: Seq<TokenSpan>, from: i64, to: i64)
    requires
        forall|i: int| 0 <= i < spans.len() ==> (#[trigger] spans[i]).start < spans[i].end,
    ensures
        walk(spans, from) == SpanWalk::Reaches(to) <==> partitions(spans, from as int, to as int),
    decreases spans.len(),
{
    if spans.len() == 0 {
        if from < to && partitions(spans, from as int, to as int) {
            assert(covered(spans, from as int));
            let i = choose|i: int|
                0 <= i < spans.len() && #[trigger] holds(spans[i], from as int);
            assert(false);
        }
    } else {
        earliest_is_least(spans);
        let at = earliest(spans);
        let next = spans[at];
        let rest = spans.remove(at);
        assert forall|i: int| 0 <= i < rest.len() implies (#[trigger] rest[i]).start
            < rest[i].end by {
            assert(rest[i] == spans[if i < at {
                i
            } else {
                i + 1
            }]);
        }
        walk_reaches_exactly_partitions(rest, next.end, to);
        if next.start == from {
            if partitions(rest, next.end as int, to as int) {
                rest_extends(spans, at, from as int, to as int);
            }
            if partitions(spans, from as int, to as int) {
                rest_remains(spans, at, from as int, to as int);
            }
        } else if partitions(spans, from as int, to as int) {
            assert(from <= next.start && next.start < next.end && next.end <= to);
            assert(covered(spans, from as int));
            let i = choose|i: int|
                0 <= i < spans.len() && #[trigger] holds(spans[i], from as int);
            assert(spans[at].start <= spans[i].start);
            assert(false);
        }
    }
}

proof fn rest_extends(spans: Seq<TokenSpan>, at: int, from: int, to: int)
    requires
        0 <= at < spans.len(),
        spans[at].start == from,
        spans[at].start < spans[at].end,
        partitions(spans.remove(at), spans[at].end as int, to),
    ensures
        partitions(spans, from, to),
{
    let rest = spans.remove(at);
    let next = spans[at];
    let place = |i: int|
        if i < at {
            i
        } else {
            i - 1
        };
    assert forall|i: int| 0 <= i < spans.len() implies from <= (#[trigger] spans[i]).start
        < spans[i].end <= to by {
        if i != at {
            assert(rest[place(i)] == spans[i]);
        }
    }
    assert forall|token: int| from <= token < to implies #[trigger] covered(spans, token) by {
        if token < next.end {
            assert(holds(spans[at], token));
        } else {
            assert(covered(rest, token));
            let i = choose|i: int| 0 <= i < rest.len() && #[trigger] holds(rest[i], token);
            let j = if i < at {
                i
            } else {
                i + 1
            };
            assert(rest[i] == spans[j]);
            assert(holds(spans[j], token));
        }
    }
    assert forall|token: int, i: int, j: int|
        0 <= i < spans.len() && 0 <= j < spans.len() && #[trigger] holds(spans[i], token)
            && #[trigger] holds(spans[j], token) implies i == j by {
        if i != at {
            assert(rest[place(i)] == spans[i]);
            assert(holds(rest[place(i)], token));
        }
        if j != at {
            assert(rest[place(j)] == spans[j]);
            assert(holds(rest[place(j)], token));
        }
    }
}

proof fn rest_remains(spans: Seq<TokenSpan>, at: int, from: int, to: int)
    requires
        0 <= at < spans.len(),
        spans[at].start == from,
        partitions(spans, from, to),
    ensures
        partitions(spans.remove(at), spans[at].end as int, to),
{
    let rest = spans.remove(at);
    let next = spans[at];
    let place = |i: int|
        if i < at {
            i
        } else {
            i + 1
        };
    assert forall|i: int| 0 <= i < rest.len() implies next.end <= (#[trigger] rest[i]).start
        < rest[i].end <= to by {
        assert(rest[i] == spans[place(i)]);
        if rest[i].start < next.end {
            assert(holds(spans[place(i)], rest[i].start as int));
            assert(holds(spans[at], rest[i].start as int));
        }
    }
    assert forall|token: int| next.end <= token < to implies #[trigger] covered(rest, token) by {
        assert(covered(spans, token));
        let i = choose|i: int| 0 <= i < spans.len() && #[trigger] holds(spans[i], token);
        let j = if i < at {
            i
        } else {
            i - 1
        };
        assert(i != at);
        assert(rest[j] == spans[i]);
        assert(holds(rest[j], token));
    }
    assert forall|token: int, i: int, j: int|
        0 <= i < rest.len() && 0 <= j < rest.len() && #[trigger] holds(rest[i], token)
            && #[trigger] holds(rest[j], token) implies i == j by {
        assert(rest[i] == spans[place(i)] && rest[j] == spans[place(j)]);
        assert(holds(spans[place(i)], token) && holds(spans[place(j)], token));
    }
}

/// Which spans cover a prefix does not depend on the order in which they are listed.
pub proof fn coverage_ignores_order(
    left: Seq<TokenSpan>,
    right: Seq<TokenSpan>,
    from: int,
    to: int,
)
    requires
        left.to_multiset() == right.to_multiset(),
        partitions(left, from, to),
    ensures
        partitions(right, from, to),
    decreases left.len(),
{
    broadcast use vstd::seq_lib::group_to_multiset_ensures;

    vstd::seq_lib::to_multiset_len(left);
    vstd::seq_lib::to_multiset_len(right);
    if left.len() == 0 {
        assert(left =~= right);
    } else {
        earliest_is_least(left);
        let at = earliest(left);
        let next = left[at];
        assert(next.start == from) by {
            assert(left[at].start < left[at].end);
            assert(covered(left, from));
            let i = choose|i: int| 0 <= i < left.len() && #[trigger] holds(left[i], from);
            assert(left[at].start <= left[i].start);
        }
        rest_remains(left, at, from, to);
        assert(left.contains(next));
        assert(right.to_multiset().count(next) > 0);
        assert(right.contains(next));
        let found = choose|i: int| 0 <= i < right.len() && right[i] == next;
        vstd::seq_lib::to_multiset_remove(left, at);
        vstd::seq_lib::to_multiset_remove(right, found);
        coverage_ignores_order(left.remove(at), right.remove(found), next.end as int, to);
        rest_extends(right, found, from, to);
    }
}

} // verus!
