//! The dictionary order of texts and sorting by it.

use vstd::prelude::*;
use vstd::string::StrSliceExecFns;

verus! {

/// The dictionary order of texts: character by character, a prefix first.
pub open spec fn text_order(left: Seq<char>, right: Seq<char>) -> bool
    decreases left.len(),
{
    if left.len() == 0 {
        true
    } else if right.len() == 0 {
        false
    } else if left[0] != right[0] {
        left[0] < right[0]
    } else {
        text_order(left.drop_first(), right.drop_first())
    }
}

/// Of two texts one comes first, or they are equal.
pub proof fn text_order_is_connected(left: Seq<char>, right: Seq<char>)
    ensures
        text_order(left, right) || text_order(right, left),
        left == right ==> text_order(left, right),
    decreases left.len(),
{
    if left.len() > 0 && right.len() > 0 && left[0] == right[0] {
        text_order_is_connected(left.drop_first(), right.drop_first());
    }
}

/// Texts that come before each other are equal.
pub proof fn text_order_is_antisymmetric(left: Seq<char>, right: Seq<char>)
    requires
        text_order(left, right),
        text_order(right, left),
    ensures
        left == right,
    decreases left.len(),
{
    if left.len() > 0 && right.len() > 0 {
        let l = left.drop_first();
        let r = right.drop_first();
        text_order_is_antisymmetric(l, r);
        assert forall|i: int| 0 <= i < left.len() implies left[i] == right[i] by {
            if i > 0 {
                assert(left[i] == l[i - 1] && right[i] == r[i - 1]);
            }
        }
        assert(left =~= right);
    } else {
        assert(left =~= right);
    }
}

/// The dictionary order is transitive.
pub proof fn text_order_is_transitive(a: Seq<char>, b: Seq<char>, c: Seq<char>)
    requires
        text_order(a, b),
        text_order(b, c),
    ensures
        text_order(a, c),
    decreases a.len(),
{
    if a.len() > 0 && b.len() > 0 && c.len() > 0 && a[0] == b[0] && b[0] == c[0] {
        text_order_is_transitive(a.drop_first(), b.drop_first(), c.drop_first());
    }
}

/// Whether a text comes strictly before another.
pub open spec fn text_before(left: Seq<char>, right: Seq<char>) -> bool {
    text_order(left, right) && left != right
}

/// Texts behind a common start are ordered as they are alone.
pub proof fn common_start_keeps_order(start: Seq<char>, left: Seq<char>, right: Seq<char>)
    ensures
        text_order(start + left, start + right) == text_order(left, right),
    decreases start.len(),
{
    if start.len() == 0 {
        assert(start + left =~= left);
        assert(start + right =~= right);
    } else {
        common_start_keeps_order(start.drop_first(), left, right);
        assert((start + left).drop_first() =~= start.drop_first() + left);
        assert((start + right).drop_first() =~= start.drop_first() + right);
    }
}

/// Where equally long starts differ, they alone decide the order.
pub proof fn starts_decide(
    left: Seq<char>,
    right: Seq<char>,
    left_rest: Seq<char>,
    right_rest: Seq<char>,
)
    requires
        left.len() == right.len(),
        text_before(left, right),
    ensures
        text_before(left + left_rest, right + right_rest),
    decreases left.len(),
{
    if left.len() == 0 {
        assert(left =~= right);
    } else {
        let l = left + left_rest;
        let r = right + right_rest;
        assert(l[0] == left[0] && r[0] == right[0]);
        if left[0] == right[0] {
            if left.drop_first() == right.drop_first() {
                assert(left =~= seq![left[0]] + left.drop_first());
                assert(right =~= seq![right[0]] + right.drop_first());
            }
            starts_decide(left.drop_first(), right.drop_first(), left_rest, right_rest);
            assert(l.drop_first() =~= left.drop_first() + left_rest);
            assert(r.drop_first() =~= right.drop_first() + right_rest);
        }
    }
}

/// Equally long numerals are ordered as texts the way they are as numbers.
pub proof fn equal_widths_order_as_numbers(left: Seq<char>, right: Seq<char>)
    requires
        left.len() == right.len(),
        crate::text::all_digits(left),
        crate::text::all_digits(right),
    ensures
        crate::text::digits_value(left) < crate::text::digits_value(right) ==> text_before(
            left,
            right,
        ),
        crate::text::digits_value(left) == crate::text::digits_value(right) ==> left == right,
    decreases left.len(),
{
    if left.len() == 0 {
        assert(left =~= right);
    } else {
        let l = left.drop_last();
        let r = right.drop_last();
        assert forall|i: int| 0 <= i < l.len() implies crate::text::is_digit(#[trigger] l[i]) by {
            assert(crate::text::is_digit(left[i]));
        }
        assert forall|i: int| 0 <= i < r.len() implies crate::text::is_digit(#[trigger] r[i]) by {
            assert(crate::text::is_digit(right[i]));
        }
        assert(crate::text::is_digit(left[left.len() - 1]));
        assert(crate::text::is_digit(right[right.len() - 1]));
        equal_widths_order_as_numbers(l, r);
        equal_widths_order_as_numbers(r, l);
        let x = seq![left.last()];
        let y = seq![right.last()];
        assert(left =~= l + x);
        assert(right =~= r + y);
        if crate::text::digits_value(left) < crate::text::digits_value(right) {
            if crate::text::digits_value(l) < crate::text::digits_value(r) {
                starts_decide(l, r, x, y);
            } else {
                assert(l == r);
                common_start_keeps_order(l, x, y);
                assert(x[0] < y[0]);
                assert(left.last() != right.last());
            }
        }
        if crate::text::digits_value(left) == crate::text::digits_value(right) {
            assert(crate::text::digits_value(l) == crate::text::digits_value(r));
        }
    }
}

/// Answers whether a text comes before another or equals it.
pub fn text_precedes(left: &str, right: &str) -> (ordered: bool)
    ensures
        ordered == text_order(left@, right@),
{
    let left_len: usize = left.unicode_len();
    let right_len: usize = right.unicode_len();
    let mut index: usize = 0;
    assert(left@.skip(0) =~= left@);
    assert(right@.skip(0) =~= right@);
    while index < left_len && index < right_len
        invariant
            left_len == left@.len(),
            right_len == right@.len(),
            index <= left_len,
            index <= right_len,
            text_order(left@, right@) == text_order(
                left@.skip(index as int),
                right@.skip(index as int),
            ),
        decreases left_len - index,
    {
        let l = left.get_char(index);
        let r = right.get_char(index);
        assert(left@.skip(index as int)[0] == l);
        assert(right@.skip(index as int)[0] == r);
        if l != r {
            return l < r;
        }
        assert(left@.skip(index as int).drop_first() =~= left@.skip(index + 1));
        assert(right@.skip(index as int).drop_first() =~= right@.skip(index + 1));
        index = index + 1;
    }
    index >= left_len
}

/// The dictionary order as a function.
pub open spec fn by_text() -> spec_fn(Seq<char>, Seq<char>) -> bool {
    |left: Seq<char>, right: Seq<char>| text_order(left, right)
}

/// Texts are totally ordered.
pub proof fn text_order_is_total()
    ensures
        vstd::relations::total_ordering(by_text()),
{
    let order = by_text();
    assert forall|a: Seq<char>| #[trigger] order(a, a) by {
        text_order_is_connected(a, a);
    }
    assert forall|a: Seq<char>, b: Seq<char>| #[trigger] order(a, b) && #[trigger] order(
        b,
        a,
    ) implies a == b by {
        text_order_is_antisymmetric(a, b);
    }
    assert forall|a: Seq<char>, b: Seq<char>, c: Seq<char>| #[trigger]
        order(a, b) && #[trigger] order(b, c) implies order(a, c) by {
        text_order_is_transitive(a, b, c);
    }
    assert forall|a: Seq<char>, b: Seq<char>| #[trigger] order(a, b) || #[trigger] order(
        b,
        a,
    ) by {
        text_order_is_connected(a, b);
    }
}

/// Inserts a text where it belongs.
fn insert_text(list: &mut Vec<String>, text: String)
    requires
        vstd::relations::sorted_by(crate::error::texts(old(list)@), by_text()),
    ensures
        vstd::relations::sorted_by(crate::error::texts(final(list)@), by_text()),
        crate::error::texts(final(list)@).to_multiset() == crate::error::texts(
            old(list)@,
        ).to_multiset().insert(text@),
{
    let ghost before = list@;
    let ghost order = by_text();
    let ghost texts = crate::error::texts(before);
    let mut index: usize = 0;
    while index < list.len() && text_precedes(list[index].as_str(), text.as_str())
        invariant
            index <= list@.len(),
            list@ == before,
            texts == crate::error::texts(before),
            order == by_text(),
            forall|i: int| 0 <= i < index ==> order(#[trigger] texts[i], text@),
        decreases list@.len() - index,
    {
        assert(texts[index as int] == before[index as int]@);
        index = index + 1;
    }
    proof {
        text_order_is_total();
        if index < before.len() {
            let at = texts[index as int];
            assert(at == before[index as int]@);
            assert(!order(at, text@));
            assert(order(text@, at));
            assert forall|i: int| index <= i < texts.len() implies order(
                text@,
                #[trigger] texts[i],
            ) by {
                if i > index {
                    assert(order(at, texts[i]));
                }
            }
        }
    }
    let ghost inserted = text;
    list.insert(index, text);
    proof {
        let after = crate::error::texts(list@);
        before.insert_ensures(index as int, inserted);
        texts.insert_ensures(index as int, inserted@);
        assert(after =~= texts.insert(index as int, inserted@));
        vstd::seq_lib::to_multiset_insert(texts, index as int, inserted@);
        assert forall|i: int, j: int| 0 <= i < j < after.len() implies #[trigger] order(
            after[i],
            after[j],
        ) by {
            let a = if i < index {
                i
            } else {
                i - 1
            };
            let b = if j < index {
                j
            } else {
                j - 1
            };
            if i == index {
                assert(after[j] == texts[b]);
            } else if j == index {
                assert(after[i] == texts[a]);
            } else {
                assert(after[i] == texts[a] && after[j] == texts[b]);
                assert(order(texts[a], texts[b]));
            }
        }
    }
}

/// Sorts texts into dictionary order.
pub fn sort_texts(list: Vec<String>) -> (sorted: Vec<String>)
    ensures
        crate::error::texts(sorted@) == crate::error::texts(list@).sort_by(by_text()),
{
    let mut unsorted = list;
    let mut sorted: Vec<String> = Vec::new();
    let ghost all = crate::error::texts(list@);
    proof {
        assert(crate::error::texts(sorted@) =~= Seq::empty());
        vstd::seq_lib::to_multiset_len(crate::error::texts(sorted@));
        assert(crate::error::texts(sorted@).to_multiset() =~= vstd::multiset::Multiset::empty());
    }
    while unsorted.len() > 0
        invariant
            vstd::relations::sorted_by(crate::error::texts(sorted@), by_text()),
            crate::error::texts(sorted@).to_multiset().add(
                crate::error::texts(unsorted@).to_multiset(),
            ) == all.to_multiset(),
        decreases unsorted@.len(),
    {
        let ghost rest = crate::error::texts(unsorted@);
        let ghost placed = crate::error::texts(sorted@).to_multiset();
        match unsorted.pop() {
            Some(text) => {
                let ghost moved = text@;
                insert_text(&mut sorted, text);
                proof {
                    let shorter = crate::error::texts(unsorted@);
                    assert(rest =~= shorter.push(moved));
                    broadcast use vstd::seq_lib::group_to_multiset_ensures;
                    assert(rest.to_multiset() =~= shorter.to_multiset().insert(moved));
                    assert(placed.insert(moved).add(shorter.to_multiset()) =~= placed.add(
                        rest.to_multiset(),
                    ));
                }
            },
            None => {},
        }
    }
    proof {
        let texts = crate::error::texts(sorted@);
        vstd::seq_lib::to_multiset_len(crate::error::texts(unsorted@));
        assert(crate::error::texts(unsorted@).to_multiset() =~= vstd::multiset::Multiset::empty());
        assert(texts.to_multiset() =~= all.to_multiset());
        text_order_is_total();
        all.lemma_sort_by_ensures(by_text());
        vstd::seq_lib::lemma_sorted_unique(texts, all.sort_by(by_text()), by_text());
    }
    sorted
}

} // verus!
