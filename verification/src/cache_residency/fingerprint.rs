//! Fingerprints of cache-relevant architecture settings.

use vstd::prelude::*;
use vstd::string::{StrSliceExecFns, StringExecFns};

use crate::digest::digest_hex;
use crate::order::text_precedes;

verus! {

/// The order of named settings: by name, then by value.
pub open spec fn field_order(left: (Seq<char>, Seq<char>), right: (Seq<char>, Seq<char>)) -> bool {
    if left.0 != right.0 {
        crate::order::text_order(left.0, right.0)
    } else {
        crate::order::text_order(left.1, right.1)
    }
}

/// The order of named settings as a function.
pub open spec fn by_field() -> spec_fn((Seq<char>, Seq<char>), (Seq<char>, Seq<char>)) -> bool {
    |left: (Seq<char>, Seq<char>), right: (Seq<char>, Seq<char>)| field_order(left, right)
}

/// Named settings are totally ordered.
pub proof fn field_order_is_total()
    ensures
        vstd::relations::total_ordering(by_field()),
{
    let order = by_field();
    assert forall|a: (Seq<char>, Seq<char>)| #[trigger] order(a, a) by {
        crate::order::text_order_is_connected(a.1, a.1);
    }
    assert forall|a: (Seq<char>, Seq<char>), b: (Seq<char>, Seq<char>)| #[trigger]
        order(a, b) && #[trigger] order(b, a) implies a == b by {
        if a.0 != b.0 {
            crate::order::text_order_is_antisymmetric(a.0, b.0);
        } else {
            crate::order::text_order_is_antisymmetric(a.1, b.1);
        }
    }
    assert forall|a: (Seq<char>, Seq<char>), b: (Seq<char>, Seq<char>), c: (Seq<char>, Seq<char>)|
        #[trigger] order(a, b) && #[trigger] order(b, c) implies order(a, c) by {
        if a.0 != b.0 && b.0 != c.0 {
            crate::order::text_order_is_transitive(a.0, b.0, c.0);
            if a.0 == c.0 {
                crate::order::text_order_is_antisymmetric(a.0, b.0);
            }
        } else if a.0 == b.0 && b.0 == c.0 {
            crate::order::text_order_is_transitive(a.1, b.1, c.1);
        }
    }
    assert forall|a: (Seq<char>, Seq<char>), b: (Seq<char>, Seq<char>)| #[trigger]
        order(a, b) || #[trigger] order(b, a) by {
        crate::order::text_order_is_connected(a.0, b.0);
        crate::order::text_order_is_connected(a.1, b.1);
    }
}

/// One hashed component: its length in eight little-endian bytes, then its bytes.
pub open spec fn component(text: Seq<char>) -> Seq<u8> {
    let bytes = vstd::utf8::encode_utf8(text);
    vstd::bytes::spec_u64_to_le_bytes(bytes.len() as u64) + bytes
}

/// The hashed components of named settings, in order.
pub open spec fn field_components(fields: Seq<(Seq<char>, Seq<char>)>) -> Seq<u8>
    decreases fields.len(),
{
    if fields.len() == 0 {
        Seq::empty()
    } else {
        field_components(fields.drop_last()) + component(fields.last().0) + component(
            fields.last().1,
        )
    }
}

/// The named settings as texts.
pub open spec fn field_texts(fields: Seq<(String, String)>) -> Seq<(Seq<char>, Seq<char>)> {
    fields.map_values(|field: (String, String)| (field.0@, field.1@))
}

/// The hashed bytes of an architecture: its family and its named settings in order.
pub open spec fn architecture_bytes(
    model_family: Seq<char>,
    fields: Seq<(Seq<char>, Seq<char>)>,
) -> Seq<u8> {
    component("safemlx-prompt-cache-architecture-v1"@) + component(model_family)
        + field_components(fields.sort_by(by_field()))
}

/// The fingerprint of an architecture: a digest of its family and its named settings in
/// order.
pub open spec fn architecture_fingerprint(
    model_family: Seq<char>,
    fields: Seq<(Seq<char>, Seq<char>)>,
) -> Seq<char> {
    "sha256:"@ + crate::text::hex_of(
        crate::digest::sha256_digest(architecture_bytes(model_family, fields)),
    )
}

/// The order in which settings are named does not change a fingerprint.
pub proof fn fingerprint_ignores_field_order(
    model_family: Seq<char>,
    left: Seq<(Seq<char>, Seq<char>)>,
    right: Seq<(Seq<char>, Seq<char>)>,
)
    requires
        left.to_multiset() == right.to_multiset(),
    ensures
        architecture_fingerprint(model_family, left) == architecture_fingerprint(
            model_family,
            right,
        ),
{
    field_order_is_total();
    left.lemma_sort_by_ensures(by_field());
    right.lemma_sort_by_ensures(by_field());
    vstd::seq_lib::lemma_sorted_unique(
        left.sort_by(by_field()),
        right.sort_by(by_field()),
        by_field(),
    );
}

fn field_precedes(left: &(String, String), right: &(String, String)) -> (ordered: bool)
    ensures
        ordered == field_order((left.0@, left.1@), (right.0@, right.1@)),
{
    if left.0 != right.0 {
        text_precedes(left.0.as_str(), right.0.as_str())
    } else {
        text_precedes(left.1.as_str(), right.1.as_str())
    }
}

/// Inserts a setting where it belongs.
fn insert_field(fields: &mut Vec<(String, String)>, field: (String, String))
    requires
        vstd::relations::sorted_by(field_texts(old(fields)@), by_field()),
    ensures
        vstd::relations::sorted_by(field_texts(final(fields)@), by_field()),
        field_texts(final(fields)@).to_multiset() == field_texts(old(fields)@).to_multiset().insert(
            (field.0@, field.1@),
        ),
{
    let ghost before = fields@;
    let ghost order = by_field();
    let ghost text = (field.0@, field.1@);
    let mut index: usize = 0;
    while index < fields.len() && field_precedes(&fields[index], &field)
        invariant
            index <= fields@.len(),
            fields@ == before,
            text == (field.0@, field.1@),
            order == by_field(),
            forall|i: int| 0 <= i < index ==> order(#[trigger] field_texts(before)[i], text),
        decreases fields@.len() - index,
    {
        assert(field_texts(before)[index as int] == (before[index as int].0@, before[index as int].1@));
        index = index + 1;
    }
    proof {
        field_order_is_total();
        let texts = field_texts(before);
        if index < before.len() {
            let at = texts[index as int];
            assert(at == (before[index as int].0@, before[index as int].1@));
            assert(!order(at, text));
            assert(order(text, at));
            assert forall|i: int| index <= i < texts.len() implies order(
                text,
                #[trigger] texts[i],
            ) by {
                if i > index {
                    assert(order(at, texts[i]));
                }
            }
        }
    }
    fields.insert(index, field);
    proof {
        let texts = field_texts(before);
        let after = field_texts(fields@);
        before.insert_ensures(index as int, field);
        texts.insert_ensures(index as int, text);
        assert(after =~= texts.insert(index as int, text));
        vstd::seq_lib::to_multiset_insert(texts, index as int, text);
        assert forall|i: int, j: int| 0 <= i < j < after.len() implies #[trigger] order(
            after[i],
            after[j],
        ) by {
            let a = if i < index {
                i
            } else {
                i - 1
            };
            let b = if j < index {
                j
            } else {
                j - 1
            };
            if i == index {
                assert(after[j] == texts[b]);
            } else if j == index {
                assert(after[i] == texts[a]);
            } else {
                assert(after[i] == texts[a] && after[j] == texts[b]);
                assert(order(texts[a], texts[b]));
            }
        }
    }
}

fn push_component(bytes: &mut Vec<u8>, text: &str)
    ensures
        final(bytes)@ == old(bytes)@ + component(text@),
{
    let mut encoded = text.as_bytes_vec();
    let mut length = vstd::bytes::u64_to_le_bytes(encoded.len() as u64);
    bytes.append(&mut length);
    bytes.append(&mut encoded);
    assert(bytes@ =~= old(bytes)@ + component(text@));
}

/// Derives the fingerprint of an architecture from its named settings.
pub fn derive_prompt_cache_architecture_fingerprint(
    model_family: &str,
    fields: Vec<(String, String)>,
) -> (fingerprint: String)
    ensures
        fingerprint@ == architecture_fingerprint(model_family@, field_texts(fields@)),
{
    let mut unsorted = fields;
    let mut sorted: Vec<(String, String)> = Vec::new();
    let ghost all = field_texts(fields@);
    assert(field_texts(sorted@) =~= Seq::empty());
    proof {
        vstd::seq_lib::to_multiset_len(field_texts(sorted@));
        assert(field_texts(sorted@).to_multiset() =~= vstd::multiset::Multiset::empty());
    }
    while unsorted.len() > 0
        invariant
            vstd::relations::sorted_by(field_texts(sorted@), by_field()),
            field_texts(sorted@).to_multiset().add(field_texts(unsorted@).to_multiset())
                == all.to_multiset(),
        decreases unsorted@.len(),
    {
        let ghost rest = field_texts(unsorted@);
        let ghost placed = field_texts(sorted@).to_multiset();
        match unsorted.pop() {
            Some(field) => {
                let ghost text = (field.0@, field.1@);
                insert_field(&mut sorted, field);
                proof {
                    let shorter = field_texts(unsorted@);
                    assert(rest =~= shorter.push(text));
                    broadcast use vstd::seq_lib::group_to_multiset_ensures;
                    assert(rest.to_multiset() =~= shorter.to_multiset().insert(text));
                    assert(placed.insert(text).add(shorter.to_multiset()) =~= placed.add(
                        rest.to_multiset(),
                    ));
                }
            },
            None => {},
        }
    }
    proof {
        let texts = field_texts(sorted@);
        vstd::seq_lib::to_multiset_len(field_texts(unsorted@));
        assert(field_texts(unsorted@).to_multiset() =~= vstd::multiset::Multiset::empty());
        assert(texts.to_multiset() =~= all.to_multiset());
        field_order_is_total();
        all.lemma_sort_by_ensures(by_field());
        vstd::seq_lib::lemma_sorted_unique(texts, all.sort_by(by_field()), by_field());
    }
    let ghost texts = field_texts(sorted@);
    let mut bytes: Vec<u8> = Vec::new();
    push_component(&mut bytes, "safemlx-prompt-cache-architecture-v1");
    push_component(&mut bytes, model_family);
    let ghost head = bytes@;
    assert(head =~= component("safemlx-prompt-cache-architecture-v1"@) + component(model_family@));
    let mut index: usize = 0;
    assert(texts.take(0) =~= Seq::empty());
    assert(head =~= head + field_components(texts.take(0)));
    while index < sorted.len()
        invariant
            index <= sorted@.len(),
            texts == field_texts(sorted@),
            bytes@ == head + field_components(texts.take(index as int)),
        decreases sorted@.len() - index,
    {
        push_component(&mut bytes, sorted[index].0.as_str());
        push_component(&mut bytes, sorted[index].1.as_str());
        proof {
            let longer = texts.take(index + 1);
            assert(longer.drop_last() =~= texts.take(index as int));
            assert(longer.last() == (sorted@[index as int].0@, sorted@[index as int].1@));
            assert(bytes@ =~= head + field_components(longer));
        }
        index = index + 1;
    }
    assert(texts.take(index as int) =~= texts);
    let mut fingerprint = "sha256:".to_owned();
    fingerprint.append(digest_hex(bytes.as_slice()).as_str());
    fingerprint
}

/// Whether the texts of settings are short enough to be measured.
pub open spec fn measurable(fields: Seq<(Seq<char>, Seq<char>)>) -> bool {
    forall|i: int|
        0 <= i < fields.len() ==> vstd::utf8::encode_utf8((#[trigger] fields[i]).0).len()
            <= u64::MAX && vstd::utf8::encode_utf8(fields[i].1).len() <= u64::MAX
}

/// What a component says can be read back, and what follows it.
proof fn components_read_back(left: Seq<char>, right: Seq<char>, after: Seq<u8>, behind: Seq<u8>)
    requires
        component(left) + after == component(right) + behind,
        vstd::utf8::encode_utf8(left).len() <= u64::MAX,
        vstd::utf8::encode_utf8(right).len() <= u64::MAX,
    ensures
        left == right,
        after == behind,
{
    vstd::bytes::lemma_auto_spec_u64_to_from_le_bytes();
    let one = vstd::utf8::encode_utf8(left);
    let other = vstd::utf8::encode_utf8(right);
    let first = vstd::bytes::spec_u64_to_le_bytes(one.len() as u64);
    let second = vstd::bytes::spec_u64_to_le_bytes(other.len() as u64);
    let whole = component(left) + after;
    let same = component(right) + behind;
    assert(whole.take(8) =~= first);
    assert(same.take(8) =~= second);
    assert(one.len() == other.len());
    let width = 8 + one.len() as int;
    assert(whole.subrange(8, width) =~= one);
    assert(same.subrange(8, width) =~= other);
    vstd::utf8::encode_utf8_decode_utf8(left);
    vstd::utf8::encode_utf8_decode_utf8(right);
    assert(whole.skip(width) =~= after);
    assert(same.skip(width) =~= behind);
}

proof fn first_field_comes_first(fields: Seq<(Seq<char>, Seq<char>)>)
    requires
        fields.len() > 0,
    ensures
        field_components(fields) == component(fields[0].0) + (component(fields[0].1)
            + field_components(fields.drop_first())),
    decreases fields.len(),
{
    let head = component(fields[0].0) + component(fields[0].1);
    if fields.len() == 1 {
        assert(fields.drop_last() =~= Seq::empty());
        assert(fields.drop_first() =~= Seq::empty());
        assert(field_components(fields) =~= component(fields[0].0) + (component(fields[0].1)
            + field_components(fields.drop_first())));
    } else {
        first_field_comes_first(fields.drop_last());
        assert(fields.drop_last().drop_first() =~= fields.drop_first().drop_last());
        assert(fields.drop_first().last() == fields.last());
        assert(field_components(fields) =~= component(fields[0].0) + (component(fields[0].1)
            + field_components(fields.drop_first())));
    }
}

proof fn fields_read_back(
    left: Seq<(Seq<char>, Seq<char>)>,
    right: Seq<(Seq<char>, Seq<char>)>,
)
    requires
        measurable(left),
        measurable(right),
        field_components(left) == field_components(right),
    ensures
        left == right,
    decreases left.len(),
{
    vstd::bytes::lemma_auto_spec_u64_to_from_le_bytes();
    if left.len() > 0 {
        first_field_comes_first(left);
    }
    if right.len() > 0 {
        first_field_comes_first(right);
    }
    if left.len() == 0 || right.len() == 0 {
        if left.len() > 0 {
            assert(vstd::bytes::spec_u64_to_le_bytes(
                vstd::utf8::encode_utf8(left[0].0).len() as u64,
            ).len() == 8);
            assert(field_components(left).len() > 0);
            assert(field_components(right).len() == 0);
        }
        if right.len() > 0 {
            assert(vstd::bytes::spec_u64_to_le_bytes(
                vstd::utf8::encode_utf8(right[0].0).len() as u64,
            ).len() == 8);
            assert(field_components(right).len() > 0);
            assert(field_components(left).len() == 0);
        }
        assert(left =~= right);
    } else {
        components_read_back(
            left[0].0,
            right[0].0,
            component(left[0].1) + field_components(left.drop_first()),
            component(right[0].1) + field_components(right.drop_first()),
        );
        components_read_back(
            left[0].1,
            right[0].1,
            field_components(left.drop_first()),
            field_components(right.drop_first()),
        );
        assert forall|i: int| 0 <= i < left.drop_first().len() implies
            vstd::utf8::encode_utf8((#[trigger] left.drop_first()[i]).0).len() <= u64::MAX
            && vstd::utf8::encode_utf8(left.drop_first()[i].1).len() <= u64::MAX by {
            assert(left.drop_first()[i] == left[i + 1]);
        }
        assert forall|i: int| 0 <= i < right.drop_first().len() implies
            vstd::utf8::encode_utf8((#[trigger] right.drop_first()[i]).0).len() <= u64::MAX
            && vstd::utf8::encode_utf8(right.drop_first()[i].1).len() <= u64::MAX by {
            assert(right.drop_first()[i] == right[i + 1]);
        }
        fields_read_back(left.drop_first(), right.drop_first());
        assert(left =~= right) by {
            assert forall|i: int| 0 <= i < left.len() implies left[i] == right[i] by {
                if i > 0 {
                    assert(left[i] == left.drop_first()[i - 1]);
                    assert(right[i] == right.drop_first()[i - 1]);
                }
            }
        }
    }
}

/// Different architectures are hashed differently: from the hashed bytes the family and
/// every setting, name and value, can be read back.
pub proof fn hashed_architectures_differ(
    family: Seq<char>,
    fields: Seq<(Seq<char>, Seq<char>)>,
    other_family: Seq<char>,
    other_fields: Seq<(Seq<char>, Seq<char>)>,
)
    requires
        vstd::utf8::encode_utf8(family).len() <= u64::MAX,
        vstd::utf8::encode_utf8(other_family).len() <= u64::MAX,
        measurable(fields),
        measurable(other_fields),
        architecture_bytes(family, fields) == architecture_bytes(other_family, other_fields),
    ensures
        family == other_family,
        fields.to_multiset() == other_fields.to_multiset(),
{
    let mark = component("safemlx-prompt-cache-architecture-v1"@);
    let sorted = fields.sort_by(by_field());
    let other = other_fields.sort_by(by_field());
    field_order_is_total();
    fields.lemma_sort_by_ensures(by_field());
    other_fields.lemma_sort_by_ensures(by_field());
    let one = architecture_bytes(family, fields);
    assert(one.skip(mark.len() as int) =~= component(family) + field_components(sorted));
    assert(architecture_bytes(other_family, other_fields).skip(mark.len() as int) =~= component(
        other_family,
    ) + field_components(other));
    components_read_back(family, other_family, field_components(sorted), field_components(other));
    sorting_keeps_measurable(fields);
    sorting_keeps_measurable(other_fields);
    fields_read_back(sorted, other);
}

proof fn sorting_keeps_measurable(fields: Seq<(Seq<char>, Seq<char>)>)
    requires
        measurable(fields),
    ensures
        measurable(fields.sort_by(by_field())),
{
    broadcast use vstd::seq_lib::group_to_multiset_ensures;

    field_order_is_total();
    fields.lemma_sort_by_ensures(by_field());
    let sorted = fields.sort_by(by_field());
    assert forall|i: int| 0 <= i < sorted.len() implies vstd::utf8::encode_utf8(
        (#[trigger] sorted[i]).0,
    ).len() <= u64::MAX && vstd::utf8::encode_utf8(sorted[i].1).len() <= u64::MAX by {
        assert(sorted.contains(sorted[i]));
        assert(sorted.to_multiset().count(sorted[i]) > 0);
        assert(fields.to_multiset().count(sorted[i]) > 0);
        assert(fields.contains(sorted[i]));
        let j = choose|j: int| 0 <= j < fields.len() && fields[j] == sorted[i];
        assert(fields[j] == sorted[i]);
    }
}

} // verus!
