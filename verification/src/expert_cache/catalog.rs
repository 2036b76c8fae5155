//! Identities and the ordered catalog of owned experts.

use vstd::prelude::*;
use vstd::string::StringExecFns;

use crate::expert_cache::error::{ExpertCacheError, ExpertCacheFailure};
use crate::offload::{LayerwiseLoadOptions, OffloadConfig, OffloadUnit, OffloadUnitId};
use crate::text::{padded_text, usize_text};

verus! {

/// Stable architecture-neutral identity for one layer-local global expert.
#[derive(Debug, Clone, Copy, PartialEq, Eq, Hash, PartialOrd, Ord, Structural)]
pub struct ExpertIdentity {
    /// Zero-based decoder layer identity.
    pub layer: usize,
    /// Global expert identity from the model router.
    pub global_expert: usize,
}

/// The residency unit of an expert.
pub open spec fn expert_unit(identity: ExpertIdentity) -> Seq<char> {
    "expert.layer."@ + crate::text::zero_padded(crate::text::decimal(identity.layer as nat), 5)
        + ".global."@ + crate::text::zero_padded(
        crate::text::decimal(identity.global_expert as nat),
        5,
    )
}

/// The order of experts: by layer, then by global id.
pub open spec fn expert_before(left: ExpertIdentity, right: ExpertIdentity) -> bool {
    left.layer < right.layer || (left.layer == right.layer && left.global_expert
        < right.global_expert)
}

impl ExpertIdentity {
    /// Creates one logical expert identity.
    pub fn new(layer: usize, global_expert: usize) -> (identity: Self)
        ensures
            identity == (ExpertIdentity { layer, global_expert }),
    {
        ExpertIdentity { layer, global_expert }
    }

    /// Returns the deterministic residency unit identifier.
    pub fn unit_id(self) -> (id: OffloadUnitId)
        ensures
            id@ == expert_unit(self),
    {
        let mut id = "expert.layer.".to_owned();
        id.append(padded_text(usize_text(self.layer).as_str(), 5).as_str());
        id.append(".global.");
        id.append(padded_text(usize_text(self.global_expert).as_str(), 5).as_str());
        OffloadUnitId { id }
    }

    /// Compares two experts in catalog order.
    pub fn precedes(&self, other: &Self) -> (before: bool)
        ensures
            before == expert_before(*self, *other),
    {
        self.layer < other.layer || (self.layer == other.layer && self.global_expert
            < other.global_expert)
    }
}

/// Public controls for sparse routed-expert residency.
#[derive(Debug, Clone, Copy, PartialEq, Eq, Structural)]
pub struct ExpertCacheLoadOptions {
    /// Residency controls for router, attention, normalization, and dense weights.
    pub non_expert: LayerwiseLoadOptions,
    /// Independent host/device budgets and eviction policy for expert units.
    pub experts: OffloadConfig,
    /// Maximum materialized temporary compact-bank bytes for one routed block.
    pub compact_bank_scratch_bytes: u64,
}

impl ExpertCacheLoadOptions {
    /// Creates strict sparse expert caching options.
    pub fn new(
        non_expert: LayerwiseLoadOptions,
        experts: OffloadConfig,
        compact_bank_scratch_bytes: u64,
    ) -> (outcome: Result<Self, ExpertCacheError>)
        ensures
            crate::expert_cache::error::refused(outcome) == (if compact_bank_scratch_bytes == 0 {
                Some(ExpertCacheFailure::ZeroScratchLimit)
            } else {
                None
            }),
            outcome matches Ok(options) ==> options == (ExpertCacheLoadOptions {
                non_expert,
                experts,
                compact_bank_scratch_bytes,
            }),
    {
        if compact_bank_scratch_bytes == 0 {
            return Err(ExpertCacheError::ZeroScratchLimit);
        }
        Ok(ExpertCacheLoadOptions { non_expert, experts, compact_bank_scratch_bytes })
    }
}

/// Public execution-path classification for independent cache statistics.
#[derive(Debug, Clone, Copy, PartialEq, Eq, Hash, PartialOrd, Ord, Structural)]
pub enum ExpertPass {
    /// Prompt processing with more than one input token.
    Prefill,
    /// Autoregressive processing of one input token.
    Decode,
}

/// One atomic expert definition supplied by an architecture adapter.
#[derive(Debug, Clone)]
pub struct ExpertCatalogEntry {
    identity: ExpertIdentity,
    unit: OffloadUnit,
    bytes: u64,
}

impl ExpertCatalogEntry {
    /// The logical identity.
    pub closed spec fn expert(self) -> ExpertIdentity {
        self.identity
    }

    /// The atomic materialized byte length.
    pub closed spec fn size(self) -> u64 {
        self.bytes
    }

    /// The residency unit.
    pub closed spec fn residency_unit(self) -> OffloadUnit {
        self.unit
    }

    /// Creates one catalog entry and verifies its stable unit identity.
    pub fn new(identity: ExpertIdentity, unit: OffloadUnit, bytes: u64) -> (outcome: Result<
        Self,
        ExpertCacheError,
    >)
        ensures
            crate::expert_cache::error::refused(outcome) == (if bytes == 0 {
                Some(ExpertCacheFailure::ZeroSizedExpert(identity))
            } else if unit.id@ != expert_unit(identity) {
                Some(
                    ExpertCacheFailure::UnitIdentityMismatch(
                        identity,
                        expert_unit(identity),
                        unit.id@,
                    ),
                )
            } else {
                None
            }),
            outcome matches Ok(entry) ==> entry.expert() == identity && entry.size() == bytes
                && entry.residency_unit() == unit,
    {
        if bytes == 0 {
            return Err(ExpertCacheError::ZeroSizedExpert { identity });
        }
        let expected = identity.unit_id();
        if unit.id.id != expected.id {
            return Err(
                ExpertCacheError::UnitIdentityMismatch {
                    identity,
                    expected: expected.id,
                    actual: unit.id.id.clone(),
                },
            );
        }
        Ok(ExpertCatalogEntry { identity, unit, bytes })
    }

    /// Returns the logical identity.
    pub fn identity(&self) -> (identity: ExpertIdentity)
        ensures
            identity == self.expert(),
    {
        self.identity
    }

    /// Returns the atomic materialized byte length.
    pub fn bytes(&self) -> (bytes: u64)
        ensures
            bytes == self.size(),
    {
        self.bytes
    }

    /// Returns the residency unit.
    pub fn unit(&self) -> (unit: &OffloadUnit)
        ensures
            *unit == self.residency_unit(),
    {
        &self.unit
    }
}

/// One owned expert and its size.
#[derive(Debug, Clone, Copy, PartialEq, Eq, Structural)]
pub struct OwnedExpert {
    /// Logical identity.
    pub identity: ExpertIdentity,
    /// Materialized byte length.
    pub bytes: u64,
}

/// Owned experts are in strict order, so none occurs twice.
pub open spec fn experts_ordered(catalog: Seq<OwnedExpert>) -> bool {
    forall|i: int, j: int|
        0 <= i < j < catalog.len() ==> expert_before(
            (#[trigger] catalog[i]).identity,
            (#[trigger] catalog[j]).identity,
        )
}

/// Whether a catalog lists an expert.
pub open spec fn owns(catalog: Seq<OwnedExpert>, identity: ExpertIdentity) -> bool {
    exists|i: int| 0 <= i < catalog.len() && (#[trigger] catalog[i]).identity == identity
}

/// Whether an earlier entry defines the expert of the entry at a position.
pub open spec fn defined_before(entries: Seq<ExpertCatalogEntry>, index: int) -> bool {
    exists|i: int| 0 <= i < index && (#[trigger] entries[i]).expert() == entries[index].expert()
}

/// The first entry that defines an expert again.
pub open spec fn first_duplicate(entries: Seq<ExpertCatalogEntry>, from: int) -> Option<
    ExpertIdentity,
>
    decreases entries.len() - from,
{
    if from >= entries.len() {
        None
    } else if defined_before(entries, from) {
        Some(entries[from].expert())
    } else {
        first_duplicate(entries, from + 1)
    }
}

/// Whether a catalog lists exactly the experts of the first entries, with their sizes.
pub open spec fn lists_entries(
    catalog: Seq<OwnedExpert>,
    entries: Seq<ExpertCatalogEntry>,
    count: int,
) -> bool {
    &&& catalog.len() == count
    &&& forall|i: int| 0 <= i < count ==> #[trigger] lists_entry(catalog, entries[i])
    &&& forall|i: int| 0 <= i < count ==> #[trigger] defined_by(entries, count, catalog[i].identity)
}

/// Whether a catalog lists the expert of an entry with its size.
pub open spec fn lists_entry(catalog: Seq<OwnedExpert>, entry: ExpertCatalogEntry) -> bool {
    exists|i: int|
        0 <= i < catalog.len() && (#[trigger] catalog[i]) == (OwnedExpert {
            identity: entry.expert(),
            bytes: entry.size(),
        })
}

/// Whether one of the first entries defines an expert.
pub open spec fn defined_by(
    entries: Seq<ExpertCatalogEntry>,
    count: int,
    identity: ExpertIdentity,
) -> bool {
    exists|i: int| 0 <= i < count && (#[trigger] entries[i]).expert() == identity
}

/// Why experts cannot be cataloged, if they cannot.
pub open spec fn catalog_failure(entries: Seq<ExpertCatalogEntry>, scratch_bytes: u64) -> Option<
    ExpertCacheFailure,
> {
    if scratch_bytes == 0 {
        Some(ExpertCacheFailure::ZeroScratchLimit)
    } else {
        match first_duplicate(entries, 0) {
            Some(identity) => Some(ExpertCacheFailure::DuplicateExpert(identity)),
            None => if entries.len() == 0 {
                Some(ExpertCacheFailure::EmptyCatalog)
            } else {
                None
            },
        }
    }
}

/// Catalogs exactly the supplied experts, in order.
pub fn catalog_experts(
    entries: &Vec<ExpertCatalogEntry>,
    options: &ExpertCacheLoadOptions,
) -> (outcome: Result<Vec<OwnedExpert>, ExpertCacheError>)
    ensures
        crate::expert_cache::error::refused(outcome) == catalog_failure(
            entries@,
            options.compact_bank_scratch_bytes,
        ),
        outcome matches Ok(catalog) ==> experts_ordered(catalog@) && lists_entries(
            catalog@,
            entries@,
            entries@.len() as int,
        ),
{
    if options.compact_bank_scratch_bytes == 0 {
        return Err(ExpertCacheError::ZeroScratchLimit);
    }
    let mut catalog: Vec<OwnedExpert> = Vec::new();
    let mut index: usize = 0;
    while index < entries.len()
        invariant
            index <= entries@.len(),
            options.compact_bank_scratch_bytes != 0,
            experts_ordered(catalog@),
            lists_entries(catalog@, entries@, index as int),
            first_duplicate(entries@, 0) == first_duplicate(entries@, index as int),
        decreases entries@.len() - index,
    {
        let identity = entries[index].identity();
        let bytes: u64 = entries[index].bytes();
        let mut position: usize = 0;
        while position < catalog.len() && catalog[position].identity.precedes(&identity)
            invariant
                position <= catalog@.len(),
                forall|i: int|
                    0 <= i < position ==> expert_before((#[trigger] catalog@[i]).identity, identity),
            decreases catalog@.len() - position,
        {
            position = position + 1;
        }
        if position < catalog.len() && catalog[position].identity == identity {
            proof {
                assert(defined_by(entries@, index as int, catalog@[position as int].identity));
                assert(defined_before(entries@, index as int));
            }
            return Err(ExpertCacheError::DuplicateExpert { identity });
        }
        let ghost before = catalog@;
        let expert = OwnedExpert { identity, bytes };
        catalog.insert(position, expert);
        proof {
            insertion_extends(before, position as int, expert, entries@, index as int);
        }
        index = index + 1;
    }
    if catalog.len() == 0 {
        return Err(ExpertCacheError::EmptyCatalog);
    }
    Ok(catalog)
}

proof fn insertion_extends(
    before: Seq<OwnedExpert>,
    position: int,
    expert: OwnedExpert,
    entries: Seq<ExpertCatalogEntry>,
    count: int,
)
    requires
        0 <= count < entries.len(),
        0 <= position <= before.len(),
        experts_ordered(before),
        lists_entries(before, entries, count),
        expert == (OwnedExpert {
            identity: entries[count].expert(),
            bytes: entries[count].size(),
        }),
        forall|i: int|
            0 <= i < position ==> expert_before((#[trigger] before[i]).identity, expert.identity),
        position < before.len() ==> !expert_before(before[position].identity, expert.identity)
            && before[position].identity != expert.identity,
    ensures
        experts_ordered(before.insert(position, expert)),
        lists_entries(before.insert(position, expert), entries, count + 1),
        !defined_before(entries, count),
{
    let after = before.insert(position, expert);
    before.insert_ensures(position, expert);
    assert forall|i: int| position <= i < before.len() implies expert_before(
        expert.identity,
        (#[trigger] before[i]).identity,
    ) by {
        if i > position {
            assert(expert_before(before[position].identity, before[i].identity));
        }
    }
    let source = |i: int|
        if i < position {
            i
        } else {
            i - 1
        };
    assert forall|i: int, j: int| 0 <= i < j < after.len() implies expert_before(
        (#[trigger] after[i]).identity,
        (#[trigger] after[j]).identity,
    ) by {
        if i == position {
            assert(after[j] == before[source(j)]);
        } else if j == position {
            assert(after[i] == before[source(i)]);
        } else {
            assert(after[i] == before[source(i)] && after[j] == before[source(j)]);
        }
    }
    assert forall|i: int| 0 <= i < count + 1 implies #[trigger] lists_entry(after, entries[i]) by {
        if i == count {
            assert(after[position] == expert);
        } else {
            assert(lists_entry(before, entries[i]));
            let j = choose|j: int|
                0 <= j < before.len() && (#[trigger] before[j]) == (OwnedExpert {
                    identity: entries[i].expert(),
                    bytes: entries[i].size(),
                });
            let place = if j < position {
                j
            } else {
                j + 1
            };
            assert(after[place] == before[j]);
        }
    }
    assert forall|i: int| 0 <= i < count + 1 implies #[trigger] defined_by(
        entries,
        count + 1,
        after[i].identity,
    ) by {
        if i == position {
            assert(entries[count].expert() == after[i].identity);
        } else {
            assert(after[i] == before[source(i)]);
            assert(defined_by(entries, count, before[source(i)].identity));
            let j = choose|j: int|
                0 <= j < count && (#[trigger] entries[j]).expert() == before[source(i)].identity;
            assert(entries[j].expert() == after[i].identity);
        }
    }
    if defined_before(entries, count) {
        let i = choose|i: int|
            0 <= i < count && (#[trigger] entries[i]).expert() == entries[count].expert();
        assert(lists_entry(before, entries[i]));
        let j = choose|j: int|
            0 <= j < before.len() && (#[trigger] before[j]) == (OwnedExpert {
                identity: entries[i].expert(),
                bytes: entries[i].size(),
            });
        assert(before[j].identity == expert.identity);
    }
}

/// Every expert has a residency unit of its own: two experts have one unit only where
/// they are the same expert.
pub proof fn expert_units_differ(left: ExpertIdentity, right: ExpertIdentity)
    ensures
        expert_unit(left) == expert_unit(right) <==> left == right,
{
    if expert_unit(left) == expert_unit(right) {
        equal_units_are_one(left, right);
    }
}

proof fn equal_units_are_one(left: ExpertIdentity, right: ExpertIdentity)
    requires
        expert_unit(left) == expert_unit(right),
    ensures
        left == right,
{
    let head = "expert.layer."@.len() as int;
    let mark = ".global."@;
    let a = crate::text::zero_padded(crate::text::decimal(left.layer as nat), 5);
    let b = crate::text::zero_padded(crate::text::decimal(right.layer as nat), 5);
    let c = crate::text::zero_padded(crate::text::decimal(left.global_expert as nat), 5);
    let d = crate::text::zero_padded(crate::text::decimal(right.global_expert as nat), 5);
    reveal_strlit(".global.");
    crate::text::padded_numerals_are_digits(left.layer as nat, 5);
    crate::text::padded_numerals_are_digits(right.layer as nat, 5);
    let first = a + mark + c;
    let second = b + mark + d;
    assert(expert_unit(left).skip(head) =~= first);
    assert(expert_unit(right).skip(head) =~= second);
    assert(first == second);
    if a.len() < b.len() {
        assert(first[a.len() as int] == mark[0]);
        assert(second[a.len() as int] == b[a.len() as int]);
        assert(crate::text::is_digit(b[a.len() as int]));
        assert(false);
    }
    if b.len() < a.len() {
        assert(second[b.len() as int] == mark[0]);
        assert(first[b.len() as int] == a[b.len() as int]);
        assert(crate::text::is_digit(a[b.len() as int]));
        assert(false);
    }
    assert(a =~= first.take(a.len() as int));
    assert(b =~= second.take(b.len() as int));
    assert(c =~= first.skip((a.len() + mark.len()) as int));
    assert(d =~= second.skip((b.len() + mark.len()) as int));
    crate::text::padded_numerals_differ(left.layer as nat, right.layer as nat, 5);
    crate::text::padded_numerals_differ(
        left.global_expert as nat,
        right.global_expert as nat,
        5,
    );
}

proof fn units_follow_experts(left: ExpertIdentity, right: ExpertIdentity)
    requires
        left.layer < 100000,
        left.global_expert < 100000,
        right.layer < 100000,
        right.global_expert < 100000,
        expert_before(left, right),
    ensures
        crate::order::text_before(expert_unit(left), expert_unit(right)),
{
    let head = "expert.layer."@;
    let mark = ".global."@;
    let a = crate::text::zero_padded(crate::text::decimal(left.layer as nat), 5);
    let b = crate::text::zero_padded(crate::text::decimal(right.layer as nat), 5);
    let c = crate::text::zero_padded(crate::text::decimal(left.global_expert as nat), 5);
    let d = crate::text::zero_padded(crate::text::decimal(right.global_expert as nat), 5);
    padded_field(left.layer);
    padded_field(right.layer);
    padded_field(left.global_expert);
    padded_field(right.global_expert);
    let first = a + (mark + c);
    let second = b + (mark + d);
    assert(expert_unit(left) =~= head + first);
    assert(expert_unit(right) =~= head + second);
    crate::order::common_start_keeps_order(head, first, second);
    crate::order::equal_widths_order_as_numbers(a, b);
    if left.layer < right.layer {
        crate::order::starts_decide(a, b, mark + c, mark + d);
    } else {
        assert(a == b);
        crate::order::common_start_keeps_order(a, mark + c, mark + d);
        crate::order::common_start_keeps_order(mark, c, d);
        crate::order::equal_widths_order_as_numbers(c, d);
    }
    if expert_unit(left) == expert_unit(right) {
        expert_units_differ(left, right);
    }
}

proof fn padded_field(value: usize)
    requires
        value < 100000,
    ensures
        ({
            let text = crate::text::zero_padded(crate::text::decimal(value as nat), 5);
            &&& text.len() == 5
            &&& crate::text::all_digits(text)
            &&& crate::text::digits_value(text) == value
        }),
{
    crate::text::decimal_denotes(value as nat);
    crate::text::padding_keeps_value(crate::text::decimal(value as nat), 5);
    crate::text::padded_numerals_are_digits(value as nat, 5);
    crate::text::short_numerals_fill_five(value as nat);
}

/// While layers and experts have at most five digits, residency units are ordered as
/// their experts are.
pub proof fn units_are_ordered_as_experts(left: ExpertIdentity, right: ExpertIdentity)
    requires
        left.layer < 100000,
        left.global_expert < 100000,
        right.layer < 100000,
        right.global_expert < 100000,
    ensures
        expert_before(left, right) <==> crate::order::text_before(
            expert_unit(left),
            expert_unit(right),
        ),
{
    if expert_before(left, right) {
        units_follow_experts(left, right);
    } else if left != right {
        units_follow_experts(right, left);
        if crate::order::text_order(expert_unit(left), expert_unit(right)) {
            crate::order::text_order_is_antisymmetric(expert_unit(left), expert_unit(right));
        }
    }
}

/// Experts are cataloged exactly where there is scratch space, there is an expert, and
/// none is defined twice.
pub proof fn cataloged_experts_are_distinct(entries: Seq<ExpertCatalogEntry>, scratch_bytes: u64)
    ensures
        catalog_failure(entries, scratch_bytes) is None <==> {
            &&& scratch_bytes > 0
            &&& entries.len() > 0
            &&& forall|i: int, j: int|
                0 <= i < j < entries.len() ==> (#[trigger] entries[i]).expert() != (
                #[trigger] entries[j]).expert()
        },
{
    duplicates_are_found(entries, 0);
}

proof fn duplicates_are_found(entries: Seq<ExpertCatalogEntry>, from: int)
    requires
        0 <= from,
    ensures
        first_duplicate(entries, from) is None <==> forall|i: int, j: int|
            from <= j < entries.len() && 0 <= i < j ==> (#[trigger] entries[i]).expert() != (
            #[trigger] entries[j]).expert(),
    decreases entries.len() - from,
{
    if from < entries.len() {
        duplicates_are_found(entries, from + 1);
        if defined_before(entries, from) {
            let i = choose|i: int|
                0 <= i < from && (#[trigger] entries[i]).expert() == entries[from].expert();
            assert(entries[i].expert() == entries[from].expert());
        }
    }
}

/// A catalog of entries lists each entry with its size and nothing else, so that it can
/// be searched for what was defined.
pub proof fn catalogs_list_what_was_defined(
    catalog: Seq<OwnedExpert>,
    entries: Seq<ExpertCatalogEntry>,
    i: int,
    at: int,
)
    requires
        experts_ordered(catalog),
        lists_entries(catalog, entries, entries.len() as int),
        0 <= i < entries.len(),
        0 <= at < catalog.len(),
    ensures
        catalog.len() == entries.len(),
        owns(catalog, entries[i].expert()),
        catalog[at].identity == entries[i].expert() ==> catalog[at].bytes == entries[i].size(),
        exists|e: int| 0 <= e < entries.len() && (#[trigger] entries[e]).expert() == catalog[at].identity,
{
    assert(lists_entry(catalog, entries[i]));
    let k = choose|k: int|
        0 <= k < catalog.len() && (#[trigger] catalog[k]) == (OwnedExpert {
            identity: entries[i].expert(),
            bytes: entries[i].size(),
        });
    assert(catalog[k].identity == entries[i].expert());
    if catalog[at].identity == entries[i].expert() && at != k {
        if at < k {
            assert(expert_before(catalog[at].identity, catalog[k].identity));
        } else {
            assert(expert_before(catalog[k].identity, catalog[at].identity));
        }
    }
    assert(defined_by(entries, entries.len() as int, catalog[at].identity));
}

} // verus!
