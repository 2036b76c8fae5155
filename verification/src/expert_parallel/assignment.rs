//! Ownership of global experts by ranks.

use vstd::prelude::*;
use vstd::string::StringExecFns;

use crate::error::{Error, Failure};
use crate::text::{sizes_text, usize_text};

verus! {

/// Policy used to assign global routed experts to ranks.
#[derive(Debug, Clone, PartialEq, Eq)]
pub enum ExpertAssignmentPolicy {
    /// Balanced contiguous ranges, with lower ranks receiving any remainder.
    BalancedContiguous,
    /// Expert `e` is owned by rank `e % group_size`.
    RoundRobin,
    /// Explicit global-expert-to-owner-rank table.
    Explicit(Vec<usize>),
}

/// The mathematical value of an [`ExpertAssignmentPolicy`].
pub enum AssignmentRule {
    BalancedContiguous,
    RoundRobin,
    Explicit(Seq<usize>),
}

impl View for ExpertAssignmentPolicy {
    type V = AssignmentRule;

    open spec fn view(&self) -> AssignmentRule {
        match *self {
            ExpertAssignmentPolicy::BalancedContiguous => AssignmentRule::BalancedContiguous,
            ExpertAssignmentPolicy::RoundRobin => AssignmentRule::RoundRobin,
            ExpertAssignmentPolicy::Explicit(owners) => AssignmentRule::Explicit(owners@),
        }
    }
}

/// Validated bidirectional mapping between checkpoint-global and owner-local ids.
#[derive(Debug, PartialEq, Eq)]
pub struct ExpertAssignment {
    group_size: usize,
    rank: usize,
    policy: ExpertAssignmentPolicy,
    owners: Vec<usize>,
    owner_local: Vec<usize>,
    local_global: Vec<usize>,
}

/// The mathematical value of an [`ExpertAssignment`]: who owns each global expert.
pub struct Ownership {
    pub owners: Seq<usize>,
    pub group_size: usize,
    pub rank: usize,
    pub policy: AssignmentRule,
}

/// How many of the first `count` experts a rank owns: the owner-local id that its next
/// expert gets.
pub open spec fn owned_before(owners: Seq<usize>, rank: usize, count: int) -> int
    decreases count,
{
    if count <= 0 {
        0
    } else {
        owned_before(owners, rank, count - 1) + if owners[count - 1] == rank {
            1int
        } else {
            0int
        }
    }
}

/// The global experts among the first `count` that a rank owns, in order.
pub open spec fn owned_experts(owners: Seq<usize>, rank: usize, count: int) -> Seq<usize>
    decreases count,
{
    if count <= 0 {
        Seq::empty()
    } else if owners[count - 1] == rank {
        owned_experts(owners, rank, count - 1).push((count - 1) as usize)
    } else {
        owned_experts(owners, rank, count - 1)
    }
}

/// How many experts each rank owns.
pub open spec fn rank_counts(owners: Seq<usize>, group_size: usize) -> Seq<usize> {
    Seq::new(
        group_size as nat,
        |rank: int| owned_before(owners, rank as usize, owners.len() as int) as usize,
    )
}

impl Ownership {
    /// Every expert is owned by a rank of the group, and ids fit the array runtime.
    pub open spec fn valid(self) -> bool {
        &&& self.rank < self.group_size
        &&& 0 < self.owners.len() <= i32::MAX
        &&& forall|i: int| 0 <= i < self.owners.len() ==> #[trigger] self.owners[i] < self.group_size
    }

    /// The owner-local id of a global expert.
    pub open spec fn local_id(self, global: int) -> int {
        owned_before(self.owners, self.owners[global], global)
    }

    /// The global experts that this rank owns, in owner-local order.
    pub open spec fn local_experts(self) -> Seq<usize> {
        owned_experts(self.owners, self.rank, self.owners.len() as int)
    }
}

impl View for ExpertAssignment {
    type V = Ownership;

    closed spec fn view(&self) -> Ownership {
        Ownership {
            owners: self.owners@,
            group_size: self.group_size,
            rank: self.rank,
            policy: self.policy@,
        }
    }
}

/// A parallel placement failure.
pub open spec fn parallel(text: Seq<char>) -> Option<Failure> {
    Some(Failure::Parallel(text))
}

/// Why the dimensions of an assignment are refused, if they are.
pub open spec fn dimensions_failure(
    global_experts: int,
    group_size: usize,
    rank: usize,
    allow_empty: bool,
) -> Option<Failure> {
    if global_experts == 0 || group_size == 0 {
        parallel("expert count and EP size must be nonzero"@)
    } else if rank >= group_size {
        parallel(
            "EP rank "@ + crate::text::decimal(rank as nat) + " is outside size "@
                + crate::text::decimal(group_size as nat),
        )
    } else if !allow_empty && global_experts < group_size {
        parallel(
            "cannot assign "@ + crate::text::decimal(global_experts as nat) + " experts to "@
                + crate::text::decimal(group_size as nat) + " non-empty ranks"@,
        )
    } else {
        None
    }
}

/// Position of the first expert whose owner is no rank of the group.
pub open spec fn first_stray(owners: Seq<usize>, group_size: usize, from: int) -> Option<int>
    decreases owners.len() - from,
{
    if from >= owners.len() {
        None
    } else if owners[from] >= group_size {
        Some(from)
    } else {
        first_stray(owners, group_size, from + 1)
    }
}

/// Whether some rank of the group owns no expert.
pub open spec fn leaves_rank_empty(owners: Seq<usize>, group_size: usize) -> bool {
    exists|rank: int|
        0 <= rank < group_size && #[trigger] owned_before(
            owners,
            rank as usize,
            owners.len() as int,
        ) == 0
}

/// Why an ownership table is refused, if it is.
pub open spec fn ownership_failure(
    owners: Seq<usize>,
    group_size: usize,
    rank: usize,
    allow_empty: bool,
) -> Option<Failure> {
    let dimensions = dimensions_failure(owners.len() as int, group_size, rank, allow_empty);
    let stray = first_stray(owners, group_size, 0);
    if dimensions is Some {
        dimensions
    } else if stray is Some {
        parallel(
            "global expert "@ + crate::text::decimal(stray->Some_0 as nat)
                + " has invalid owner rank "@ + crate::text::decimal(
                owners[stray->Some_0] as nat,
            ) + " for EP size "@ + crate::text::decimal(group_size as nat),
        )
    } else if !allow_empty && leaves_rank_empty(owners, group_size) {
        parallel(
            "expert assignment creates an empty rank: counts "@ + crate::text::listed_sizes(
                rank_counts(owners, group_size),
            ),
        )
    } else if owners.len() > i32::MAX {
        parallel("expert assignment exceeds MLX i32 indexing limits"@)
    } else {
        None
    }
}

proof fn owned_is_bounded(owners: Seq<usize>, rank: usize, count: int)
    requires
        0 <= count,
    ensures
        0 <= owned_before(owners, rank, count) <= count,
        owned_experts(owners, rank, count).len() == owned_before(owners, rank, count),
    decreases count,
{
    if count > 0 {
        owned_is_bounded(owners, rank, count - 1);
    }
}

proof fn no_stray(owners: Seq<usize>, group_size: usize, from: int)
    requires
        0 <= from,
        first_stray(owners, group_size, from) is None,
    ensures
        forall|i: int| from <= i < owners.len() ==> #[trigger] owners[i] < group_size,
    decreases owners.len() - from,
{
    if from < owners.len() {
        no_stray(owners, group_size, from + 1);
    }
}

proof fn within_group(owners: Seq<usize>, group_size: usize, from: int)
    requires
        0 <= from,
        forall|i: int| 0 <= i < owners.len() ==> #[trigger] owners[i] < group_size,
    ensures
        first_stray(owners, group_size, from) is None,
    decreases owners.len() - from,
{
    if from < owners.len() {
        within_group(owners, group_size, from + 1);
    }
}

fn validate_dimensions(
    global_experts: usize,
    group_size: usize,
    rank: usize,
    allow_empty: bool,
) -> (outcome: Result<(), Error>)
    ensures
        crate::error::failed(outcome) == dimensions_failure(
            global_experts as int,
            group_size,
            rank,
            allow_empty,
        ),
{
    if global_experts == 0 || group_size == 0 {
        return Err(Error::Parallel("expert count and EP size must be nonzero".to_owned()));
    }
    if rank >= group_size {
        let mut text = "EP rank ".to_owned();
        text.append(usize_text(rank).as_str());
        text.append(" is outside size ");
        text.append(usize_text(group_size).as_str());
        return Err(Error::Parallel(text));
    }
    if !allow_empty && global_experts < group_size {
        let mut text = "cannot assign ".to_owned();
        text.append(usize_text(global_experts).as_str());
        text.append(" experts to ");
        text.append(usize_text(group_size).as_str());
        text.append(" non-empty ranks");
        return Err(Error::Parallel(text));
    }
    Ok(())
}

fn find_stray(owners: &Vec<usize>, group_size: usize) -> (stray: Option<usize>)
    ensures
        match stray {
            Some(i) => i < owners@.len() && first_stray(owners@, group_size, 0) == Some(i as int),
            None => first_stray(owners@, group_size, 0) is None,
        },
{
    let mut index: usize = 0;
    while index < owners.len()
        invariant
            index <= owners@.len(),
            first_stray(owners@, group_size, 0) == first_stray(owners@, group_size, index as int),
        decreases owners@.len() - index,
    {
        if owners[index] >= group_size {
            return Some(index);
        }
        index = index + 1;
    }
    None
}

/// Copies a table of ranks.
pub fn copy_sizes(values: &Vec<usize>) -> (copy: Vec<usize>)
    ensures
        copy@ == values@,
{
    let mut copy: Vec<usize> = Vec::new();
    let mut index: usize = 0;
    while index < values.len()
        invariant
            index <= values@.len(),
            copy@ == values@.take(index as int),
        decreases values@.len() - index,
    {
        copy.push(values[index]);
        index = index + 1;
        assert(copy@ =~= values@.take(index as int));
    }
    assert(copy@ =~= values@);
    copy
}

fn zeroes(count: usize) -> (values: Vec<usize>)
    ensures
        values@ == Seq::new(count as nat, |i: int| 0usize),
{
    let mut values: Vec<usize> = Vec::new();
    let mut index: usize = 0;
    while index < count
        invariant
            index <= count,
            values@ == Seq::new(index as nat, |i: int| 0usize),
        decreases count - index,
    {
        values.push(0);
        index = index + 1;
        assert(values@ =~= Seq::new(index as nat, |i: int| 0usize));
    }
    values
}

/// How many experts a rank gets when experts are shared out evenly.
pub open spec fn even_share(global_experts: int, group_size: int, rank: int) -> int {
    global_experts / group_size + if rank < global_experts % group_size {
        1int
    } else {
        0int
    }
}

/// Owners of experts that the first `ranks` ranks get in turn, each an even share.
pub open spec fn balanced_owners(global_experts: int, group_size: int, ranks: int) -> Seq<usize>
    decreases ranks,
{
    if ranks <= 0 {
        Seq::empty()
    } else {
        balanced_owners(global_experts, group_size, ranks - 1) + Seq::new(
            even_share(global_experts, group_size, ranks - 1) as nat,
            |i: int| (ranks - 1) as usize,
        )
    }
}

/// Owners of experts that are dealt out in turn.
pub open spec fn dealt_owners(global_experts: int, group_size: int) -> Seq<usize> {
    Seq::new(global_experts as nat, |expert: int| (expert % group_size) as usize)
}

proof fn balanced_length(global_experts: int, group_size: int, ranks: int)
    requires
        0 < group_size,
        0 <= global_experts,
        0 <= ranks <= group_size,
    ensures
        balanced_owners(global_experts, group_size, ranks).len() == ranks * (global_experts
            / group_size) + if ranks < global_experts % group_size {
            ranks
        } else {
            global_experts % group_size
        },
    decreases ranks,
{
    let base = global_experts / group_size;
    assert(base >= 0) by (nonlinear_arith)
        requires
            global_experts >= 0,
            group_size > 0,
            base == global_experts / group_size,
    ;
    assert(global_experts % group_size >= 0);
    if ranks > 0 {
        balanced_length(global_experts, group_size, ranks - 1);
        assert(ranks * base == (ranks - 1) * base + base) by (nonlinear_arith);
    } else {
        assert(ranks * base == 0) by (nonlinear_arith)
            requires
                ranks == 0,
        ;
    }
}

proof fn balanced_total(global_experts: int, group_size: int)
    requires
        0 < group_size,
        0 <= global_experts,
    ensures
        balanced_owners(global_experts, group_size, group_size).len() == global_experts,
{
    balanced_length(global_experts, group_size, group_size);
    assert(group_size * (global_experts / group_size) + global_experts % group_size
        == global_experts) by (nonlinear_arith)
        requires
            0 < group_size,
    ;
    assert(global_experts % group_size < group_size) by (nonlinear_arith)
        requires
            0 < group_size,
    ;
}

/// Shares are contiguous and in rank order.
proof fn balanced_is_ordered(global_experts: int, group_size: int, ranks: int)
    requires
        0 < group_size <= usize::MAX,
        0 <= global_experts,
        0 <= ranks <= group_size,
    ensures
        forall|i: int|
            0 <= i < balanced_owners(global_experts, group_size, ranks).len() ==> (
            #[trigger] balanced_owners(global_experts, group_size, ranks)[i]) < ranks,
        forall|i: int, j: int|
            0 <= i <= j < balanced_owners(global_experts, group_size, ranks).len() ==> (
            #[trigger] balanced_owners(global_experts, group_size, ranks)[i]) <= (
            #[trigger] balanced_owners(global_experts, group_size, ranks)[j]),
    decreases ranks,
{
    if ranks > 0 {
        balanced_is_ordered(global_experts, group_size, ranks - 1);
        let before = balanced_owners(global_experts, group_size, ranks - 1);
        let all = balanced_owners(global_experts, group_size, ranks);
        assert forall|i: int| 0 <= i < all.len() implies (#[trigger] all[i]) < ranks by {
            if i < before.len() {
                assert(all[i] == before[i]);
            }
        }
        assert forall|i: int, j: int| 0 <= i <= j < all.len() implies (#[trigger] all[i]) <= (
        #[trigger] all[j]) by {
            if j < before.len() {
                assert(all[i] == before[i] && all[j] == before[j]);
            } else if i < before.len() {
                assert(all[i] == before[i]);
            }
        }
    }
}

/// Counting in a prefix of a table.
proof fn owned_in_prefix(left: Seq<usize>, right: Seq<usize>, rank: usize, count: int)
    requires
        0 <= count <= left.len(),
        count <= right.len(),
        forall|i: int| 0 <= i < count ==> left[i] == right[i],
    ensures
        owned_before(left, rank, count) == owned_before(right, rank, count),
    decreases count,
{
    if count > 0 {
        owned_in_prefix(left, right, rank, count - 1);
    }
}

/// Counting over a run of equal owners.
proof fn owned_in_run(owners: Seq<usize>, rank: usize, from: int, to: int, owner: usize)
    requires
        0 <= from <= to <= owners.len(),
        forall|i: int| from <= i < to ==> owners[i] == owner,
    ensures
        owned_before(owners, rank, to) == owned_before(owners, rank, from) + if owner == rank {
            to - from
        } else {
            0
        },
    decreases to - from,
{
    if from < to {
        owned_in_run(owners, rank, from, to - 1, owner);
    }
}

/// A balanced assignment gives every rank its even share: any two shares differ by at
/// most one, and lower ranks get the remainder.
pub proof fn balanced_shares_are_even(global_experts: int, group_size: int, ranks: int, rank: usize)
    requires
        0 < group_size <= usize::MAX,
        0 <= global_experts,
        0 <= ranks <= group_size,
    ensures
        owned_before(
            balanced_owners(global_experts, group_size, ranks),
            rank,
            balanced_owners(global_experts, group_size, ranks).len() as int,
        ) == if rank < ranks {
            even_share(global_experts, group_size, rank as int)
        } else {
            0
        },
    decreases ranks,
{
    if ranks > 0 {
        balanced_shares_are_even(global_experts, group_size, ranks - 1, rank);
        let before = balanced_owners(global_experts, group_size, ranks - 1);
        let all = balanced_owners(global_experts, group_size, ranks);
        assert(even_share(global_experts, group_size, ranks - 1) >= 0) by (nonlinear_arith)
            requires
                0 < group_size,
                0 <= global_experts,
        ;
        owned_in_prefix(before, all, rank, before.len() as int);
        owned_in_run(
            all,
            rank,
            before.len() as int,
            all.len() as int,
            (ranks - 1) as usize,
        );
    }
}

/// Dealing experts out in turn leaves no rank of the group empty, where there are as
/// many experts as ranks.
proof fn dealing_leaves_none_empty(global_experts: int, group_size: int, rank: int)
    requires
        0 <= rank < group_size <= global_experts,
        group_size <= usize::MAX,
    ensures
        owned_before(dealt_owners(global_experts, group_size), rank as usize, global_experts) > 0,
{
    let owners = dealt_owners(global_experts, group_size);
    assert(rank % group_size == rank) by (nonlinear_arith)
        requires
            0 <= rank < group_size,
    ;
    assert(owners[rank] == rank as usize);
    owned_is_bounded(owners, rank as usize, rank);
    owned_grows(owners, rank as usize, rank + 1, global_experts);
}

proof fn owned_grows(owners: Seq<usize>, rank: usize, from: int, to: int)
    requires
        0 <= from <= to,
    ensures
        owned_before(owners, rank, from) <= owned_before(owners, rank, to),
    decreases to - from,
{
    if from < to {
        owned_grows(owners, rank, from, to - 1);
    }
}

/// Why a balanced or dealt assignment is refused, if it is.
pub open spec fn even_failure(
    global_experts: int,
    group_size: usize,
    rank: usize,
    allow_empty: bool,
) -> Option<Failure> {
    let dimensions = dimensions_failure(global_experts, group_size, rank, allow_empty);
    if dimensions is Some {
        dimensions
    } else if global_experts > i32::MAX {
        parallel("expert assignment exceeds MLX i32 indexing limits"@)
    } else {
        None
    }
}

impl ExpertAssignment {
    #[verifier::type_invariant]
    spec fn well_formed(self) -> bool {
        let owners = self.owners@;
        &&& self@.valid()
        &&& self.owner_local@ == Seq::new(
            owners.len(),
            |i: int| owned_before(owners, owners[i], i) as usize,
        )
        &&& self.local_global@ == owned_experts(owners, self.rank, owners.len() as int)
    }

    /// Creates the default balanced contiguous assignment.
    pub fn balanced(global_experts: usize, group_size: usize, rank: usize) -> (outcome: Result<
        Self,
        Error,
    >)
        ensures
            crate::error::failed(outcome) == even_failure(
                global_experts as int,
                group_size,
                rank,
                false,
            ),
            outcome matches Ok(assignment) ==> assignment@ == (Ownership {
                owners: balanced_owners(
                    global_experts as int,
                    group_size as int,
                    group_size as int,
                ),
                group_size,
                rank,
                policy: AssignmentRule::BalancedContiguous,
            }),
    {
        ExpertAssignment::balanced_with_empty(global_experts, group_size, rank, false)
    }

    /// Creates a balanced assignment and optionally permits empty ranks.
    pub fn balanced_with_empty(
        global_experts: usize,
        group_size: usize,
        rank: usize,
        allow_empty: bool,
    ) -> (outcome: Result<Self, Error>)
        ensures
            crate::error::failed(outcome) == even_failure(
                global_experts as int,
                group_size,
                rank,
                allow_empty,
            ),
            outcome matches Ok(assignment) ==> assignment@ == (Ownership {
                owners: balanced_owners(
                    global_experts as int,
                    group_size as int,
                    group_size as int,
                ),
                group_size,
                rank,
                policy: AssignmentRule::BalancedContiguous,
            }),
    {
        match validate_dimensions(global_experts, group_size, rank, allow_empty) {
            Ok(_) => {},
            Err(error) => {
                return Err(error);
            },
        }
        let ghost n = global_experts as int;
        let ghost g = group_size as int;
        let base: usize = global_experts / group_size;
        let extra: usize = global_experts % group_size;
        let mut owners: Vec<usize> = Vec::new();
        let mut owner: usize = 0;
        while owner < group_size
            invariant
                owner <= group_size,
                0 < group_size,
                n == global_experts,
                g == group_size,
                base == n / g,
                extra == n % g,
                owners@ == balanced_owners(n, g, owner as int),
            decreases group_size - owner,
        {
            let ghost before = owners@;
            let mut given: usize = 0;
            while given < base
                invariant
                    given <= base,
                    owners@ == before + Seq::new(given as nat, |i: int| owner),
                decreases base - given,
            {
                owners.push(owner);
                given = given + 1;
                assert(owners@ =~= before + Seq::new(given as nat, |i: int| owner));
            }
            if owner < extra {
                owners.push(owner);
            }
            assert(owners@ =~= before + Seq::new(
                even_share(n, g, owner as int) as nat,
                |i: int| owner,
            ));
            owner = owner + 1;
            assert(owners@ =~= balanced_owners(n, g, owner as int));
        }
        proof {
            balanced_total(n, g);
            balanced_is_ordered(n, g, g);
            within_group(owners@, group_size, 0);
            if !allow_empty && leaves_rank_empty(owners@, group_size) {
                let empty = choose|rank: int|
                    0 <= rank < group_size && #[trigger] owned_before(
                        owners@,
                        rank as usize,
                        owners@.len() as int,
                    ) == 0;
                balanced_shares_are_even(n, g, g, empty as usize);
                assert(n / g >= 1) by (nonlinear_arith)
                    requires
                        n >= g,
                        g > 0,
                ;
            }
        }
        ExpertAssignment::from_owners(
            owners,
            group_size,
            rank,
            ExpertAssignmentPolicy::BalancedContiguous,
            allow_empty,
        )
    }

    /// Creates a deterministic round-robin assignment.
    pub fn round_robin(global_experts: usize, group_size: usize, rank: usize) -> (outcome: Result<
        Self,
        Error,
    >)
        ensures
            crate::error::failed(outcome) == even_failure(
                global_experts as int,
                group_size,
                rank,
                false,
            ),
            outcome matches Ok(assignment) ==> assignment@ == (Ownership {
                owners: dealt_owners(global_experts as int, group_size as int),
                group_size,
                rank,
                policy: AssignmentRule::RoundRobin,
            }),
    {
        match validate_dimensions(global_experts, group_size, rank, false) {
            Ok(_) => {},
            Err(error) => {
                return Err(error);
            },
        }
        let mut owners: Vec<usize> = Vec::new();
        let mut expert: usize = 0;
        while expert < global_experts
            invariant
                expert <= global_experts,
                0 < group_size,
                owners@ == dealt_owners(expert as int, group_size as int),
            decreases global_experts - expert,
        {
            owners.push(expert % group_size);
            expert = expert + 1;
            assert(owners@ =~= dealt_owners(expert as int, group_size as int));
        }
        proof {
            assert forall|i: int| 0 <= i < owners@.len() implies #[trigger] owners@[i]
                < group_size by {
                assert(i % (group_size as int) < group_size) by (nonlinear_arith)
                    requires
                        0 < group_size,
                ;
            }
            within_group(owners@, group_size, 0);
            if leaves_rank_empty(owners@, group_size) {
                let empty = choose|rank: int|
                    0 <= rank < group_size && #[trigger] owned_before(
                        owners@,
                        rank as usize,
                        owners@.len() as int,
                    ) == 0;
                dealing_leaves_none_empty(global_experts as int, group_size as int, empty);
            }
        }
        ExpertAssignment::from_owners(
            owners,
            group_size,
            rank,
            ExpertAssignmentPolicy::RoundRobin,
            false,
        )
    }

    /// Creates an assignment from one owner rank per global expert.
    pub fn explicit(owners: Vec<usize>, group_size: usize, rank: usize) -> (outcome: Result<
        Self,
        Error,
    >)
        ensures
            crate::error::failed(outcome) == ownership_failure(owners@, group_size, rank, false),
            outcome matches Ok(assignment) ==> assignment@ == (Ownership {
                owners: owners@,
                group_size,
                rank,
                policy: AssignmentRule::Explicit(owners@),
            }),
    {
        ExpertAssignment::explicit_with_empty(owners, group_size, rank, false)
    }

    /// Creates an explicit assignment and optionally permits empty ranks.
    pub fn explicit_with_empty(
        owners: Vec<usize>,
        group_size: usize,
        rank: usize,
        allow_empty: bool,
    ) -> (outcome: Result<Self, Error>)
        ensures
            crate::error::failed(outcome) == ownership_failure(
                owners@,
                group_size,
                rank,
                allow_empty,
            ),
            outcome matches Ok(assignment) ==> assignment@ == (Ownership {
                owners: owners@,
                group_size,
                rank,
                policy: AssignmentRule::Explicit(owners@),
            }),
    {
        let policy = ExpertAssignmentPolicy::Explicit(copy_sizes(&owners));
        ExpertAssignment::from_owners(owners, group_size, rank, policy, allow_empty)
    }

    fn from_owners(
        owners: Vec<usize>,
        group_size: usize,
        rank: usize,
        policy: ExpertAssignmentPolicy,
        allow_empty: bool,
    ) -> (outcome: Result<Self, Error>)
        ensures
            crate::error::failed(outcome) == ownership_failure(
                owners@,
                group_size,
                rank,
                allow_empty,
            ),
            outcome matches Ok(assignment) ==> assignment@ == (Ownership {
                owners: owners@,
                group_size,
                rank,
                policy: policy@,
            }),
    {
        match validate_dimensions(owners.len(), group_size, rank, allow_empty) {
            Ok(_) => {},
            Err(error) => {
                return Err(error);
            },
        }
        match find_stray(&owners, group_size) {
            Some(expert) => {
                let mut text = "global expert ".to_owned();
                text.append(usize_text(expert).as_str());
                text.append(" has invalid owner rank ");
                text.append(usize_text(owners[expert]).as_str());
                text.append(" for EP size ");
                text.append(usize_text(group_size).as_str());
                return Err(Error::Parallel(text));
            },
            None => {},
        }
        proof {
            no_stray(owners@, group_size, 0);
        }
        let mut counts: Vec<usize> = zeroes(group_size);
        let mut owner_local: Vec<usize> = Vec::new();
        let mut local_global: Vec<usize> = Vec::new();
        let mut expert: usize = 0;
        while expert < owners.len()
            invariant
                expert <= owners@.len(),
                forall|i: int| 0 <= i < owners@.len() ==> #[trigger] owners@[i] < group_size,
                counts@.len() == group_size,
                forall|r: int|
                    0 <= r < group_size ==> (#[trigger] counts@[r]) as int == owned_before(
                        owners@,
                        r as usize,
                        expert as int,
                    ),
                owner_local@ == Seq::new(
                    expert as nat,
                    |i: int| owned_before(owners@, owners@[i], i) as usize,
                ),
                local_global@ == owned_experts(owners@, rank, expert as int),
            decreases owners@.len() - expert,
        {
            let owner: usize = owners[expert];
            proof {
                owned_is_bounded(owners@, owner, expert as int);
            }
            let local: usize = counts[owner];
            owner_local.push(local);
            counts[owner] = local + 1;
            if owner == rank {
                local_global.push(expert);
            }
            expert = expert + 1;
            assert(owner_local@ =~= Seq::new(
                expert as nat,
                |i: int| owned_before(owners@, owners@[i], i) as usize,
            ));
        }
        assert(owner_local@ =~= Seq::new(
            owners@.len(),
            |i: int| owned_before(owners@, owners@[i], i) as usize,
        ));
        let mut empty: bool = false;
        let mut index: usize = 0;
        while index < counts.len()
            invariant
                index <= counts@.len(),
                counts@.len() == group_size,
                forall|r: int|
                    0 <= r < group_size ==> (#[trigger] counts@[r]) as int == owned_before(
                        owners@,
                        r as usize,
                        owners@.len() as int,
                    ),
                empty == exists|r: int| 0 <= r < index && #[trigger] counts@[r] == 0,
            decreases counts@.len() - index,
        {
            if counts[index] == 0 {
                empty = true;
                assert(counts@[index as int] == 0);
            }
            index = index + 1;
        }
        proof {
            if empty {
                let r = choose|r: int| 0 <= r < index && #[trigger] counts@[r] == 0;
                assert(owned_before(owners@, r as usize, owners@.len() as int) == 0);
                assert(leaves_rank_empty(owners@, group_size));
            }
            if leaves_rank_empty(owners@, group_size) {
                let r = choose|r: int|
                    0 <= r < group_size && #[trigger] owned_before(
                        owners@,
                        r as usize,
                        owners@.len() as int,
                    ) == 0;
                assert(counts@[r] == 0);
            }
            assert forall|r: int| 0 <= r < group_size implies #[trigger] counts@[r]
                == rank_counts(owners@, group_size)[r] by {}
            assert(counts@ =~= rank_counts(owners@, group_size));
        }
        if !allow_empty && empty {
            let mut text = "expert assignment creates an empty rank: counts ".to_owned();
            text.append(sizes_text(&counts).as_str());
            return Err(Error::Parallel(text));
        }
        if owners.len() > i32::MAX as usize {
            return Err(
                Error::Parallel("expert assignment exceeds MLX i32 indexing limits".to_owned()),
            );
        }
        Ok(ExpertAssignment { group_size, rank, policy, owners, owner_local, local_global })
    }

    /// Total checkpoint-global routed expert count.
    pub fn global_expert_count(&self) -> (count: usize)
        ensures
            count == self@.owners.len(),
            self@.valid(),
    {
        proof {
            use_type_invariant(self);
        }
        self.owners.len()
    }

    /// EP group size.
    pub fn group_size(&self) -> (size: usize)
        ensures
            size == self@.group_size,
            self@.valid(),
    {
        proof {
            use_type_invariant(self);
        }
        self.group_size
    }

    /// Current rank within the EP group.
    pub fn rank(&self) -> (rank: usize)
        ensures
            rank == self@.rank,
            self@.valid(),
    {
        proof {
            use_type_invariant(self);
        }
        self.rank
    }

    /// Assignment policy.
    pub fn policy(&self) -> (policy: &ExpertAssignmentPolicy)
        ensures
            policy@ == self@.policy,
    {
        &self.policy
    }

    /// Global expert ids owned by this rank, in owner-local order.
    pub fn local_global_expert_ids(&self) -> (ids: &[usize])
        ensures
            ids@ == self@.local_experts(),
            self@.valid(),
    {
        proof {
            use_type_invariant(self);
        }
        self.local_global.as_slice()
    }

    /// Number of experts owned by this rank.
    pub fn local_expert_count(&self) -> (count: usize)
        ensures
            count == self@.local_experts().len(),
    {
        proof {
            use_type_invariant(self);
        }
        self.local_global.len()
    }

    /// Returns the owner rank of a global expert.
    pub fn owner(&self, global: usize) -> (owner: Option<usize>)
        ensures
            owner == (if global < self@.owners.len() {
                Some(self@.owners[global as int])
            } else {
                None
            }),
            self@.valid(),
    {
        proof {
            use_type_invariant(self);
        }
        if global < self.owners.len() {
            Some(self.owners[global])
        } else {
            None
        }
    }

    /// Returns the owner-local id of a global expert.
    pub fn owner_local_id(&self, global: usize) -> (id: Option<usize>)
        ensures
            match id {
                Some(id) => global < self@.owners.len() && id == self@.local_id(global as int),
                None => global >= self@.owners.len(),
            },
            self@.valid(),
    {
        proof {
            use_type_invariant(self);
        }
        if global < self.owner_local.len() {
            proof {
                owned_is_bounded(self.owners@, self.owners@[global as int], global as int);
            }
            Some(self.owner_local[global])
        } else {
            None
        }
    }

    /// Returns the global id corresponding to a local id on this rank.
    pub fn global_id(&self, local: usize) -> (id: Option<usize>)
        ensures
            id == (if local < self@.local_experts().len() {
                Some(self@.local_experts()[local as int])
            } else {
                None
            }),
    {
        proof {
            use_type_invariant(self);
        }
        if local < self.local_global.len() {
            Some(self.local_global[local])
        } else {
            None
        }
    }

    /// Complete global-to-owner mapping.
    pub fn owners(&self) -> (owners: &[usize])
        ensures
            owners@ == self@.owners,
            self@.valid(),
    {
        proof {
            use_type_invariant(self);
        }
        self.owners.as_slice()
    }

    /// Complete global-to-owner-local mapping.
    pub fn owner_local_ids(&self) -> (ids: &[usize])
        ensures
            ids@.len() == self@.owners.len(),
            forall|i: int|
                0 <= i < ids@.len() ==> (#[trigger] ids@[i]) as int == self@.local_id(i),
            self@.valid(),
    {
        proof {
            use_type_invariant(self);
            assert forall|i: int| 0 <= i < self.owners@.len() implies (
            #[trigger] self.owner_local@[i]) as int == self@.local_id(i) by {
                owned_is_bounded(self.owners@, self.owners@[i], i);
            }
        }
        self.owner_local.as_slice()
    }
}

impl Clone for ExpertAssignment {
    fn clone(&self) -> (copy: Self)
        ensures
            copy@ == self@,
    {
        proof {
            use_type_invariant(self);
        }
        let policy = match &self.policy {
            ExpertAssignmentPolicy::BalancedContiguous =>
                ExpertAssignmentPolicy::BalancedContiguous,
            ExpertAssignmentPolicy::RoundRobin => ExpertAssignmentPolicy::RoundRobin,
            ExpertAssignmentPolicy::Explicit(owners) => ExpertAssignmentPolicy::Explicit(
                copy_sizes(owners),
            ),
        };
        ExpertAssignment {
            group_size: self.group_size,
            rank: self.rank,
            policy,
            owners: copy_sizes(&self.owners),
            owner_local: copy_sizes(&self.owner_local),
            local_global: copy_sizes(&self.local_global),
        }
    }
}

proof fn experts_before_are_owned(owners: Seq<usize>, rank: usize, count: int)
    requires
        0 <= count <= owners.len() <= usize::MAX,
    ensures
        forall|local: int|
            0 <= local < owned_experts(owners, rank, count).len() ==> {
                let global = #[trigger] owned_experts(owners, rank, count)[local];
                &&& global < count
                &&& owners[global as int] == rank
                &&& owned_before(owners, rank, global as int) == local
            },
    decreases count,
{
    if count > 0 {
        experts_before_are_owned(owners, rank, count - 1);
        owned_is_bounded(owners, rank, count - 1);
        let before = owned_experts(owners, rank, count - 1);
        let all = owned_experts(owners, rank, count);
        assert forall|local: int| 0 <= local < all.len() implies {
            let global = #[trigger] all[local];
            &&& global < count
            &&& owners[global as int] == rank
            &&& owned_before(owners, rank, global as int) == local
        } by {
            if local < before.len() {
                assert(all[local] == before[local]);
            }
        }
    }
}

proof fn expert_is_listed(owners: Seq<usize>, rank: usize, count: int, global: int)
    requires
        0 <= global < count <= owners.len() <= usize::MAX,
        owners[global] == rank,
    ensures
        owned_before(owners, rank, global) < owned_experts(owners, rank, count).len(),
        owned_experts(owners, rank, count)[owned_before(owners, rank, global)] == global,
    decreases count,
{
    owned_is_bounded(owners, rank, count - 1);
    owned_is_bounded(owners, rank, global);
    if global < count - 1 {
        expert_is_listed(owners, rank, count - 1, global);
    }
}

/// A rank owns at most all experts.
pub proof fn local_experts_bounded(table: Ownership)
    ensures
        table.local_experts().len() <= table.owners.len(),
{
    owned_is_bounded(table.owners, table.rank, table.owners.len() as int);
}

/// Global and owner-local ids translate back and forth: the local id of an expert that
/// this rank owns leads back to it, and the global id of a local id has that local id.
pub proof fn assignment_round_trips(table: Ownership, global: int, local: int)
    requires
        table.valid(),
    ensures
        0 <= global < table.owners.len() && table.owners[global] == table.rank ==> {
            &&& table.local_id(global) < table.local_experts().len()
            &&& table.local_experts()[table.local_id(global)] == global
        },
        0 <= local < table.local_experts().len() ==> {
            let expert = table.local_experts()[local] as int;
            &&& 0 <= expert < table.owners.len()
            &&& table.owners[expert] == table.rank
            &&& table.local_id(expert) == local
        },
{
    let count = table.owners.len() as int;
    experts_before_are_owned(table.owners, table.rank, count);
    if 0 <= global < count && table.owners[global] == table.rank {
        expert_is_listed(table.owners, table.rank, count, global);
        owned_is_bounded(table.owners, table.rank, global);
    }
    if 0 <= local < table.local_experts().len() {
        assert(table.local_experts()[local] < count);
    }
}

/// Every expert is local to exactly one rank: of the ranks of a group that share an
/// ownership table, its owner lists it and no other does.
pub proof fn experts_are_partitioned(owners: Seq<usize>, rank: usize, global: usize)
    requires
        global < owners.len() <= usize::MAX,
    ensures
        owned_experts(owners, rank, owners.len() as int).contains(global) <==> owners[global as int]
            == rank,
{
    let count = owners.len() as int;
    experts_before_are_owned(owners, rank, count);
    let listed = owned_experts(owners, rank, count);
    if owners[global as int] == rank {
        expert_is_listed(owners, rank, count, global as int);
        owned_is_bounded(owners, rank, global as int);
        assert(listed[owned_before(owners, rank, global as int)] == global);
    }
    if listed.contains(global) {
        let local = choose|local: int| 0 <= local < listed.len() && listed[local] == global;
        assert(owners[listed[local] as int] == rank);
    }
}

/// The experts of a rank are listed in ascending order.
pub proof fn local_experts_ascend(table: Ownership, left: int, right: int)
    requires
        table.owners.len() <= usize::MAX,
        0 <= left < right < table.local_experts().len(),
    ensures
        table.local_experts()[left] < table.local_experts()[right],
{
    experts_ascend_below(table.owners, table.rank, table.owners.len() as int, left, right);
}

proof fn experts_ascend_below(owners: Seq<usize>, rank: usize, count: int, left: int, right: int)
    requires
        0 <= count <= owners.len() <= usize::MAX,
        0 <= left < right < owned_experts(owners, rank, count).len(),
    ensures
        owned_experts(owners, rank, count)[left] < owned_experts(owners, rank, count)[right],
    decreases count,
{
    if count > 0 {
        let before = owned_experts(owners, rank, count - 1);
        experts_before_are_owned(owners, rank, count - 1);
        if right < before.len() {
            experts_ascend_below(owners, rank, count - 1, left, right);
        } else {
            assert(before[left] < count - 1);
        }
    }
}

/// Balanced experts are contiguous and even: every expert has an owner of the group,
/// owners never fall from one expert to the next, and an earlier rank owns as many
/// experts as a later one or one more.
pub proof fn balanced_experts_are_contiguous_and_even(
    global_experts: int,
    group_size: int,
    left: int,
    right: int,
    earlier: int,
    later: int,
)
    requires
        0 < group_size <= usize::MAX,
        0 <= left <= right < global_experts,
        0 <= earlier <= later < group_size,
    ensures
        ({
            let owners = balanced_owners(global_experts, group_size, group_size);
            let first = owned_before(owners, earlier as usize, global_experts);
            let second = owned_before(owners, later as usize, global_experts);
            &&& owners.len() == global_experts
            &&& owners[left] <= owners[right] < group_size
            &&& second <= first <= second + 1
        }),
{
    balanced_total(global_experts, group_size);
    balanced_is_ordered(global_experts, group_size, group_size);
    balanced_shares_are_even(global_experts, group_size, group_size, earlier as usize);
    balanced_shares_are_even(global_experts, group_size, group_size, later as usize);
}

/// Dealt experts go round the group: the first ones go to the ranks in order, and an
/// expert goes where the one a whole round earlier went.
pub proof fn dealt_experts_go_round(global_experts: int, group_size: int, expert: int)
    requires
        0 < group_size <= usize::MAX,
        0 <= expert < global_experts,
    ensures
        dealt_owners(global_experts, group_size).len() == global_experts,
        expert < group_size ==> dealt_owners(global_experts, group_size)[expert] == expert,
        expert >= group_size ==> dealt_owners(global_experts, group_size)[expert]
            == dealt_owners(global_experts, group_size)[expert - group_size],
{
    if expert < group_size {
        assert(expert % group_size == expert) by (nonlinear_arith)
            requires
                0 <= expert < group_size,
        ;
    } else {
        assert((expert - group_size) % group_size == expert % group_size) by (nonlinear_arith)
            requires
                0 < group_size <= expert,
        ;
    }
}

/// An even assignment is accepted exactly where there is an expert, the rank is one of
/// the group, ids fit the array runtime and, unless ranks may stay empty, there is an
/// expert for every rank.
pub proof fn accepted_even_assignments_can_be_made(
    global_experts: int,
    group_size: usize,
    rank: usize,
    allow_empty: bool,
)
    requires
        0 <= global_experts,
    ensures
        even_failure(global_experts, group_size, rank, allow_empty) is None <==> {
            &&& 0 < global_experts <= i32::MAX
            &&& rank < group_size
            &&& allow_empty || group_size <= global_experts
        },
{
}

/// An ownership table is accepted exactly where it gives every expert an owner of the
/// group and, unless ranks may stay empty, every rank an expert.
pub proof fn accepted_ownership_is_complete(
    owners: Seq<usize>,
    group_size: usize,
    rank: usize,
    allow_empty: bool,
)
    requires
        owners.len() <= usize::MAX,
    ensures
        ownership_failure(owners, group_size, rank, allow_empty) is None <==> {
            &&& 0 < owners.len() <= i32::MAX
            &&& rank < group_size
            &&& forall|i: int| 0 <= i < owners.len() ==> #[trigger] owners[i] < group_size
            &&& allow_empty || forall|r: usize| r < group_size ==> #[trigger] owners.contains(r)
        },
{
    let complete = forall|r: usize| r < group_size ==> #[trigger] owners.contains(r);
    assert forall|r: usize| r < group_size implies (#[trigger] owners.contains(r) <==> owned_before(
        owners,
        r,
        owners.len() as int,
    ) > 0) by {
        owning_is_counted(owners, r, owners.len() as int);
        if owners.contains(r) {
            let i = choose|i: int| 0 <= i < owners.len() && owners[i] == r;
            assert(owners.take(owners.len() as int)[i] == r);
        }
        assert(owners.take(owners.len() as int) =~= owners);
        owned_is_bounded(owners, r, owners.len() as int);
    }
    if leaves_rank_empty(owners, group_size) {
        let r = choose|r: int|
            0 <= r < group_size && #[trigger] owned_before(owners, r as usize, owners.len() as int)
                == 0;
        assert(!owners.contains(r as usize));
    } else {
        assert forall|r: usize| r < group_size implies #[trigger] owners.contains(r) by {
            owned_is_bounded(owners, r, owners.len() as int);
            assert(owned_before(owners, (r as int) as usize, owners.len() as int) != 0);
        }
    }
    if first_stray(owners, group_size, 0) is None {
        no_stray(owners, group_size, 0);
    }
    if forall|i: int| 0 <= i < owners.len() ==> #[trigger] owners[i] < group_size {
        within_group(owners, group_size, 0);
    }
    // With fewer experts than ranks some rank stays empty.
    if complete && owners.len() < group_size {
        every_rank_needs_an_expert(owners, group_size as int);
    }
}

proof fn owning_is_counted(owners: Seq<usize>, rank: usize, count: int)
    requires
        0 <= count <= owners.len(),
    ensures
        owned_before(owners, rank, count) > 0 <==> owners.take(count).contains(rank),
    decreases count,
{
    if count > 0 {
        owning_is_counted(owners, rank, count - 1);
        owned_is_bounded(owners, rank, count - 1);
        let before = owners.take(count - 1);
        let all = owners.take(count);
        if before.contains(rank) {
            let i = choose|i: int| 0 <= i < before.len() && before[i] == rank;
            assert(all[i] == rank);
        }
        if all.contains(rank) {
            let i = choose|i: int| 0 <= i < all.len() && all[i] == rank;
            if i < count - 1 {
                assert(before[i] == rank);
            }
        }
        if owners[count - 1] == rank {
            assert(all[count - 1] == rank);
        }
    }
}

/// Where every rank owns an expert there are at least as many experts as ranks.
proof fn every_rank_needs_an_expert(owners: Seq<usize>, group_size: int)
    requires
        0 <= group_size <= usize::MAX,
        forall|r: usize| r < group_size ==> #[trigger] owners.contains(r),
    ensures
        group_size <= owners.len(),
    decreases group_size,
{
    if group_size > 0 {
        let last = (group_size - 1) as usize;
        assert(owners.contains(last));
        let i = choose|i: int| 0 <= i < owners.len() && owners[i] == last;
        let rest = owners.remove(i);
        assert forall|r: usize| r < group_size - 1 implies #[trigger] rest.contains(r) by {
            assert(owners.contains(r));
            let j = choose|j: int| 0 <= j < owners.len() && owners[j] == r;
            if j < i {
                assert(rest[j] == r);
            } else {
                assert(rest[j - 1] == r);
            }
        }
        every_rank_needs_an_expert(rest, group_size - 1);
    }
}

/// A rank lists as many experts as it owns.
pub proof fn owned_experts_are_counted(owners: Seq<usize>, rank: usize, count: int)
    requires
        0 <= count,
    ensures
        owned_experts(owners, rank, count).len() == owned_before(owners, rank, count),
{
    owned_is_bounded(owners, rank, count);
}

/// Looking up an expert and looking it up again give it back: the owner-local id of an
/// own expert leads to that expert, and every owner-local id leads to an own expert.
pub proof fn lookups_lead_back(
    assignment: ExpertAssignment,
    global: usize,
    owner: Option<usize>,
    local: Option<usize>,
    at: usize,
    found: Option<usize>,
)
    requires
        call_ensures(ExpertAssignment::owner, (&assignment, global), owner),
        call_ensures(ExpertAssignment::owner_local_id, (&assignment, global), local),
        call_ensures(ExpertAssignment::global_id, (&assignment, at), found),
    ensures
        owner is Some <==> global < assignment@.owners.len(),
        owner is Some <==> local is Some,
        owner == Some(assignment@.rank) && local == Some(at) ==> found == Some(global),
        found == Some(global) ==> owner == Some(assignment@.rank) && local == Some(at),
{
    assignment_round_trips(assignment@, global as int, at as int);
    if found == Some(global) {
        experts_before_are_owned(
            assignment@.owners,
            assignment@.rank,
            assignment@.owners.len() as int,
        );
        let expert = assignment@.local_experts()[at as int];
        assert(expert == global);
    }
}

} // verus!
