//! Variable-count exchange of row blocks over a padded all-gather, and the dispatch of
//! routes of sharded tokens over it.

use vstd::prelude::*;
use vstd::string::StringExecFns;

use crate::array::Dtype;
use crate::error::{Error, Failure};
use crate::expert_parallel::assignment::ExpertAssignment;
use crate::expert_parallel::routes::check_group;
use crate::expert_parallel::statistics::RoutingStatistics;
use crate::text::usize_text;

verus! {

/// Rows of one runtime array along its leading axis.
#[derive(Debug, Clone)]
pub struct RowBlock<R> {
    /// Shape of the array.
    pub shape: Vec<i32>,
    /// Element type.
    pub dtype: Dtype,
    /// Rows along the leading axis.
    pub rows: Vec<R>,
}

impl<R> RowBlock<R> {
    /// An array with a leading axis has as many rows as that axis says.
    pub open spec fn wf(self) -> bool {
        self.shape@.len() > 0 ==> self.rows@.len() == self.shape@[0]
    }

    /// Dimensions behind the leading one.
    pub open spec fn tail(self) -> Seq<i32> {
        self.shape@.drop_first()
    }
}

/// Rows of every block.
pub open spec fn block_rows<R>(blocks: Seq<RowBlock<R>>) -> Seq<Seq<R>> {
    blocks.map_values(|block: RowBlock<R>| block.rows@)
}

/// Why blocks cannot be exchanged, if they cannot.
pub open spec fn blocks_failure<R>(blocks: Seq<RowBlock<R>>, world: usize) -> Option<Failure> {
    if blocks.len() != world || blocks.len() == 0 {
        Some(
            Failure::Parallel(
                "all_to_all_v requires "@ + crate::text::decimal(world as nat)
                    + " destination blocks"@,
            ),
        )
    } else if exists|i: int| 0 <= i < blocks.len() && (#[trigger] blocks[i]).shape@.len() == 0 {
        Some(Failure::Parallel("all_to_all_v blocks must have a leading row dimension"@))
    } else if exists|i: int|
        0 <= i < blocks.len() && ((#[trigger] blocks[i]).dtype != blocks[0].dtype
            || blocks[i].tail() != blocks[0].tail()) {
        Some(Failure::Parallel("all_to_all_v blocks must share dtype and trailing shape"@))
    } else {
        None
    }
}

/// Compares the dimensions of two shapes behind the leading one.
fn same_tail(left: &Vec<i32>, right: &Vec<i32>) -> (same: bool)
    requires
        left@.len() > 0,
        right@.len() > 0,
    ensures
        same == (left@.drop_first() == right@.drop_first()),
{
    if left.len() != right.len() {
        assert(left@.drop_first().len() != right@.drop_first().len());
        return false;
    }
    let mut index: usize = 1;
    while index < left.len()
        invariant
            1 <= index <= left@.len(),
            left@.len() == right@.len(),
            forall|i: int| 1 <= i < index ==> left@[i] == right@[i],
        decreases left@.len() - index,
    {
        if left[index] != right[index] {
            assert(left@.drop_first()[index - 1] != right@.drop_first()[index - 1]);
            return false;
        }
        index = index + 1;
    }
    assert(left@.drop_first() =~= right@.drop_first());
    true
}

/// Checks the blocks of one exchange and returns how many rows go to each destination.
pub fn check_send_blocks<R>(blocks: &Vec<RowBlock<R>>, world: usize) -> (outcome: Result<
    Vec<i32>,
    Error,
>)
    requires
        forall|i: int| 0 <= i < blocks@.len() ==> (#[trigger] blocks@[i]).wf(),
    ensures
        crate::error::failed(outcome) == blocks_failure(blocks@, world),
        outcome matches Ok(counts) ==> {
            &&& counts@.len() == blocks@.len()
            &&& forall|i: int|
                0 <= i < counts@.len() ==> (#[trigger] counts@[i]) as int
                    == blocks@[i].rows@.len()
        },
{
    if blocks.len() != world || blocks.len() == 0 {
        let mut text = "all_to_all_v requires ".to_owned();
        text.append(usize_text(world).as_str());
        text.append(" destination blocks");
        return Err(Error::Parallel(text));
    }
    let mut index: usize = 0;
    while index < blocks.len()
        invariant
            index <= blocks@.len(),
            blocks@.len() == world,
            forall|i: int| 0 <= i < index ==> (#[trigger] blocks@[i]).shape@.len() > 0,
        decreases blocks@.len() - index,
    {
        if blocks[index].shape.len() == 0 {
            return Err(
                Error::Parallel(
                    "all_to_all_v blocks must have a leading row dimension".to_owned(),
                ),
            );
        }
        index = index + 1;
    }
    let mut counts: Vec<i32> = Vec::new();
    let mut index: usize = 0;
    while index < blocks.len()
        invariant
            index <= blocks@.len(),
            blocks@.len() == world,
            blocks@.len() > 0,
            forall|i: int| 0 <= i < blocks@.len() ==> (#[trigger] blocks@[i]).shape@.len() > 0,
            forall|i: int| 0 <= i < blocks@.len() ==> (#[trigger] blocks@[i]).wf(),
            counts@.len() == index,
            forall|i: int|
                0 <= i < index ==> (#[trigger] counts@[i]) as int == blocks@[i].rows@.len(),
            forall|i: int|
                0 <= i < index ==> (#[trigger] blocks@[i]).dtype == blocks@[0].dtype
                    && blocks@[i].tail() == blocks@[0].tail(),
        decreases blocks@.len() - index,
    {
        let block = &blocks[index];
        assert(block.wf());
        if block.dtype != blocks[0].dtype || !same_tail(&block.shape, &blocks[0].shape) {
            assert(blocks@[index as int].dtype != blocks@[0].dtype || blocks@[index as int].tail()
                != blocks@[0].tail());
            return Err(
                Error::Parallel(
                    "all_to_all_v blocks must share dtype and trailing shape".to_owned(),
                ),
            );
        }
        counts.push(block.shape[0]);
        index = index + 1;
    }
    Ok(counts)
}

/// Largest of several row counts; zero if there are none.
pub open spec fn largest(counts: Seq<i32>) -> int
    decreases counts.len(),
{
    if counts.len() == 0 {
        0
    } else {
        let before = largest(counts.drop_last());
        if counts.last() > before {
            counts.last() as int
        } else {
            before
        }
    }
}

/// Row counts added up.
pub open spec fn total(counts: Seq<i32>) -> int
    decreases counts.len(),
{
    if counts.len() == 0 {
        0
    } else {
        total(counts.drop_last()) + counts.last()
    }
}

/// How blocks travel once every rank knows how many rows every other rank sends.
#[derive(Debug, Clone)]
pub struct ExchangePlan {
    /// Group size.
    pub world: usize,
    /// Rank in the group.
    pub rank: usize,
    /// Rows to which every block is padded.
    pub max_rows: usize,
    /// Rows that each source sends to this rank.
    pub source_counts: Vec<usize>,
    /// Rows that all ranks send together.
    pub total_rows: usize,
}

impl ExchangePlan {
    /// Whether the plan is the one of a rank for gathered row counts, source by source.
    pub open spec fn plans(self, world: usize, rank: usize, counts: Seq<i32>) -> bool {
        &&& self.world == world
        &&& self.rank == rank
        &&& self.max_rows == largest(counts)
        &&& self.total_rows == total(counts)
        &&& self.source_counts@.len() == world
        &&& forall|s: int|
            0 <= s < world ==> (#[trigger] self.source_counts@[s]) as int == counts[s * world
                + rank]
    }
}

proof fn largest_is_bound(counts: Seq<i32>, index: int)
    requires
        0 <= index < counts.len(),
    ensures
        counts[index] <= largest(counts),
        0 <= largest(counts) <= i32::MAX,
    decreases counts.len(),
{
    largest_is_small(counts);
    if index < counts.len() - 1 {
        largest_is_bound(counts.drop_last(), index);
    }
}

proof fn largest_is_small(counts: Seq<i32>)
    ensures
        0 <= largest(counts) <= i32::MAX,
    decreases counts.len(),
{
    if counts.len() > 0 {
        largest_is_small(counts.drop_last());
    }
}

proof fn cell_exists(world: int, s: int, rank: int)
    requires
        0 <= s < world,
        0 <= rank < world,
    ensures
        0 <= s * world + rank < world * world,
{
    assert(0 <= s * world + rank < world * world) by (nonlinear_arith)
        requires
            0 <= s < world,
            0 <= rank < world,
    ;
}

/// Plans an exchange from the row counts that all ranks gathered.
pub fn plan_exchange(world: usize, rank: usize, counts: &Vec<i32>) -> (plan: ExchangePlan)
    requires
        rank < world,
        counts@.len() == world * world,
        forall|i: int| 0 <= i < counts@.len() ==> 0 <= #[trigger] counts@[i],
        total(counts@) <= usize::MAX,
    ensures
        plan.plans(world, rank, counts@),
{
    let mut max_rows: usize = 0;
    let mut total_rows: usize = 0;
    let mut index: usize = 0;
    while index < counts.len()
        invariant
            index <= counts@.len(),
            forall|i: int| 0 <= i < counts@.len() ==> 0 <= #[trigger] counts@[i],
            total(counts@) <= usize::MAX,
            max_rows == largest(counts@.take(index as int)),
            total_rows == total(counts@.take(index as int)),
        decreases counts@.len() - index,
    {
        proof {
            assert(counts@.take(index + 1).drop_last() =~= counts@.take(index as int));
            prefix_total(counts@, index + 1);
        }
        let count: usize = counts[index] as usize;
        if count > max_rows {
            max_rows = count;
        }
        total_rows = total_rows + count;
        index = index + 1;
    }
    assert(counts@.take(index as int) =~= counts@);
    let mut source_counts: Vec<usize> = Vec::new();
    let cells: usize = counts.len();
    let mut source: usize = 0;
    while source < world
        invariant
            source <= world,
            cells == counts@.len(),
            rank < world,
            counts@.len() == world * world,
            forall|i: int| 0 <= i < counts@.len() ==> 0 <= #[trigger] counts@[i],
            source_counts@.len() == source,
            forall|s: int|
                0 <= s < source ==> (#[trigger] source_counts@[s]) as int == counts@[s * world
                    + rank],
        decreases world - source,
    {
        proof {
            cell_exists(world as int, source as int, rank as int);
            assert(source * world <= source * world + rank);
            assert(0 <= source * world) by (nonlinear_arith);
        }
        let cell: usize = source * world + rank;
        source_counts.push(counts[cell] as usize);
        source = source + 1;
    }
    ExchangePlan { world, rank, max_rows, source_counts, total_rows }
}

proof fn prefix_total(counts: Seq<i32>, length: int)
    requires
        0 <= length <= counts.len(),
        forall|i: int| 0 <= i < counts.len() ==> 0 <= #[trigger] counts[i],
    ensures
        0 <= total(counts.take(length)) <= total(counts),
    decreases counts.len(),
{
    if length == counts.len() {
        assert(counts.take(length) =~= counts);
        if counts.len() > 0 {
            assert(counts.drop_last().take(length - 1) =~= counts.drop_last());
            assert forall|i: int| 0 <= i < counts.drop_last().len() implies 0
                <= #[trigger] counts.drop_last()[i] by {
                assert(counts.drop_last()[i] == counts[i]);
            }
            prefix_total(counts.drop_last(), length - 1);
            assert(counts[counts.len() - 1] >= 0);
        }
    } else {
        assert(counts.drop_last().take(length) =~= counts.take(length));
        assert forall|i: int| 0 <= i < counts.drop_last().len() implies 0
            <= #[trigger] counts.drop_last()[i] by {
            assert(counts.drop_last()[i] == counts[i]);
        }
        prefix_total(counts.drop_last(), length);
        assert(counts[counts.len() - 1] >= 0);
    }
}

/// Blocks one after another, each padded to the same number of rows.
pub open spec fn packed<R>(blocks: Seq<Seq<R>>, max_rows: int, padding: R) -> Seq<R>
    decreases blocks.len(),
{
    if blocks.len() == 0 {
        Seq::empty()
    } else {
        let block = blocks.last();
        packed(blocks.drop_last(), max_rows, padding) + block + Seq::new(
            (max_rows - block.len()) as nat,
            |i: int| padding,
        )
    }
}

/// Packs blocks for the all-gather.
pub fn pack_blocks<R: Copy>(blocks: &Vec<RowBlock<R>>, max_rows: usize, padding: R) -> (rows: Vec<R>)
    requires
        forall|i: int| 0 <= i < blocks@.len() ==> (#[trigger] blocks@[i]).rows@.len() <= max_rows,
    ensures
        rows@ == packed(block_rows(blocks@), max_rows as int, padding),
{
    let mut rows: Vec<R> = Vec::new();
    let mut index: usize = 0;
    assert(block_rows(blocks@).take(0) =~= Seq::empty());
    while index < blocks.len()
        invariant
            index <= blocks@.len(),
            forall|i: int|
                0 <= i < blocks@.len() ==> (#[trigger] blocks@[i]).rows@.len() <= max_rows,
            rows@ == packed(block_rows(blocks@).take(index as int), max_rows as int, padding),
        decreases blocks@.len() - index,
    {
        let ghost before = rows@;
        let block = &blocks[index].rows;
        assert(block@.len() <= max_rows);
        let mut row: usize = 0;
        while row < block.len()
            invariant
                row <= block@.len(),
                rows@ == before + block@.take(row as int),
            decreases block@.len() - row,
        {
            rows.push(block[row]);
            row = row + 1;
            assert(rows@ =~= before + block@.take(row as int));
        }
        assert(block@.take(row as int) =~= block@);
        while row < max_rows
            invariant
                block@.len() <= row <= max_rows,
                rows@ == before + block@ + Seq::new(
                    (row - block@.len()) as nat,
                    |i: int| padding,
                ),
            decreases max_rows - row,
        {
            rows.push(padding);
            row = row + 1;
            assert(rows@ =~= before + block@ + Seq::new(
                (row - block@.len()) as nat,
                |i: int| padding,
            ));
        }
        proof {
            let longer = block_rows(blocks@).take(index + 1);
            assert(longer.drop_last() =~= block_rows(blocks@).take(index as int));
            assert(longer.last() == block@);
        }
        index = index + 1;
        assert(rows@ =~= packed(block_rows(blocks@).take(index as int), max_rows as int, padding));
    }
    assert(block_rows(blocks@).take(index as int) =~= block_rows(blocks@));
    rows
}

/// Where the rows from a source to a rank start among the gathered rows.
pub open spec fn block_start(world: int, rank: int, max_rows: int, source: int) -> int {
    (source * world + rank) * max_rows
}

/// The rows that the first `sources` ranks sent to this rank, in source order.
pub open spec fn received_rows<R>(
    gathered: Seq<R>,
    counts: Seq<usize>,
    world: int,
    rank: int,
    max_rows: int,
    sources: int,
) -> Seq<R>
    decreases sources,
{
    if sources <= 0 {
        Seq::empty()
    } else {
        let start = block_start(world, rank, max_rows, sources - 1);
        received_rows(gathered, counts, world, rank, max_rows, sources - 1) + gathered.subrange(
            start,
            start + counts[sources - 1],
        )
    }
}

proof fn block_fits(world: int, rank: int, max_rows: int, source: int)
    requires
        0 <= source < world,
        0 <= rank < world,
        0 <= max_rows,
    ensures
        0 <= block_start(world, rank, max_rows, source),
        block_start(world, rank, max_rows, source) + max_rows <= world * world * max_rows,
{
    let cell = source * world + rank;
    cell_exists(world, source, rank);
    assert(0 <= cell * max_rows) by (nonlinear_arith)
        requires
            0 <= cell,
            0 <= max_rows,
    ;
    assert(cell * max_rows + max_rows <= world * world * max_rows) by (nonlinear_arith)
        requires
            cell + 1 <= world * world,
            0 <= max_rows,
    ;
}

impl ExchangePlan {
    /// Takes out of the gathered rows those that were sent to this rank.
    pub fn receive<R: Copy>(&self, gathered: &Vec<R>) -> (rows: Vec<R>)
        requires
            self.rank < self.world,
            self.source_counts@.len() == self.world,
            forall|s: int|
                0 <= s < self.world ==> #[trigger] self.source_counts@[s] <= self.max_rows,
            gathered@.len() == self.world * self.world * self.max_rows,
        ensures
            rows@ == received_rows(
                gathered@,
                self.source_counts@,
                self.world as int,
                self.rank as int,
                self.max_rows as int,
                self.world as int,
            ),
    {
        let mut rows: Vec<R> = Vec::new();
        let length: usize = gathered.len();
        let mut source: usize = 0;
        while source < self.world
            invariant
                source <= self.world,
                length == gathered@.len(),
                self.rank < self.world,
                self.source_counts@.len() == self.world,
                forall|s: int|
                    0 <= s < self.world ==> #[trigger] self.source_counts@[s] <= self.max_rows,
                gathered@.len() == self.world * self.world * self.max_rows,
                rows@ == received_rows(
                    gathered@,
                    self.source_counts@,
                    self.world as int,
                    self.rank as int,
                    self.max_rows as int,
                    source as int,
                ),
            decreases self.world - source,
        {
            let ghost before = rows@;
            let ghost world = self.world as int;
            let ghost from = block_start(
                world,
                self.rank as int,
                self.max_rows as int,
                source as int,
            );
            proof {
                block_fits(world, self.rank as int, self.max_rows as int, source as int);
                cell_exists(world, source as int, self.rank as int);
            }
            let count: usize = self.source_counts[source];
            if count > 0 {
                proof {
                    let cell = source * self.world + self.rank;
                    assert(self.max_rows >= 1);
                    assert(cell <= cell * self.max_rows) by (nonlinear_arith)
                        requires
                            cell >= 0,
                            self.max_rows >= 1,
                    ;
                    assert(0 <= source * self.world) by (nonlinear_arith);
                }
                let cell: usize = source * self.world + self.rank;
                let start: usize = cell * self.max_rows;
                let mut row: usize = 0;
                while row < count
                    invariant
                        row <= count,
                        start == from,
                        length == gathered@.len(),
                        start + count <= length,
                        rows@ == before + gathered@.subrange(from, from + row),
                    decreases count - row,
                {
                    rows.push(gathered[start + row]);
                    row = row + 1;
                    assert(rows@ =~= before + gathered@.subrange(from, from + row));
                }
            }
            assert(rows@ =~= before + gathered@.subrange(from, from + count));
            source = source + 1;
        }
        rows
    }
}

/// Rows of several blocks, one block after another.
pub open spec fn joined_rows<R>(blocks: Seq<Seq<R>>) -> Seq<R>
    decreases blocks.len(),
{
    if blocks.len() == 0 {
        Seq::empty()
    } else {
        joined_rows(blocks.drop_last()) + blocks.last()
    }
}

/// A block is found whole at its place among packed blocks.
proof fn packed_block<R>(blocks: Seq<Seq<R>>, max_rows: int, padding: R, index: int)
    requires
        0 <= index < blocks.len(),
        forall|i: int| 0 <= i < blocks.len() ==> (#[trigger] blocks[i]).len() <= max_rows,
    ensures
        packed(blocks, max_rows, padding).len() == blocks.len() * max_rows,
        0 <= index * max_rows,
        index * max_rows + blocks[index].len() <= packed(blocks, max_rows, padding).len(),
        packed(blocks, max_rows, padding).subrange(
            index * max_rows,
            index * max_rows + blocks[index].len(),
        ) == blocks[index],
    decreases blocks.len(),
{
    packed_length(blocks, max_rows, padding);
    let rest = blocks.drop_last();
    let all = packed(blocks, max_rows, padding);
    let before = packed(rest, max_rows, padding);
    assert forall|i: int| 0 <= i < rest.len() implies (#[trigger] rest[i]).len() <= max_rows by {
        assert(rest[i] == blocks[i]);
    }
    packed_length(rest, max_rows, padding);
    assert(0 <= index * max_rows) by (nonlinear_arith)
        requires
            0 <= index,
            0 <= max_rows,
    ;
    assert(index * max_rows + max_rows <= blocks.len() * max_rows) by (nonlinear_arith)
        requires
            index + 1 <= blocks.len(),
            0 <= max_rows,
    ;
    if index == blocks.len() - 1 {
        assert(all.subrange(index * max_rows, index * max_rows + blocks[index].len())
            =~= blocks[index]);
    } else {
        packed_block(rest, max_rows, padding, index);
        assert(all.subrange(index * max_rows, index * max_rows + blocks[index].len())
            =~= before.subrange(index * max_rows, index * max_rows + blocks[index].len()));
    }
}

proof fn packed_length<R>(blocks: Seq<Seq<R>>, max_rows: int, padding: R)
    requires
        forall|i: int| 0 <= i < blocks.len() ==> (#[trigger] blocks[i]).len() <= max_rows,
        blocks.len() > 0 ==> 0 <= max_rows,
    ensures
        packed(blocks, max_rows, padding).len() == blocks.len() * max_rows,
    decreases blocks.len(),
{
    if blocks.len() > 0 {
        let rest = blocks.drop_last();
        assert forall|i: int| 0 <= i < rest.len() implies (#[trigger] rest[i]).len()
            <= max_rows by {
            assert(rest[i] == blocks[i]);
        }
        packed_length(rest, max_rows, padding);
        assert(blocks[blocks.len() - 1].len() <= max_rows);
        assert(blocks.len() * max_rows == (blocks.len() - 1) * max_rows + max_rows)
            by (nonlinear_arith);
    } else {
        assert(blocks.len() * max_rows == 0) by (nonlinear_arith)
            requires
                blocks.len() == 0,
        ;
    }
}

/// Whether gathered rows are what every rank packed, in rank order.
pub open spec fn gathers<R>(
    gathered: Seq<R>,
    sends: Seq<Seq<Seq<R>>>,
    max_rows: int,
    padding: R,
) -> bool {
    let world = sends.len() as int;
    &&& gathered.len() == world * world * max_rows
    &&& forall|s: int|
        #![trigger sends[s]]
        0 <= s < world ==> gathered.subrange(
            s * world * max_rows,
            s * world * max_rows + world * max_rows,
        ) == packed(sends[s], max_rows, padding)
}

/// Whether ranks send one block to every rank, none of them longer than the padding.
pub open spec fn sends_fit<R>(sends: Seq<Seq<Seq<R>>>, max_rows: int) -> bool {
    let world = sends.len();
    &&& 0 <= max_rows
    &&& forall|s: int|
        #![trigger sends[s]]
        0 <= s < world ==> {
            &&& sends[s].len() == world
            &&& forall|d: int|
                0 <= d < world ==> (#[trigger] sends[s][d]).len() <= max_rows
        }
}

/// The blocks that the first `sources` ranks send to a rank.
pub open spec fn sent_to<R>(sends: Seq<Seq<Seq<R>>>, rank: int, sources: int) -> Seq<Seq<R>> {
    Seq::new(sources as nat, |s: int| sends[s][rank])
}

/// An exchange delivers: every rank receives, in source order, exactly the rows that the
/// ranks of the group addressed to it.
pub proof fn exchange_delivers<R>(
    gathered: Seq<R>,
    sends: Seq<Seq<Seq<R>>>,
    counts: Seq<usize>,
    rank: int,
    max_rows: int,
    padding: R,
    sources: int,
)
    requires
        0 <= rank < sends.len(),
        0 <= sources <= sends.len(),
        sends_fit(sends, max_rows),
        gathers(gathered, sends, max_rows, padding),
        counts.len() == sends.len(),
        forall|s: int|
            0 <= s < sends.len() ==> (#[trigger] counts[s]) as int == sends[s][rank].len(),
    ensures
        received_rows(gathered, counts, sends.len() as int, rank, max_rows, sources)
            == joined_rows(sent_to(sends, rank, sources)),
    decreases sources,
{
    if sources > 0 {
        exchange_delivers(gathered, sends, counts, rank, max_rows, padding, sources - 1);
        let world = sends.len() as int;
        let source = sources - 1;
        let blocks = sends[source];
        let start = block_start(world, rank, max_rows, source);
        let shelf = source * world * max_rows;
        let all = sent_to(sends, rank, sources);
        assert(all.drop_last() =~= sent_to(sends, rank, source));
        packed_block(blocks, max_rows, padding, rank);
        assert(start == shelf + rank * max_rows) by (nonlinear_arith)
            requires
                start == (source * world + rank) * max_rows,
                shelf == source * world * max_rows,
        ;
        block_fits(world, rank, max_rows, source);
        assert(counts[source] as int == blocks[rank].len());
        assert(shelf + world * max_rows <= world * world * max_rows) by (nonlinear_arith)
            requires
                shelf == source * world * max_rows,
                0 <= source < world,
                0 <= max_rows,
        ;
        assert(0 <= shelf) by (nonlinear_arith)
            requires
                shelf == source * world * max_rows,
                0 <= source < world,
                0 <= max_rows,
        ;
        let mine = gathered.subrange(shelf, shelf + world * max_rows);
        assert(mine == packed(blocks, max_rows, padding));
        assert(gathered.subrange(start, start + counts[source]) =~= mine.subrange(
            rank * max_rows,
            rank * max_rows + blocks[rank].len(),
        ));
    } else {
        assert(sent_to(sends, rank, sources) =~= Seq::empty());
    }
}

/// Result of one variable-count all-to-all fallback.
#[derive(Debug, Clone)]
pub struct ExchangeResult<R> {
    /// Received rows concatenated in source-rank order.
    pub received: RowBlock<R>,
    /// Number of logical rows received from every source rank.
    pub source_counts: Vec<usize>,
    /// Transport counters.
    pub statistics: RoutingStatistics,
}

/// Rows of several blocks together.
pub open spec fn rows_in<R>(blocks: Seq<RowBlock<R>>) -> int
    decreases blocks.len(),
{
    if blocks.len() == 0 {
        0
    } else {
        rows_in(blocks.drop_last()) + blocks.last().rows@.len()
    }
}

/// Sizes added up.
pub open spec fn sum_of(sizes: Seq<usize>) -> int
    decreases sizes.len(),
{
    if sizes.len() == 0 {
        0
    } else {
        sum_of(sizes.drop_last()) + sizes.last()
    }
}

/// Rows of the padded blocks of all ranks together.
pub open spec fn padded_rows(plan: ExchangePlan) -> int {
    plan.world * plan.world * plan.max_rows
}

/// The counters of one exchange.
pub open spec fn exchange_statistics<R>(
    blocks: Seq<RowBlock<R>>,
    plan: ExchangePlan,
    item_size: usize,
    synchronization_time: u128,
    exchange_time: u128,
) -> RoutingStatistics {
    RoutingStatistics {
        sent_routes: rows_in(blocks) as usize,
        received_routes: sum_of(plan.source_counts@) as usize,
        padding_routes: (padded_rows(plan) - plan.total_rows) as usize,
        synchronization_count: 1,
        exchanged_bytes: (padded_rows(plan) * (crate::array::elements(blocks[0].tail())
            * item_size)) as usize,
        synchronization_time,
        exchange_time,
        total_time: exchange_time,
        ..RoutingStatistics::zero()
    }
}

fn count_rows<R>(blocks: &Vec<RowBlock<R>>) -> (rows: usize)
    requires
        rows_in(blocks@) <= usize::MAX,
    ensures
        rows == rows_in(blocks@),
{
    let mut rows: usize = 0;
    let mut index: usize = 0;
    while index < blocks.len()
        invariant
            index <= blocks@.len(),
            rows_in(blocks@) <= usize::MAX,
            rows == rows_in(blocks@.take(index as int)),
        decreases blocks@.len() - index,
    {
        proof {
            assert(blocks@.take(index + 1).drop_last() =~= blocks@.take(index as int));
            rows_grow(blocks@, index + 1);
        }
        rows = rows + blocks[index].rows.len();
        index = index + 1;
    }
    assert(blocks@.take(index as int) =~= blocks@);
    rows
}

proof fn rows_grow<R>(blocks: Seq<RowBlock<R>>, length: int)
    requires
        0 <= length <= blocks.len(),
    ensures
        0 <= rows_in(blocks.take(length)) <= rows_in(blocks),
    decreases blocks.len(),
{
    if length == blocks.len() {
        assert(blocks.take(length) =~= blocks);
        if blocks.len() > 0 {
            assert(blocks.drop_last().take(length - 1) =~= blocks.drop_last());
            rows_grow(blocks.drop_last(), length - 1);
        }
    } else {
        assert(blocks.drop_last().take(length) =~= blocks.take(length));
        rows_grow(blocks.drop_last(), length);
    }
}

fn add_sizes(sizes: &Vec<usize>) -> (sum: usize)
    requires
        sum_of(sizes@) <= usize::MAX,
    ensures
        sum == sum_of(sizes@),
{
    let mut sum: usize = 0;
    let mut index: usize = 0;
    while index < sizes.len()
        invariant
            index <= sizes@.len(),
            sum_of(sizes@) <= usize::MAX,
            sum == sum_of(sizes@.take(index as int)),
        decreases sizes@.len() - index,
    {
        proof {
            assert(sizes@.take(index + 1).drop_last() =~= sizes@.take(index as int));
            sizes_grow(sizes@, index + 1);
        }
        sum = sum + sizes[index];
        index = index + 1;
    }
    assert(sizes@.take(index as int) =~= sizes@);
    sum
}

proof fn sizes_grow(sizes: Seq<usize>, length: int)
    requires
        0 <= length <= sizes.len(),
    ensures
        0 <= sum_of(sizes.take(length)) <= sum_of(sizes),
    decreases sizes.len(),
{
    if length == sizes.len() {
        assert(sizes.take(length) =~= sizes);
        if sizes.len() > 0 {
            assert(sizes.drop_last().take(length - 1) =~= sizes.drop_last());
            sizes_grow(sizes.drop_last(), length - 1);
        }
    } else {
        assert(sizes.drop_last().take(length) =~= sizes.take(length));
        sizes_grow(sizes.drop_last(), length);
    }
}

/// Multiplies the dimensions of a shape behind the leading one.
fn tail_elements(shape: &Vec<i32>) -> (count: usize)
    requires
        shape@.len() > 0,
        forall|i: int| 0 <= i < shape@.len() ==> 0 <= #[trigger] shape@[i],
        crate::array::elements_fit(shape@.drop_first(), usize::MAX as int),
    ensures
        count == crate::array::elements(shape@.drop_first()),
{
    let ghost tail = shape@.drop_first();
    let mut count: usize = 1;
    let mut index: usize = 1;
    assert(tail.take(0) =~= Seq::empty());
    while index < shape.len()
        invariant
            1 <= index <= shape@.len(),
            tail == shape@.drop_first(),
            forall|i: int| 0 <= i < shape@.len() ==> 0 <= #[trigger] shape@[i],
            crate::array::elements_fit(tail, usize::MAX as int),
            count == crate::array::elements(tail.take(index - 1)),
        decreases shape@.len() - index,
    {
        proof {
            let longer = tail.take(index as int);
            assert(longer.drop_last() =~= tail.take(index - 1));
            assert(longer.last() == shape@[index as int]);
            crate::array::elements_fit_before(tail, usize::MAX as int, index as int);
        }
        count = count * (shape[index] as usize);
        index = index + 1;
    }
    assert(tail.take(index - 1) =~= tail);
    count
}

/// Completes an exchange from what every rank gathered.
pub fn finish_exchange<R: Copy>(
    blocks: &Vec<RowBlock<R>>,
    plan: &ExchangePlan,
    gathered: &Vec<R>,
    item_size: usize,
    synchronization_time: u128,
    exchange_time: u128,
) -> (result: ExchangeResult<R>)
    requires
        blocks@.len() == plan.world,
        plan.rank < plan.world,
        blocks@[0].shape@.len() > 0,
        forall|i: int|
            0 <= i < blocks@[0].shape@.len() ==> 0 <= #[trigger] blocks@[0].shape@[i],
        plan.source_counts@.len() == plan.world,
        forall|s: int| 0 <= s < plan.world ==> #[trigger] plan.source_counts@[s] <= plan.max_rows,
        gathered@.len() == padded_rows(*plan),
        plan.total_rows <= padded_rows(*plan),
        rows_in(blocks@) <= usize::MAX,
        sum_of(plan.source_counts@) <= i32::MAX,
        crate::array::elements(blocks@[0].tail()) * item_size <= usize::MAX,
        crate::array::elements_fit(blocks@[0].tail(), usize::MAX as int),
        padded_rows(*plan) * (crate::array::elements(blocks@[0].tail()) * item_size) <= usize::MAX,
    ensures
        result.received.rows@ == received_rows(
            gathered@,
            plan.source_counts@,
            plan.world as int,
            plan.rank as int,
            plan.max_rows as int,
            plan.world as int,
        ),
        result.received.dtype == blocks@[0].dtype,
        result.received.shape@ == blocks@[0].shape@.update(0, sum_of(plan.source_counts@) as i32),
        result.source_counts@ == plan.source_counts@,
        result.statistics == exchange_statistics(
            blocks@,
            *plan,
            item_size,
            synchronization_time,
            exchange_time,
        ),
{
    let rows = plan.receive(gathered);
    let received_routes: usize = add_sizes(&plan.source_counts);
    let mut shape = crate::cache_residency::append::copy_shape(&blocks[0].shape);
    shape[0] = received_routes as i32;
    let row_bytes: usize = tail_elements(&blocks[0].shape) * item_size;
    let mut statistics = RoutingStatistics::default();
    statistics.sent_routes = count_rows(blocks);
    statistics.received_routes = received_routes;
    statistics.padding_routes = gathered.len() - plan.total_rows;
    statistics.synchronization_count = 1;
    statistics.synchronization_time = synchronization_time;
    statistics.exchange_time = exchange_time;
    statistics.total_time = exchange_time;
    statistics.exchanged_bytes = gathered.len() * row_bytes;
    ExchangeResult {
        received: RowBlock { shape, dtype: blocks[0].dtype, rows },
        source_counts: crate::expert_parallel::assignment::copy_sizes(&plan.source_counts),
        statistics,
    }
}

/// Destination-major route blocks for sharded-token expert dispatch: one block per
/// destination rank, with matching leading row counts.
#[derive(Debug, Clone)]
pub struct ShardedRouteBlocks<R, W> {
    /// Hidden activation rows addressed to each expert owner.
    pub hidden: Vec<RowBlock<R>>,
    /// Checkpoint-global expert ids for each row.
    pub global_expert_ids: Vec<RowBlock<i32>>,
    /// Original source-rank flattened route indices for each row.
    pub original_route_indices: Vec<RowBlock<i32>>,
    /// Route weights for each row, applied exactly once by the owner.
    pub weights: Vec<RowBlock<W>>,
    /// Number of top-k slots per source token.
    pub top_k: i32,
    /// Number of tokens owned by this source rank.
    pub source_tokens: i32,
}

/// Whether the fields of one destination do not have the same rows.
pub open spec fn destination_mismatched<R, W>(
    blocks: ShardedRouteBlocks<R, W>,
    destination: int,
) -> bool {
    let hidden = blocks.hidden@[destination].shape@;
    ||| hidden.len() != 2
    ||| blocks.global_expert_ids@[destination].shape@ != seq![hidden[0]]
    ||| blocks.original_route_indices@[destination].shape@ != seq![hidden[0]]
    ||| blocks.weights@[destination].shape@ != seq![hidden[0]]
}

/// The first destination whose fields do not have the same rows.
pub open spec fn first_mismatch<R, W>(
    blocks: ShardedRouteBlocks<R, W>,
    world: usize,
    from: int,
) -> Option<int>
    decreases world - from,
{
    if from >= world {
        None
    } else if destination_mismatched(blocks, from) {
        Some(from)
    } else {
        first_mismatch(blocks, world, from + 1)
    }
}

/// Why sharded route blocks are refused, if they are.
pub open spec fn sharded_blocks_failure<R, W>(
    blocks: ShardedRouteBlocks<R, W>,
    world: usize,
) -> Option<Failure> {
    if blocks.top_k <= 0 || blocks.source_tokens < 0 {
        Some(
            Failure::Parallel(
                "sharded dispatch requires positive top_k and nonnegative source token count"@,
            ),
        )
    } else if blocks.hidden@.len() != world || blocks.global_expert_ids@.len() != world
        || blocks.original_route_indices@.len() != world || blocks.weights@.len() != world {
        Some(
            Failure::Parallel(
                "sharded dispatch requires "@ + crate::text::decimal(world as nat)
                    + " blocks for every payload and metadata field"@,
            ),
        )
    } else {
        match first_mismatch(blocks, world, 0) {
            Some(destination) => Some(
                Failure::Parallel(
                    "destination "@ + crate::text::decimal(destination as nat)
                        + " sharded route fields have inconsistent row counts"@,
                ),
            ),
            None => None,
        }
    }
}

fn is_vector_of(shape: &Vec<i32>, rows: i32) -> (same: bool)
    ensures
        same == (shape@ == seq![rows]),
{
    let same = shape.len() == 1 && shape[0] == rows;
    proof {
        if same {
            assert(shape@ =~= seq![rows]);
        }
    }
    same
}

/// Checks that sharded route blocks belong to a group and have one block of matching
/// rows per destination. Answers how many routes this rank sends.
pub fn begin_sharded_dispatch<R, W>(
    blocks: &ShardedRouteBlocks<R, W>,
    assignment: &ExpertAssignment,
    group_rank: usize,
    group_size: usize,
) -> (outcome: Result<usize, Error>)
    requires
        forall|i: int|
            0 <= i < blocks.hidden@.len() ==> (#[trigger] blocks.hidden@[i]).shape@.len() > 0,
        rows_in(blocks.hidden@) <= usize::MAX,
    ensures
        crate::error::failed(outcome) == (match crate::expert_parallel::routes::group_failure(
            assignment@,
            group_rank,
            group_size,
        ) {
            Some(failure) => Some(failure),
            None => sharded_blocks_failure(*blocks, group_size),
        }),
        outcome matches Ok(routes) ==> routes == rows_in(blocks.hidden@),
{
    match check_group(assignment, group_rank, group_size) {
        Ok(_) => {},
        Err(error) => {
            return Err(error);
        },
    }
    if blocks.top_k <= 0 || blocks.source_tokens < 0 {
        return Err(
            Error::Parallel(
                "sharded dispatch requires positive top_k and nonnegative source token count".to_owned(),
            ),
        );
    }
    if blocks.hidden.len() != group_size || blocks.global_expert_ids.len() != group_size
        || blocks.original_route_indices.len() != group_size || blocks.weights.len()
        != group_size {
        let mut text = "sharded dispatch requires ".to_owned();
        text.append(usize_text(group_size).as_str());
        text.append(" blocks for every payload and metadata field");
        return Err(Error::Parallel(text));
    }
    let mut destination: usize = 0;
    while destination < group_size
        invariant
            destination <= group_size,
            blocks.top_k > 0,
            blocks.source_tokens >= 0,
            blocks.hidden@.len() == group_size,
            blocks.global_expert_ids@.len() == group_size,
            blocks.original_route_indices@.len() == group_size,
            blocks.weights@.len() == group_size,
            crate::expert_parallel::routes::group_failure(assignment@, group_rank, group_size) is None,
            forall|i: int|
                0 <= i < blocks.hidden@.len() ==> (#[trigger] blocks.hidden@[i]).shape@.len() > 0,
            first_mismatch(*blocks, group_size, 0) == first_mismatch(
                *blocks,
                group_size,
                destination as int,
            ),
        decreases group_size - destination,
    {
        assert(blocks.hidden@[destination as int].shape@.len() > 0);
        let rows: i32 = blocks.hidden[destination].shape[0];
        if blocks.hidden[destination].shape.len() != 2 || !is_vector_of(
            &blocks.global_expert_ids[destination].shape,
            rows,
        ) || !is_vector_of(&blocks.original_route_indices[destination].shape, rows)
            || !is_vector_of(&blocks.weights[destination].shape, rows) {
            let mut text = "destination ".to_owned();
            text.append(usize_text(destination).as_str());
            text.append(" sharded route fields have inconsistent row counts");
            return Err(Error::Parallel(text));
        }
        destination = destination + 1;
    }
    Ok(count_rows(&blocks.hidden))
}

fn same_sizes(left: &Vec<usize>, right: &Vec<usize>) -> (same: bool)
    ensures
        same == (left@ == right@),
{
    if left.len() != right.len() {
        return false;
    }
    let mut index: usize = 0;
    while index < left.len()
        invariant
            index <= left@.len(),
            left@.len() == right@.len(),
            forall|i: int| 0 <= i < index ==> left@[i] == right@[i],
        decreases left@.len() - index,
    {
        if left[index] != right[index] {
            return false;
        }
        index = index + 1;
    }
    assert(left@ =~= right@);
    true
}

/// Checks that the payload and the metadata of received routes have the same rows from
/// every source.
pub fn check_receive_counts(
    hidden: &Vec<usize>,
    global_ids: &Vec<usize>,
    route_indices: &Vec<usize>,
    weights: &Vec<usize>,
) -> (outcome: Result<(), Error>)
    ensures
        crate::error::failed(outcome) == (if hidden@ != global_ids@ || hidden@ != route_indices@
            || hidden@ != weights@ {
            Some(
                Failure::Parallel("sharded route payload and metadata receive counts diverged"@),
            )
        } else {
            None
        }),
{
    if !same_sizes(hidden, global_ids) || !same_sizes(hidden, route_indices) || !same_sizes(
        hidden,
        weights,
    ) {
        return Err(
            Error::Parallel(
                "sharded route payload and metadata receive counts diverged".to_owned(),
            ),
        );
    }
    Ok(())
}

/// Checks that returned outputs and route indices have the same rows from every owner.
pub fn check_returned_counts(outputs: &Vec<usize>, indices: &Vec<usize>) -> (outcome: Result<
    (),
    Error,
>)
    ensures
        crate::error::failed(outcome) == (if outputs@ != indices@ {
            Some(Failure::Parallel("returned sharded outputs and route indices diverged"@))
        } else {
            None
        }),
{
    if !same_sizes(outputs, indices) {
        return Err(
            Error::Parallel("returned sharded outputs and route indices diverged".to_owned()),
        );
    }
    Ok(())
}

/// Translates received global expert ids to owner-local ids.
pub fn localize_expert_ids(ids: &Vec<i32>, assignment: &ExpertAssignment) -> (locals: Vec<usize>)
    requires
        crate::expert_parallel::routes::routes_valid(ids@, assignment@),
    ensures
        locals@.len() == ids@.len(),
        forall|i: int|
            0 <= i < ids@.len() ==> (#[trigger] locals@[i]) as int == assignment@.local_id(
                ids@[i] as int,
            ),
{
    let table = assignment.owner_local_ids();
    let mut locals: Vec<usize> = Vec::new();
    let mut index: usize = 0;
    while index < ids.len()
        invariant
            index <= ids@.len(),
            crate::expert_parallel::routes::routes_valid(ids@, assignment@),
            table@.len() == assignment@.owners.len(),
            forall|i: int|
                0 <= i < table@.len() ==> (#[trigger] table@[i]) as int == assignment@.local_id(i),
            locals@.len() == index,
            forall|i: int|
                0 <= i < index ==> (#[trigger] locals@[i]) as int == assignment@.local_id(
                    ids@[i] as int,
                ),
        decreases ids@.len() - index,
    {
        assert(crate::expert_parallel::routes::route_valid(ids@, assignment@, index as int));
        locals.push(table[ids[index] as usize]);
        index = index + 1;
    }
    locals
}

/// The rows of every source out of joined rows.
pub open spec fn split_rows<R>(rows: Seq<R>, counts: Seq<usize>) -> Seq<Seq<R>>
    decreases counts.len(),
{
    if counts.len() == 0 {
        Seq::empty()
    } else {
        let start = sum_of(counts.drop_last());
        split_rows(rows, counts.drop_last()).push(rows.subrange(start, start + counts.last()))
    }
}

/// Splits received rows by the rank that they came from, to be sent back there.
pub fn split_by_source<R: Copy>(rows: &Vec<R>, counts: &Vec<usize>) -> (blocks: Vec<Vec<R>>)
    requires
        sum_of(counts@) == rows@.len(),
    ensures
        blocks@.len() == counts@.len(),
        forall|s: int|
            0 <= s < counts@.len() ==> (#[trigger] blocks@[s])@ == split_rows(rows@, counts@)[s],
{
    let mut blocks: Vec<Vec<R>> = Vec::new();
    let length: usize = rows.len();
    let mut offset: usize = 0;
    let mut source: usize = 0;
    while source < counts.len()
        invariant
            source <= counts@.len(),
            length == rows@.len(),
            sum_of(counts@) == rows@.len(),
            offset == sum_of(counts@.take(source as int)),
            blocks@.len() == source,
            split_rows(rows@, counts@.take(source as int)).len() == source,
            forall|s: int|
                0 <= s < source ==> (#[trigger] blocks@[s])@ == split_rows(
                    rows@,
                    counts@.take(source as int),
                )[s],
        decreases counts@.len() - source,
    {
        let ghost longer = counts@.take(source + 1);
        proof {
            assert(longer.drop_last() =~= counts@.take(source as int));
            sizes_grow(counts@, source + 1);
        }
        let count: usize = counts[source];
        let mut block: Vec<R> = Vec::new();
        let mut row: usize = 0;
        while row < count
            invariant
                row <= count,
                length == rows@.len(),
                offset + count <= length,
                block@ == rows@.subrange(offset as int, offset + row),
            decreases count - row,
        {
            block.push(rows[offset + row]);
            row = row + 1;
            assert(block@ =~= rows@.subrange(offset as int, offset + row));
        }
        assert(block@ =~= rows@.subrange(offset as int, offset + row));
        blocks.push(block);
        offset = offset + count;
        source = source + 1;
    }
    assert(counts@.take(source as int) =~= counts@);
    blocks
}

/// Splitting joined rows by their counts gives back the blocks that were joined: what
/// an owner returns to a source is, row for row, about what that source sent it.
pub proof fn split_inverts_join<R>(blocks: Seq<Seq<R>>, counts: Seq<usize>, rest: Seq<R>)
    requires
        counts.len() == blocks.len(),
        forall|i: int|
            0 <= i < counts.len() ==> (#[trigger] counts[i]) as int == blocks[i].len(),
    ensures
        sum_of(counts) == joined_rows(blocks).len(),
        split_rows(joined_rows(blocks) + rest, counts) == blocks,
    decreases blocks.len(),
{
    if blocks.len() > 0 {
        let fewer = blocks.drop_last();
        let fewer_counts = counts.drop_last();
        let last = blocks.last();
        assert forall|i: int| 0 <= i < fewer_counts.len() implies (
        #[trigger] fewer_counts[i]) as int == fewer[i].len() by {
            assert(fewer_counts[i] == counts[i]);
        }
        split_inverts_join(fewer, fewer_counts, last + rest);
        assert(counts[counts.len() - 1] as int == last.len());
        let start = joined_rows(fewer).len() as int;
        assert(joined_rows(fewer) + (last + rest) =~= joined_rows(blocks) + rest);
        assert((joined_rows(blocks) + rest).subrange(start, start + last.len()) =~= last);
        assert(split_rows(joined_rows(blocks) + rest, counts) =~= blocks);
    } else {
        assert(split_rows(joined_rows(blocks) + rest, counts) =~= blocks);
    }
}

/// Token that a route index belongs to, with so many routes for each token.
pub fn tokens_of_routes(indices: &Vec<i32>, top_k: i32) -> (tokens: Vec<usize>)
    requires
        top_k > 0,
        forall|i: int| 0 <= i < indices@.len() ==> 0 <= #[trigger] indices@[i],
    ensures
        tokens@.len() == indices@.len(),
        forall|i: int|
            0 <= i < indices@.len() ==> (#[trigger] tokens@[i]) as int == indices@[i] as int
                / top_k as int,
{
    let mut tokens: Vec<usize> = Vec::new();
    let mut index: usize = 0;
    while index < indices.len()
        invariant
            index <= indices@.len(),
            top_k > 0,
            forall|i: int| 0 <= i < indices@.len() ==> 0 <= #[trigger] indices@[i],
            tokens@.len() == index,
            forall|i: int|
                0 <= i < index ==> (#[trigger] tokens@[i]) as int == indices@[i] as int
                    / top_k as int,
        decreases indices@.len() - index,
    {
        let route: usize = indices[index] as usize;
        tokens.push(route / (top_k as usize));
        index = index + 1;
    }
    tokens
}

/// Transport counters of several exchanges together.
pub open spec fn transport_of(
    base: RoutingStatistics,
    exchanges: Seq<RoutingStatistics>,
) -> RoutingStatistics
    decreases exchanges.len(),
{
    if exchanges.len() == 0 {
        base
    } else {
        let before = transport_of(base, exchanges.drop_last());
        let exchange = exchanges.last();
        RoutingStatistics {
            padding_routes: (before.padding_routes + exchange.padding_routes) as usize,
            synchronization_count: (before.synchronization_count
                + exchange.synchronization_count) as usize,
            exchanged_bytes: (before.exchanged_bytes + exchange.exchanged_bytes) as usize,
            synchronization_time: (before.synchronization_time
                + exchange.synchronization_time) as u128,
            exchange_time: (before.exchange_time + exchange.exchange_time) as u128,
            ..before
        }
    }
}

/// Whether the transport counters of several exchanges add up within machine integers.
pub open spec fn transport_fits(
    base: RoutingStatistics,
    exchanges: Seq<RoutingStatistics>,
) -> bool
    decreases exchanges.len(),
{
    if exchanges.len() == 0 {
        true
    } else {
        let before = transport_of(base, exchanges.drop_last());
        let exchange = exchanges.last();
        &&& transport_fits(base, exchanges.drop_last())
        &&& before.padding_routes + exchange.padding_routes <= usize::MAX
        &&& before.synchronization_count + exchange.synchronization_count <= usize::MAX
        &&& before.exchanged_bytes + exchange.exchanged_bytes <= usize::MAX
        &&& before.synchronization_time + exchange.synchronization_time <= u128::MAX
        &&& before.exchange_time + exchange.exchange_time <= u128::MAX
    }
}

proof fn transport_fits_before(
    base: RoutingStatistics,
    exchanges: Seq<RoutingStatistics>,
    length: int,
)
    requires
        0 <= length <= exchanges.len(),
        transport_fits(base, exchanges),
    ensures
        transport_fits(base, exchanges.take(length)),
    decreases exchanges.len(),
{
    if length == exchanges.len() {
        assert(exchanges.take(length) =~= exchanges);
    } else {
        transport_fits_before(base, exchanges.drop_last(), length);
        assert(exchanges.drop_last().take(length) =~= exchanges.take(length));
    }
}

/// What one sharded dispatch took, in nanoseconds.
#[derive(Debug, Clone, Copy, PartialEq, Eq, Structural)]
pub struct ShardedTimings {
    /// Executing local experts.
    pub expert: u128,
    /// Recombining routed outputs.
    pub reduction: u128,
    /// The whole dispatch.
    pub total: u128,
}

/// Counters of one sharded dispatch over its exchanges.
pub fn sharded_statistics(
    total_routes: usize,
    received_routes: usize,
    exchanges: &Vec<RoutingStatistics>,
    timings: ShardedTimings,
) -> (statistics: RoutingStatistics)
    requires
        transport_fits(RoutingStatistics::zero(), exchanges@),
    ensures
        statistics == (RoutingStatistics {
            total_routes,
            local_routes: received_routes,
            sent_routes: total_routes,
            received_routes,
            expert_time: timings.expert,
            reduction_time: timings.reduction,
            total_time: timings.total,
            ..transport_of(RoutingStatistics::zero(), exchanges@)
        }),
{
    let mut statistics = RoutingStatistics::default();
    let ghost zero = RoutingStatistics::zero();
    let mut index: usize = 0;
    assert(exchanges@.take(0) =~= Seq::empty());
    while index < exchanges.len()
        invariant
            index <= exchanges@.len(),
            zero == RoutingStatistics::zero(),
            transport_fits(zero, exchanges@),
            statistics == transport_of(zero, exchanges@.take(index as int)),
        decreases exchanges@.len() - index,
    {
        proof {
            transport_fits_before(zero, exchanges@, index + 1);
            assert(exchanges@.take(index + 1).drop_last() =~= exchanges@.take(index as int));
        }
        let exchange = exchanges[index];
        statistics.padding_routes = statistics.padding_routes + exchange.padding_routes;
        statistics.synchronization_count = statistics.synchronization_count
            + exchange.synchronization_count;
        statistics.exchanged_bytes = statistics.exchanged_bytes + exchange.exchanged_bytes;
        statistics.synchronization_time = statistics.synchronization_time
            + exchange.synchronization_time;
        statistics.exchange_time = statistics.exchange_time + exchange.exchange_time;
        index = index + 1;
    }
    assert(exchanges@.take(index as int) =~= exchanges@);
    statistics.total_routes = total_routes;
    statistics.local_routes = received_routes;
    statistics.sent_routes = total_routes;
    statistics.received_routes = received_routes;
    statistics.expert_time = timings.expert;
    statistics.reduction_time = timings.reduction;
    statistics.total_time = timings.total;
    statistics
}

/// Blocks are accepted exactly where every rank gets one and their rows can stand in one
/// array: each has a leading axis, and any two have the same element type and the same
/// dimensions behind the leading one.
pub proof fn accepted_blocks_share_one_row_shape<R>(blocks: Seq<RowBlock<R>>, world: usize)
    ensures
        blocks_failure(blocks, world) is None <==> {
            &&& blocks.len() == world
            &&& world > 0
            &&& forall|i: int| 0 <= i < blocks.len() ==> (#[trigger] blocks[i]).shape@.len() > 0
            &&& forall|i: int, j: int|
                0 <= i < blocks.len() && 0 <= j < blocks.len() ==> {
                    &&& (#[trigger] blocks[i]).dtype == (#[trigger] blocks[j]).dtype
                    &&& blocks[i].shape@.len() == blocks[j].shape@.len()
                    &&& forall|d: int|
                        1 <= d < blocks[i].shape@.len() ==> #[trigger] blocks[i].shape@[d]
                            == blocks[j].shape@[d]
                }
        },
{
    let alike = forall|i: int, j: int|
        0 <= i < blocks.len() && 0 <= j < blocks.len() ==> {
            &&& (#[trigger] blocks[i]).dtype == (#[trigger] blocks[j]).dtype
            &&& blocks[i].shape@.len() == blocks[j].shape@.len()
            &&& forall|d: int|
                1 <= d < blocks[i].shape@.len() ==> #[trigger] blocks[i].shape@[d]
                    == blocks[j].shape@[d]
        };
    let ranked = forall|i: int| 0 <= i < blocks.len() ==> (#[trigger] blocks[i]).shape@.len() > 0;
    if blocks_failure(blocks, world) is None {
        assert forall|i: int, j: int| 0 <= i < blocks.len() && 0 <= j < blocks.len() implies {
            &&& (#[trigger] blocks[i]).dtype == (#[trigger] blocks[j]).dtype
            &&& blocks[i].shape@.len() == blocks[j].shape@.len()
            &&& forall|d: int|
                1 <= d < blocks[i].shape@.len() ==> #[trigger] blocks[i].shape@[d]
                    == blocks[j].shape@[d]
        } by {
            assert(blocks[i].tail() == blocks[0].tail() && blocks[j].tail() == blocks[0].tail());
            assert(blocks[i].tail().len() == blocks[j].tail().len());
            assert forall|d: int| 1 <= d < blocks[i].shape@.len() implies #[trigger] blocks[i].shape@[d]
                == blocks[j].shape@[d] by {
                assert(blocks[i].tail()[d - 1] == blocks[j].tail()[d - 1]);
            }
        }
    }
    if blocks.len() == world && world > 0 && ranked && alike {
        assert forall|i: int| 0 <= i < blocks.len() implies (#[trigger] blocks[i]).tail()
            == blocks[0].tail() by {
            assert(blocks[i].shape@.len() == blocks[0].shape@.len());
            assert(blocks[i].tail() =~= blocks[0].tail());
        }
    }
}

/// Padding is as small as it can be: it holds every block, and where it is not zero some
/// block fills it.
pub proof fn padding_fits_the_largest_block(counts: Seq<i32>)
    ensures
        forall|i: int| 0 <= i < counts.len() ==> #[trigger] counts[i] <= largest(counts),
        largest(counts) >= 0,
        largest(counts) == 0 || exists|i: int|
            0 <= i < counts.len() && #[trigger] counts[i] == largest(counts),
    decreases counts.len(),
{
    if counts.len() > 0 {
        let before = counts.drop_last();
        padding_fits_the_largest_block(before);
        assert forall|i: int| 0 <= i < counts.len() implies #[trigger] counts[i] <= largest(
            counts,
        ) by {
            if i < before.len() {
                assert(before[i] == counts[i]);
            }
        }
        if largest(counts) != 0 {
            if counts.last() == largest(counts) {
                assert(counts[counts.len() - 1] == largest(counts));
            } else {
                let i = choose|i: int| 0 <= i < before.len() && before[i] == largest(before);
                assert(counts[i] == before[i]);
            }
        }
    }
}

/// Rows add up: no rows make none, one count makes itself, and two lists of counts make
/// together what each of them makes.
pub proof fn row_counts_add_up(left: Seq<i32>, right: Seq<i32>, count: i32)
    ensures
        total(Seq::empty()) == 0,
        total(seq![count]) == count,
        total(left + right) == total(left) + total(right),
    decreases right.len(),
{
    reveal_with_fuel(total, 2);
    assert(seq![count].drop_last() =~= Seq::empty());
    if right.len() == 0 {
        assert(left + right =~= left);
    } else {
        row_counts_add_up(left, right.drop_last(), count);
        assert((left + right).drop_last() =~= left + right.drop_last());
    }
}

/// Sizes add up: no sizes make none, one size makes itself, and two lists of sizes make
/// together what each of them makes.
pub proof fn sizes_add_up(left: Seq<usize>, right: Seq<usize>, size: usize)
    ensures
        sum_of(Seq::empty()) == 0,
        sum_of(seq![size]) == size,
        sum_of(left + right) == sum_of(left) + sum_of(right),
    decreases right.len(),
{
    reveal_with_fuel(sum_of, 2);
    assert(seq![size].drop_last() =~= Seq::empty());
    if right.len() == 0 {
        assert(left + right =~= left);
    } else {
        sizes_add_up(left, right.drop_last(), size);
        assert((left + right).drop_last() =~= left + right.drop_last());
    }
}

/// Rows of blocks add up: one block has its own rows, and two lists of blocks have
/// together what each of them has.
pub proof fn block_rows_add_up<R>(
    left: Seq<RowBlock<R>>,
    right: Seq<RowBlock<R>>,
    block: RowBlock<R>,
)
    ensures
        rows_in(Seq::<RowBlock<R>>::empty()) == 0,
        rows_in(seq![block]) == block.rows@.len(),
        rows_in(left + right) == rows_in(left) + rows_in(right),
    decreases right.len(),
{
    reveal_with_fuel(rows_in, 2);
    assert(seq![block].drop_last() =~= Seq::<RowBlock<R>>::empty());
    if right.len() == 0 {
        assert(left + right =~= left);
    } else {
        block_rows_add_up(left, right.drop_last(), block);
        assert((left + right).drop_last() =~= left + right.drop_last());
    }
}

/// An exchange moves the rows of all ranks and their padding, and nothing else: padding
/// and real rows together fill one block of the largest size for every pair of ranks, and
/// the exchanged bytes are those of that many rows.
pub proof fn exchanges_move_rows_and_padding<R>(
    blocks: Seq<RowBlock<R>>,
    plan: ExchangePlan,
    item_size: usize,
    synchronization_time: u128,
    exchange_time: u128,
)
    requires
        rows_in(blocks) <= usize::MAX,
        0 <= sum_of(plan.source_counts@) <= usize::MAX,
        plan.total_rows <= plan.world * plan.world * plan.max_rows <= usize::MAX,
        0 <= plan.world * plan.world * plan.max_rows * (crate::array::elements(blocks[0].tail())
            * item_size) <= usize::MAX,
    ensures
        ({
            let statistics = exchange_statistics(
                blocks,
                plan,
                item_size,
                synchronization_time,
                exchange_time,
            );
            let moved = statistics.padding_routes + plan.total_rows;
            &&& moved == plan.world * plan.world * plan.max_rows
            &&& statistics.exchanged_bytes == moved * (crate::array::elements(blocks[0].tail())
                * item_size)
            &&& statistics.sent_routes == rows_in(blocks)
            &&& statistics.received_routes == sum_of(plan.source_counts@)
            &&& statistics.synchronization_count == 1
            &&& statistics.synchronization_time == synchronization_time
            &&& statistics.exchange_time == exchange_time
            &&& statistics.total_time == exchange_time
            &&& statistics.total_routes == 0
            &&& statistics.local_routes == 0
        }),
{
    rows_are_counted(blocks);
}

proof fn rows_are_counted<R>(blocks: Seq<RowBlock<R>>)
    ensures
        0 <= rows_in(blocks),
    decreases blocks.len(),
{
    if blocks.len() > 0 {
        rows_are_counted(blocks.drop_last());
    }
}

/// Sharded route blocks are accepted exactly where they say what to do with every row:
/// each rank gets one block of every field, and the fields of one destination have one
/// row for each of its routes.
pub proof fn accepted_sharded_blocks_agree<R, W>(blocks: ShardedRouteBlocks<R, W>, world: usize)
    ensures
        sharded_blocks_failure(blocks, world) is None <==> {
            &&& blocks.top_k > 0
            &&& blocks.source_tokens >= 0
            &&& blocks.hidden@.len() == world
            &&& blocks.global_expert_ids@.len() == world
            &&& blocks.original_route_indices@.len() == world
            &&& blocks.weights@.len() == world
            &&& forall|d: int|
                0 <= d < world ==> {
                    let hidden = (#[trigger] blocks.hidden@[d]).shape@;
                    &&& hidden.len() == 2
                    &&& blocks.global_expert_ids@[d].shape@.len() == 1
                    &&& blocks.global_expert_ids@[d].shape@[0] == hidden[0]
                    &&& blocks.original_route_indices@[d].shape@.len() == 1
                    &&& blocks.original_route_indices@[d].shape@[0] == hidden[0]
                    &&& blocks.weights@[d].shape@.len() == 1
                    &&& blocks.weights@[d].shape@[0] == hidden[0]
                }
        },
{
    mismatches_are_found(blocks, world, 0);
    assert forall|d: int| 0 <= d < world implies ({
        let hidden = (#[trigger] blocks.hidden@[d]).shape@;
        &&& hidden.len() == 2
        &&& blocks.global_expert_ids@[d].shape@.len() == 1
        &&& blocks.global_expert_ids@[d].shape@[0] == hidden[0]
        &&& blocks.original_route_indices@[d].shape@.len() == 1
        &&& blocks.original_route_indices@[d].shape@[0] == hidden[0]
        &&& blocks.weights@[d].shape@.len() == 1
        &&& blocks.weights@[d].shape@[0] == hidden[0]
    } <==> !destination_mismatched(blocks, d)) by {
        let hidden = blocks.hidden@[d].shape@;
        one_dimension(blocks.global_expert_ids@[d].shape@, hidden[0]);
        one_dimension(blocks.original_route_indices@[d].shape@, hidden[0]);
        one_dimension(blocks.weights@[d].shape@, hidden[0]);
    }
}

proof fn one_dimension(shape: Seq<i32>, rows: i32)
    ensures
        shape == seq![rows] <==> shape.len() == 1 && shape[0] == rows,
{
    if shape.len() == 1 && shape[0] == rows {
        assert(shape =~= seq![rows]);
    }
}

proof fn mismatches_are_found<R, W>(blocks: ShardedRouteBlocks<R, W>, world: usize, from: int)
    requires
        0 <= from,
    ensures
        first_mismatch(blocks, world, from) is None <==> forall|d: int|
            #![trigger blocks.hidden@[d]]
            from <= d < world ==> !destination_mismatched(blocks, d),
        first_mismatch(blocks, world, from) is Some ==> from <= first_mismatch(
            blocks,
            world,
            from,
        )->Some_0 < world,
    decreases world - from,
{
    if from < world {
        mismatches_are_found(blocks, world, from + 1);
        let here = blocks.hidden@[from];
        if first_mismatch(blocks, world, from) is Some {
            let at = blocks.hidden@[first_mismatch(blocks, world, from)->Some_0];
        }
    }
}

/// The transport counters of several exchanges are sums over them, and exchanges leave
/// every other counter as it was.
pub proof fn transports_only_add(
    base: RoutingStatistics,
    exchanges: Seq<RoutingStatistics>,
    exchange: RoutingStatistics,
)
    requires
        transport_fits(base, exchanges.push(exchange)),
    ensures
        ({
            let before = transport_of(base, exchanges);
            let after = transport_of(base, exchanges.push(exchange));
            &&& after.padding_routes == before.padding_routes + exchange.padding_routes
            &&& after.synchronization_count == before.synchronization_count
                + exchange.synchronization_count
            &&& after.exchanged_bytes == before.exchanged_bytes + exchange.exchanged_bytes
            &&& after.synchronization_time == before.synchronization_time
                + exchange.synchronization_time
            &&& after.exchange_time == before.exchange_time + exchange.exchange_time
            &&& after.total_routes == base.total_routes
            &&& after.local_routes == base.local_routes
            &&& after.sent_routes == base.sent_routes
            &&& after.received_routes == base.received_routes
            &&& after.router_time == base.router_time
            &&& after.compaction_time == base.compaction_time
            &&& after.expert_time == base.expert_time
            &&& after.reduction_time == base.reduction_time
            &&& after.shared_expert_time == base.shared_expert_time
            &&& after.total_time == base.total_time
            &&& after.model_time == base.model_time
        }),
{
    assert(exchanges.push(exchange).drop_last() =~= exchanges);
    transports_keep_the_rest(base, exchanges);
}

proof fn transports_keep_the_rest(base: RoutingStatistics, exchanges: Seq<RoutingStatistics>)
    ensures
        ({
            let after = transport_of(base, exchanges);
            &&& after.total_routes == base.total_routes
            &&& after.local_routes == base.local_routes
            &&& after.sent_routes == base.sent_routes
            &&& after.received_routes == base.received_routes
            &&& after.router_time == base.router_time
            &&& after.compaction_time == base.compaction_time
            &&& after.expert_time == base.expert_time
            &&& after.reduction_time == base.reduction_time
            &&& after.shared_expert_time == base.shared_expert_time
            &&& after.total_time == base.total_time
            &&& after.model_time == base.model_time
        }),
    decreases exchanges.len(),
{
    if exchanges.len() > 0 {
        transports_keep_the_rest(base, exchanges.drop_last());
    }
}

/// A rank plans to receive from each source what that source sends to it: where every
/// source reports the sizes of its blocks in rank order, the planned count of a source
/// is the size of its block for this rank, and no block is longer than the padding.
pub proof fn plans_follow_the_sent_blocks<R>(
    plan: ExchangePlan,
    sends: Seq<Seq<Seq<R>>>,
    rank: usize,
    counts: Seq<i32>,
    source: int,
    destination: int,
)
    requires
        sends.len() <= usize::MAX,
        0 <= source < sends.len(),
        0 <= destination < sends.len(),
        0 <= rank < sends.len(),
        counts.len() == sends.len() * sends.len(),
        forall|s: int, d: int|
            0 <= s < sends.len() && 0 <= d < sends.len() ==> counts[s * sends.len() + d]
                == #[trigger] sends[s][d].len(),
        plan.plans(sends.len() as usize, rank, counts),
    ensures
        plan.source_counts@[source] == sends[source][rank as int].len(),
        sends[source][destination].len() <= plan.max_rows,
{
    padding_fits_the_largest_block(counts);
    let world = sends.len() as int;
    assert(0 <= source * world + destination < world * world) by (nonlinear_arith)
        requires
            0 <= source < world,
            0 <= destination < world,
    ;
    let here = plan.source_counts@[source];
    assert(counts[source * world + rank] == sends[source][rank as int].len());
    assert(counts[source * world + destination] == sends[source][destination].len());
}

/// Returned routes find their token: a token's routes are the `top_k` that follow one
/// another from its own place on.
pub proof fn routes_find_their_token(indices: Vec<i32>, top_k: i32, tokens: Vec<usize>, i: int)
    requires
        top_k > 0,
        forall|k: int| 0 <= k < indices@.len() ==> 0 <= #[trigger] indices@[k],
        call_ensures(tokens_of_routes, (&indices, top_k), tokens),
        0 <= i < indices@.len(),
    ensures
        tokens@.len() == indices@.len(),
        tokens@[i] * top_k <= indices@[i] < (tokens@[i] + 1) * top_k,
{
    let index = indices@[i] as int;
    let width = top_k as int;
    let token = tokens@[i] as int;
    assert(token == index / width);
    assert((index / width) * width <= index < (index / width + 1) * width) by (nonlinear_arith)
        requires
            0 <= index,
            0 < width,
    ;
}

/// Received routes run on the expert that they name: the owner-local expert of a route
/// that this rank owns is that very expert.
pub proof fn received_routes_run_on_their_expert(
    ids: Vec<i32>,
    assignment: ExpertAssignment,
    locals: Vec<usize>,
    i: int,
)
    requires
        assignment@.valid(),
        crate::expert_parallel::routes::routes_valid(ids@, assignment@),
        call_ensures(localize_expert_ids, (&ids, &assignment), locals),
        0 <= i < ids@.len(),
        assignment@.owners[ids@[i] as int] == assignment@.rank,
    ensures
        locals@.len() == ids@.len(),
        locals@[i] < assignment@.local_experts().len(),
        assignment@.local_experts()[locals@[i] as int] == ids@[i],
{
    assert(crate::expert_parallel::routes::route_valid(ids@, assignment@, i));
    let here = locals@[i];
    crate::expert_parallel::assignment::assignment_round_trips(assignment@, ids@[i] as int, 0);
}

/// Received routes are taken only where every field came with as many rows from every
/// source.
pub proof fn taken_routes_have_all_fields(
    hidden: Vec<usize>,
    global_ids: Vec<usize>,
    route_indices: Vec<usize>,
    weights: Vec<usize>,
    checked: Result<(), Error>,
)
    requires
        call_ensures(
            check_receive_counts,
            (&hidden, &global_ids, &route_indices, &weights),
            checked,
        ),
    ensures
        checked is Ok <==> hidden@ == global_ids@ && hidden@ == route_indices@ && hidden@
            == weights@,
{
}

/// A sharded dispatch counts what it sent and what it executed, and takes its transport
/// from its exchanges.
pub proof fn sharded_dispatches_count_both_ways(
    total_routes: usize,
    received_routes: usize,
    exchanges: Vec<RoutingStatistics>,
    timings: ShardedTimings,
    statistics: RoutingStatistics,
)
    requires
        transport_fits(RoutingStatistics::zero(), exchanges@),
        call_ensures(
            sharded_statistics,
            (total_routes, received_routes, &exchanges, timings),
            statistics,
        ),
    ensures
        statistics.total_routes == total_routes,
        statistics.sent_routes == total_routes,
        statistics.received_routes == received_routes,
        statistics.local_routes == received_routes,
        statistics.expert_time == timings.expert,
        statistics.reduction_time == timings.reduction,
        statistics.total_time == timings.total,
        ({
            let transport = transport_of(RoutingStatistics::zero(), exchanges@);
            &&& statistics.padding_routes == transport.padding_routes
            &&& statistics.exchanged_bytes == transport.exchanged_bytes
            &&& statistics.synchronization_count == transport.synchronization_count
        }),
{
}

} // verus!
