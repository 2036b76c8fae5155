//! Rows of arrays along one axis: joining, cutting, padding and overwriting.

use vstd::prelude::*;

verus! {

/// So many copies of a row.
pub open spec fn repeated<R>(row: R, count: nat) -> Seq<R> {
    Seq::new(count, |i: int| row)
}

/// Copies the rows from `start` up to `end`.
pub fn copy_rows<R: Copy>(rows: &Vec<R>, start: usize, end: usize) -> (part: Vec<R>)
    requires
        start <= end <= rows@.len(),
    ensures
        part@ == rows@.subrange(start as int, end as int),
{
    let mut part: Vec<R> = Vec::new();
    let mut index: usize = start;
    while index < end
        invariant
            start <= index <= end <= rows@.len(),
            part@ == rows@.subrange(start as int, index as int),
        decreases end - index,
    {
        part.push(rows[index]);
        index = index + 1;
        assert(part@ =~= rows@.subrange(start as int, index as int));
    }
    part
}

/// Puts rows behind other rows.
pub fn extend_rows<R: Copy>(rows: &mut Vec<R>, more: &Vec<R>)
    ensures
        final(rows)@ == old(rows)@ + more@,
{
    let ghost before = rows@;
    let mut index: usize = 0;
    assert(before + more@.take(0) =~= before);
    while index < more.len()
        invariant
            index <= more@.len(),
            rows@ == before + more@.take(index as int),
        decreases more@.len() - index,
    {
        rows.push(more[index]);
        index = index + 1;
        assert(rows@ =~= before + more@.take(index as int));
    }
    assert(more@.take(index as int) =~= more@);
}

/// Puts copies of a row behind other rows.
pub fn pad_rows<R: Copy>(rows: &mut Vec<R>, row: R, count: usize)
    ensures
        final(rows)@ == old(rows)@ + repeated(row, count as nat),
{
    let ghost before = rows@;
    let mut index: usize = 0;
    assert(before + repeated(row, 0) =~= before);
    while index < count
        invariant
            index <= count,
            rows@ == before + repeated(row, index as nat),
        decreases count - index,
    {
        rows.push(row);
        index = index + 1;
        assert(rows@ =~= before + repeated(row, index as nat));
    }
}

/// Writes rows over the rows that start at `start`.
pub fn overwrite_rows<R: Copy>(rows: &mut Vec<R>, start: usize, new: &Vec<R>)
    requires
        start + new@.len() <= old(rows)@.len(),
    ensures
        final(rows)@ == old(rows)@.take(start as int) + new@ + old(rows)@.skip(
            start + new@.len(),
        ),
{
    let ghost before = rows@;
    let length: usize = rows.len();
    let mut index: usize = 0;
    assert(before =~= before.take(start as int) + new@.take(0) + before.skip(start as int));
    while index < new.len()
        invariant
            index <= new@.len(),
            start + new@.len() <= before.len(),
            before.len() == rows@.len() == length,
            rows@ == before.take(start as int) + new@.take(index as int) + before.skip(
                start + index,
            ),
        decreases new@.len() - index,
    {
        let at: usize = start + index;
        rows.set(at, new[index]);
        index = index + 1;
        assert(rows@ =~= before.take(start as int) + new@.take(index as int) + before.skip(
            start + index,
        ));
    }
    assert(new@.take(index as int) =~= new@);
}

} // verus!
