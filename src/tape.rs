use vstd::prelude::*;

verus! {

/// The value of cell `i` of a tape whose stored cells are `cells`. The tape is
/// unbounded to the right: a cell past the stored ones reads as zero.
pub open spec fn cell_at(cells: Seq<i32>, i: int) -> i32 {
    if 0 <= i < cells.len() {
        cells[i]
    } else {
        0
    }
}

/// The stored cells after making cell `i` addressable: unchanged when it
/// already is, otherwise padded with zeros up to and including `i`.
pub open spec fn grown_to(cells: Seq<i32>, i: int) -> Seq<i32> {
    if i < cells.len() {
        cells
    } else {
        cells + Seq::new((i + 1 - cells.len()) as nat, |_j: int| 0i32)
    }
}

/// The stored cells after writing `v` to cell `i`.
pub open spec fn written(cells: Seq<i32>, i: int, v: i32) -> Seq<i32> {
    grown_to(cells, i).update(i, v)
}

/// Growing the tape is invisible to reads, keeps every stored cell, and
/// stores exactly up to cell `i` when `i` was past the end.
pub proof fn lemma_growth_is_invisible(cells: Seq<i32>, i: int, j: int)
    requires
        0 <= i,
    ensures
        cell_at(grown_to(cells, i), j) == cell_at(cells, j),
        grown_to(cells, i).len() == if i < cells.len() { cells.len() as int } else { i + 1 },
        grown_to(cells, i).subrange(0, cells.len() as int) == cells,
{
    assert(grown_to(cells, i).subrange(0, cells.len() as int) =~= cells);
}

/// Writes are local: after writing `v` to cell `i`, cell `i` reads `v` and
/// every other cell reads what it read before; in particular a cell never
/// written still reads zero, and cells below `i` are not disturbed.
pub proof fn lemma_write_is_local(cells: Seq<i32>, i: int, v: i32, j: int)
    requires
        0 <= i,
    ensures
        cell_at(written(cells, i, v), j) == if j == i {
            v
        } else {
            cell_at(cells, j)
        },
{
    lemma_growth_is_invisible(cells, i, j);
}

} // verus!
