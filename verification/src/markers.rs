//! Sets of marked cells: the food, the water and the danger of a world. A set is kept
//! as a list in which no cell occurs twice.

use crate::geometry::{all_in_bounds, in_bounds, Location};
use crate::search::{first_least, is_first_least, lemma_first_least_absent,
    lemma_first_least_found, no_key};
use vstd::prelude::*;

verus! {

/// Whether `cells` is a set of cells of a grid of side `size`.
pub open spec fn markers_ok(cells: Seq<Location>, size: usize) -> bool {
    &&& all_in_bounds(cells, size)
    &&& cells.no_duplicates()
}

/// The positions of `cells` that hold `cell`.
pub open spec fn marked_at(cells: Seq<Location>, cell: Location) -> spec_fn(int) -> bool {
    |k: int| cells[k] == cell
}

/// The cells of `cells` without `cell`: its first occurrence is taken out.
pub open spec fn without(cells: Seq<Location>, cell: Location) -> Seq<Location> {
    match first_least(cells.len() as int, marked_at(cells, cell), no_key()) {
        Some(k) => cells.remove(k),
        None => cells,
    }
}

/// The cells of `cells` after one attempt to mark `cell` while fewer than `target`
/// cells are marked.
pub open spec fn replenished(cells: Seq<Location>, target: int, cell: Location) -> Seq<Location> {
    if cells.len() < target && !cells.contains(cell) {
        cells.push(cell)
    } else {
        cells
    }
}

/// Whether `cell` is marked.
pub fn holds_marker(cells: &Vec<Location>, cell: Location) -> (found: bool)
    ensures
        found == cells@.contains(cell),
{
    let mut i: usize = 0;
    while i < cells.len()
        invariant
            i <= cells@.len(),
            forall|j: int| 0 <= j < i ==> cells@[j] != cell,
        decreases cells@.len() - i,
    {
        if cells[i].x == cell.x && cells[i].y == cell.y {
            return true;
        }
        i += 1;
    }
    false
}

/// Marks `cell` unless it is marked already; tells whether it was added.
pub fn place_marker(cells: &mut Vec<Location>, cell: Location) -> (added: bool)
    ensures
        added == !old(cells)@.contains(cell),
        final(cells)@ == (if added {
            old(cells)@.push(cell)
        } else {
            old(cells)@
        }),
        old(cells)@.no_duplicates() ==> final(cells)@.no_duplicates(),
        final(cells)@.contains(cell),
{
    if holds_marker(cells, cell) {
        false
    } else {
        cells.push(cell);
        assert(cells@[cells@.len() - 1] == cell);
        true
    }
}

/// Removes the mark from `cell`, if it has one; tells whether it had.
pub fn take_marker(cells: &mut Vec<Location>, cell: Location) -> (taken: bool)
    ensures
        taken == old(cells)@.contains(cell),
        final(cells)@ == without(old(cells)@, cell),
        final(cells)@.len() == old(cells)@.len() - (if taken {
            1int
        } else {
            0int
        }),
        old(cells)@.no_duplicates() ==> final(cells)@.no_duplicates(),
        old(cells)@.no_duplicates() ==> !final(cells)@.contains(cell),
        forall|size: usize|
            all_in_bounds(old(cells)@, size) ==> #[trigger] all_in_bounds(final(cells)@, size),
{
    let ghost here = marked_at(cells@, cell);
    let mut i: usize = 0;
    while i < cells.len()
        invariant
            i <= cells@.len(),
            cells@ == old(cells)@,
            here == marked_at(cells@, cell),
            forall|j: int| 0 <= j < i ==> cells@[j] != cell,
            forall|j: int| 0 <= j < i ==> !#[trigger] here(j),
        decreases cells@.len() - i,
    {
        if cells[i].x == cell.x && cells[i].y == cell.y {
            proof {
                assert(here(i as int));
                assert(is_first_least(cells@.len() as int, here, no_key(), i as int));
                lemma_first_least_found(cells@.len() as int, here, no_key(), i as int);
            }
            let _ = cells.remove(i);
            proof {
                lemma_remove_keeps_set(old(cells)@, i as int);
                assert forall|size: usize| all_in_bounds(old(cells)@, size) implies all_in_bounds(
                    cells@,
                    size,
                ) by {
                    assert forall|j: int| 0 <= j < cells@.len() implies in_bounds(
                        #[trigger] cells@[j],
                        size,
                    ) by {
                        if j < i {
                            assert(cells@[j] == old(cells)@[j]);
                        } else {
                            assert(cells@[j] == old(cells)@[j + 1]);
                        }
                    }
                }
            }
            return true;
        }
        assert(!here(i as int));
        i += 1;
    }
    proof {
        lemma_first_least_absent(cells@.len() as int, here, no_key());
    }
    false
}

/// One attempt to mark `cell`: it is marked if fewer than `target` cells are marked
/// and it is not among them.
pub fn replenish(cells: &mut Vec<Location>, target: usize, cell: Location)
    ensures
        final(cells)@ == replenished(old(cells)@, target as int, cell),
        old(cells)@.no_duplicates() ==> final(cells)@.no_duplicates(),
        forall|size: usize|
            all_in_bounds(old(cells)@, size) && in_bounds(cell, size) ==> #[trigger] all_in_bounds(
                final(cells)@,
                size,
            ),
{
    if cells.len() < target {
        let _ = place_marker(cells, cell);
    }
}

/// Removing one cell of a set leaves a set, and the cell is no longer in it.
pub proof fn lemma_remove_keeps_set(cells: Seq<Location>, k: int)
    requires
        0 <= k < cells.len(),
    ensures
        cells.no_duplicates() ==> cells.remove(k).no_duplicates() && !cells.remove(k).contains(
            cells[k],
        ),
{
    if cells.no_duplicates() {
        let rest = cells.remove(k);
        assert forall|a: int, b: int| 0 <= a < rest.len() && 0 <= b < rest.len() && a
            != b implies rest[a] != rest[b] by {
            let a0 = if a < k {
                a
            } else {
                a + 1
            };
            let b0 = if b < k {
                b
            } else {
                b + 1
            };
            assert(rest[a] == cells[a0] && rest[b] == cells[b0]);
        }
        assert forall|a: int| 0 <= a < rest.len() implies rest[a] != cells[k] by {
            let a0 = if a < k {
                a
            } else {
                a + 1
            };
            assert(rest[a] == cells[a0]);
        }
    }
}

} // verus!
