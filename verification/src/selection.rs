//! Finding and selecting lifeforms: by identifier, by cell, and the next and the
//! previous one in the order of the agent set.

use crate::geometry::Location;
use crate::lifeform::Lifeform;
use crate::markers::holds_marker;
use crate::population::{find_occupant, has_id, occupant, same_choice};
use crate::search::{first_least, is_first_least, lemma_first_least_absent,
    lemma_first_least_found, no_key};
use crate::world::World;
use vstd::prelude::*;

verus! {

/// The positions of the lifeforms with the identifier `id`.
pub open spec fn named(lifeforms: Seq<Lifeform>, id: usize) -> spec_fn(int) -> bool {
    |k: int| lifeforms[k].id == id
}

/// The position of the lifeform with the identifier `id`, if it is in the agent set.
pub open spec fn position_of(lifeforms: Seq<Lifeform>, id: usize) -> Option<int> {
    first_least(lifeforms.len() as int, named(lifeforms, id), no_key())
}

/// The selection after a step forward from `selected`: from no selection to the first
/// lifeform, from a lifeform to the one after it, and to no selection from the last
/// lifeform and from an identifier that is not in the agent set.
pub open spec fn next_selection(lifeforms: Seq<Lifeform>, selected: Option<usize>) -> Option<
    usize,
> {
    match selected {
        None => if lifeforms.len() > 0 {
            Some(lifeforms[0].id)
        } else {
            None
        },
        Some(id) => match position_of(lifeforms, id) {
            Some(k) => if k + 1 < lifeforms.len() {
                Some(lifeforms[k + 1].id)
            } else {
                None
            },
            None => None,
        },
    }
}

/// The selection after a step back from `selected`: from no selection to the last
/// lifeform, from a lifeform to the one before it, and to no selection from the first
/// lifeform and from an identifier that is not in the agent set.
pub open spec fn previous_selection(lifeforms: Seq<Lifeform>, selected: Option<usize>) -> Option<
    usize,
> {
    match selected {
        None => if lifeforms.len() > 0 {
            Some(lifeforms.last().id)
        } else {
            None
        },
        Some(id) => match position_of(lifeforms, id) {
            Some(k) => if k > 0 {
                Some(lifeforms[k - 1].id)
            } else {
                None
            },
            None => None,
        },
    }
}

/// What a cell shows.
#[derive(Debug, Clone, Copy, PartialEq, Eq, Structural)]
pub enum CellContent {
    /// The lifeform at this position of the agent set.
    Lifeform(usize),
    Danger,
    Food,
    Water,
    Empty,
}

/// What `cell` shows: the lifeform on it; else danger, food or water, in this order;
/// else nothing.
pub open spec fn shown_at(world: &World, cell: Location) -> CellContent {
    match occupant(world.lifeforms@, cell) {
        Some(k) => CellContent::Lifeform(k as usize),
        None => if world.danger@.contains(cell) {
            CellContent::Danger
        } else if world.food@.contains(cell) {
            CellContent::Food
        } else if world.water@.contains(cell) {
            CellContent::Water
        } else {
            CellContent::Empty
        },
    }
}

impl<'a> World<'a> {
    /// What `cell` shows.
    pub fn content_at(&self, cell: Location) -> (content: CellContent)
        ensures
            content == shown_at(self, cell),
    {
        match find_occupant(&self.lifeforms, cell) {
            Some(k) => CellContent::Lifeform(k),
            None => if holds_marker(&self.danger, cell) {
                CellContent::Danger
            } else if holds_marker(&self.food, cell) {
                CellContent::Food
            } else if holds_marker(&self.water, cell) {
                CellContent::Water
            } else {
                CellContent::Empty
            },
        }
    }

    /// The position in the agent set of the lifeform with the identifier `id`.
    pub fn find_by_id(&self, id: usize) -> (found: Option<usize>)
        ensures
            same_choice(found, position_of(self.lifeforms@, id)),
            found.is_some() <==> has_id(self.lifeforms@, id),
            found.is_some() ==> found.unwrap() < self.lifeforms@.len()
                && self.lifeforms@[found.unwrap() as int].id == id,
    {
        let ghost here = named(self.lifeforms@, id);
        let mut i: usize = 0;
        while i < self.lifeforms.len()
            invariant
                i <= self.lifeforms@.len(),
                here == named(self.lifeforms@, id),
                forall|j: int| 0 <= j < i ==> !#[trigger] here(j),
                forall|j: int| 0 <= j < i ==> (#[trigger] self.lifeforms@[j]).id != id,
            decreases self.lifeforms@.len() - i,
        {
            if self.lifeforms[i].id == id {
                proof {
                    assert(here(i as int));
                    assert(is_first_least(self.lifeforms@.len() as int, here, no_key(), i as int));
                    lemma_first_least_found(self.lifeforms@.len() as int, here, no_key(), i as int);
                }
                return Some(i);
            }
            assert(!here(i as int));
            i += 1;
        }
        proof {
            lemma_first_least_absent(self.lifeforms@.len() as int, here, no_key());
        }
        None
    }

    /// The position in the agent set of the lifeform on `cell`.
    pub fn find_at(&self, cell: Location) -> (found: Option<usize>)
        ensures
            same_choice(found, occupant(self.lifeforms@, cell)),
            found.is_some() ==> found.unwrap() < self.lifeforms@.len()
                && self.lifeforms@[found.unwrap() as int].location == cell,
    {
        find_occupant(&self.lifeforms, cell)
    }

    /// The identifier selected after a step forward from `selected`.
    pub fn select_next(&self, selected: Option<usize>) -> (chosen: Option<usize>)
        ensures
            chosen == next_selection(self.lifeforms@, selected),
    {
        match selected {
            None => if self.lifeforms.len() > 0 {
                Some(self.lifeforms[0].id)
            } else {
                None
            },
            Some(id) => match self.find_by_id(id) {
                Some(k) => if k < self.lifeforms.len() - 1 {
                    Some(self.lifeforms[k + 1].id)
                } else {
                    None
                },
                None => None,
            },
        }
    }

    /// The identifier selected after a step back from `selected`.
    pub fn select_previous(&self, selected: Option<usize>) -> (chosen: Option<usize>)
        ensures
            chosen == previous_selection(self.lifeforms@, selected),
    {
        match selected {
            None => if self.lifeforms.len() > 0 {
                Some(self.lifeforms[self.lifeforms.len() - 1].id)
            } else {
                None
            },
            Some(id) => match self.find_by_id(id) {
                Some(k) => if k > 0 {
                    Some(self.lifeforms[k - 1].id)
                } else {
                    None
                },
                None => None,
            },
        }
    }
}

} // verus!
