//! The agent set of a world: the lifeforms in the order of their identifiers, at most
//! one on each cell; what an action does to it, and the death sweep.

use crate::geometry::{
    adjacent, cell_ahead, in_bounds, moves_between, step_ahead, Location, MAX_WORLD_SIZE,
};
use crate::lifeform::Lifeform;
use crate::neural_net::OutputNeuronType;
use crate::search::{
    first_least, is_first_least, lemma_first_least_absent, lemma_first_least_found,
    lemma_first_least_meaning, no_key,
};
use vstd::prelude::*;

verus! {

/// Whether `lifeforms` is an agent set of a world of side `size` whose taxonomy has
/// `inner` hidden neurons and whose genomes have `genome_size` genes: every lifeform
/// fits the world, identifiers grow along the list, and no two lifeforms share a cell.
pub open spec fn population_ok(
    lifeforms: Seq<Lifeform>,
    size: usize,
    inner: nat,
    genome_size: usize,
) -> bool {
    &&& forall|i: int|
        0 <= i < lifeforms.len() ==> (#[trigger] lifeforms[i]).wf(size, inner, genome_size)
    &&& forall|i: int, j: int|
        0 <= i < j < lifeforms.len() ==> (#[trigger] lifeforms[i]).id < (
        #[trigger] lifeforms[j]).id
    &&& forall|i: int, j: int|
        0 <= i < j < lifeforms.len() ==> (#[trigger] lifeforms[i]).location != (
        #[trigger] lifeforms[j]).location
}

/// Whether every lifeform stands on the grid with vitals in range: what an action
/// needs of the agent set.
pub open spec fn all_placed(lifeforms: Seq<Lifeform>, size: usize) -> bool {
    forall|i: int|
        0 <= i < lifeforms.len() ==> in_bounds((#[trigger] lifeforms[i]).location, size)
            && lifeforms[i].vitals_ok()
}

/// Whether some lifeform has the identifier `id`.
pub open spec fn has_id(lifeforms: Seq<Lifeform>, id: usize) -> bool {
    exists|i: int| 0 <= i < lifeforms.len() && (#[trigger] lifeforms[i]).id == id
}

/// The positions of the lifeforms that stand on `cell`.
pub open spec fn stands_at(lifeforms: Seq<Lifeform>, cell: Location) -> spec_fn(int) -> bool {
    |k: int| lifeforms[k].location == cell
}

/// The positions of the lifeforms on a cell that shares an edge with the cell of the
/// lifeform at `index`.
pub open spec fn beside(lifeforms: Seq<Lifeform>, index: int) -> spec_fn(int) -> bool {
    |k: int| k != index && adjacent(lifeforms[index].location, lifeforms[k].location)
}

/// The position of the lifeform on `cell`, if one stands there.
pub open spec fn occupant(lifeforms: Seq<Lifeform>, cell: Location) -> Option<int> {
    first_least(lifeforms.len() as int, stands_at(lifeforms, cell), no_key())
}

/// The position of the lifeform that an attack by the lifeform at `index` hits: the
/// first in the order of the agent set among those on a cell that shares an edge with
/// the attacker's.
pub open spec fn attack_target(lifeforms: Seq<Lifeform>, index: int) -> Option<int> {
    first_least(lifeforms.len() as int, beside(lifeforms, index), no_key())
}

/// Whether the executable answer `found` is the position `chosen`.
pub open spec fn same_choice(found: Option<usize>, chosen: Option<int>) -> bool {
    match found {
        Some(k) => chosen == Some(k as int),
        None => chosen.is_none(),
    }
}

/// The agent set after the lifeform at `index` has carried out `action`.
///
/// A turn changes the heading by a quarter. A move takes the lifeform to the cell
/// ahead if that cell is on the grid and free. An attack wounds the target, if there is
/// one. Everything else, and no decision at all, leaves the agent set as it is.
pub open spec fn acted(
    lifeforms: Seq<Lifeform>,
    size: usize,
    index: int,
    action: Option<OutputNeuronType>,
) -> Seq<Lifeform> {
    let me = lifeforms[index];
    match action {
        None => lifeforms,
        Some(OutputNeuronType::TurnLeft) => lifeforms.update(
            index,
            me.facing(me.heading.turned_left()),
        ),
        Some(OutputNeuronType::TurnRight) => lifeforms.update(
            index,
            me.facing(me.heading.turned_right()),
        ),
        Some(OutputNeuronType::MoveForward) => match cell_ahead(me.location, me.heading, size) {
            Some(dest) => if occupant(lifeforms, dest).is_none() {
                lifeforms.update(index, me.placed(dest))
            } else {
                lifeforms
            },
            None => lifeforms,
        },
        Some(OutputNeuronType::Attack) => match attack_target(lifeforms, index) {
            Some(j) => lifeforms.update(j, lifeforms[j].wounded()),
            None => lifeforms,
        },
    }
}

/// The lifeforms of `lifeforms` that meet no death condition, in their order.
pub open spec fn survivors(
    lifeforms: Seq<Lifeform>,
    max_lifespan: u64,
    danger: Seq<Location>,
) -> Seq<Lifeform>
    decreases lifeforms.len(),
{
    if lifeforms.len() == 0 {
        lifeforms
    } else {
        let earlier = survivors(lifeforms.drop_last(), max_lifespan, danger);
        if lifeforms.last().is_dead(max_lifespan, danger) {
            earlier
        } else {
            earlier.push(lifeforms.last())
        }
    }
}

/// The position of the lifeform on `cell`, if one stands there.
pub fn find_occupant(lifeforms: &Vec<Lifeform>, cell: Location) -> (found: Option<usize>)
    ensures
        same_choice(found, occupant(lifeforms@, cell)),
        match found {
            Some(k) => k < lifeforms@.len() && lifeforms@[k as int].location == cell,
            None => forall|j: int|
                0 <= j < lifeforms@.len() ==> (#[trigger] lifeforms@[j]).location != cell,
        },
{
    let ghost here = stands_at(lifeforms@, cell);
    let mut i: usize = 0;
    while i < lifeforms.len()
        invariant
            i <= lifeforms@.len(),
            here == stands_at(lifeforms@, cell),
            forall|j: int| 0 <= j < i ==> !#[trigger] here(j),
        decreases lifeforms@.len() - i,
    {
        if lifeforms[i].location == cell {
            proof {
                assert(here(i as int));
                assert(is_first_least(lifeforms@.len() as int, here, no_key(), i as int));
                lemma_first_least_found(lifeforms@.len() as int, here, no_key(), i as int);
            }
            return Some(i);
        }
        i += 1;
    }
    proof {
        lemma_first_least_absent(lifeforms@.len() as int, here, no_key());
        assert forall|j: int| 0 <= j < lifeforms@.len() implies (
        #[trigger] lifeforms@[j]).location != cell by {
            assert(!here(j));
        }
    }
    None
}

/// The position of the lifeform that an attack by the lifeform at `index` hits.
pub fn find_target(lifeforms: &Vec<Lifeform>, size: usize, index: usize) -> (found: Option<usize>)
    requires
        index < lifeforms@.len(),
        size <= MAX_WORLD_SIZE,
        all_placed(lifeforms@, size),
    ensures
        same_choice(found, attack_target(lifeforms@, index as int)),
        found.is_some() ==> found.unwrap() < lifeforms@.len() && found.unwrap() != index,
{
    let ghost near = beside(lifeforms@, index as int);
    let from = lifeforms[index].location;
    let mut i: usize = 0;
    while i < lifeforms.len()
        invariant
            i <= lifeforms@.len(),
            index < lifeforms@.len(),
            size <= MAX_WORLD_SIZE,
            all_placed(lifeforms@, size),
            from == lifeforms@[index as int].location,
            near == beside(lifeforms@, index as int),
            forall|j: int| 0 <= j < i ==> !#[trigger] near(j),
        decreases lifeforms@.len() - i,
    {
        if i != index && moves_between(from, lifeforms[i].location) == 1 {
            proof {
                assert(near(i as int));
                assert(is_first_least(lifeforms@.len() as int, near, no_key(), i as int));
                lemma_first_least_found(lifeforms@.len() as int, near, no_key(), i as int);
            }
            return Some(i);
        }
        assert(!near(i as int));
        i += 1;
    }
    proof {
        lemma_first_least_absent(lifeforms@.len() as int, near, no_key());
    }
    None
}

/// Lets the lifeform at `index` carry out `action`.
pub fn act(
    lifeforms: &mut Vec<Lifeform>,
    size: usize,
    index: usize,
    action: Option<OutputNeuronType>,
)
    requires
        index < old(lifeforms)@.len(),
        size <= MAX_WORLD_SIZE,
        all_placed(old(lifeforms)@, size),
    ensures
        final(lifeforms)@ == acted(old(lifeforms)@, size, index as int, action),
{
    match action {
        None => {},
        Some(OutputNeuronType::TurnLeft) => {
            let heading = lifeforms[index].heading.left();
            lifeforms[index].heading = heading;
            assert(lifeforms@ =~= acted(old(lifeforms)@, size, index as int, action));
        },
        Some(OutputNeuronType::TurnRight) => {
            let heading = lifeforms[index].heading.right();
            lifeforms[index].heading = heading;
            assert(lifeforms@ =~= acted(old(lifeforms)@, size, index as int, action));
        },
        Some(OutputNeuronType::MoveForward) => {
            let ahead = step_ahead(lifeforms[index].location, lifeforms[index].heading, size);
            match ahead {
                Some(dest) => {
                    if find_occupant(lifeforms, dest).is_none() {
                        lifeforms[index].location = dest;
                        assert(lifeforms@ =~= acted(old(lifeforms)@, size, index as int, action));
                    }
                },
                None => {},
            }
        },
        Some(OutputNeuronType::Attack) => {
            match find_target(lifeforms, size, index) {
                Some(j) => {
                    lifeforms[j].wound();
                    assert(lifeforms@ =~= acted(old(lifeforms)@, size, index as int, action));
                },
                None => {},
            }
        },
    }
}

/// The death sweep: removes every lifeform that meets a death condition.
pub fn sweep(lifeforms: &mut Vec<Lifeform>, max_lifespan: u64, danger: &Vec<Location>)
    ensures
        final(lifeforms)@ == survivors(old(lifeforms)@, max_lifespan, danger@),
{
    let ghost before = lifeforms@;
    let ghost mut seen: int = 0;
    let mut i: usize = 0;
    while i < lifeforms.len()
        invariant
            before == old(lifeforms)@,
            i <= lifeforms@.len(),
            0 <= seen <= before.len(),
            seen - i == before.len() - lifeforms@.len(),
            lifeforms@.take(i as int) == survivors(before.take(seen), max_lifespan, danger@),
            lifeforms@.skip(i as int) == before.skip(seen),
        decreases lifeforms@.len() - i,
    {
        let ghost current = lifeforms@;
        assert(current[i as int] == current.skip(i as int)[0]);
        assert(before.take(seen + 1).drop_last() =~= before.take(seen));
        assert(before.take(seen + 1).last() == before[seen]);
        if lifeforms[i].has_died(max_lifespan, danger) {
            let _ = lifeforms.remove(i);
            proof {
                assert(lifeforms@.take(i as int) =~= current.take(i as int));
                assert(lifeforms@.skip(i as int) =~= current.skip(i as int).skip(1));
                assert(before.skip(seen).skip(1) =~= before.skip(seen + 1));
                seen = seen + 1;
            }
        } else {
            proof {
                assert(current.take(i + 1) =~= current.take(i as int).push(current[i as int]));
                assert(current.skip(i as int).skip(1) =~= current.skip(i + 1));
                assert(before.skip(seen).skip(1) =~= before.skip(seen + 1));
                seen = seen + 1;
            }
            i += 1;
        }
    }
    proof {
        assert(lifeforms@.take(i as int) =~= lifeforms@);
        assert(before.take(seen) =~= before);
    }
}

/// Every survivor of a sweep was in the agent set before it, and meets no death
/// condition.
pub proof fn lemma_survivors_lived(
    lifeforms: Seq<Lifeform>,
    max_lifespan: u64,
    danger: Seq<Location>,
)
    ensures
        survivors(lifeforms, max_lifespan, danger).len() <= lifeforms.len(),
        forall|j: int|
            0 <= j < survivors(lifeforms, max_lifespan, danger).len() ==> {
                &&& lifeforms.contains(#[trigger] survivors(lifeforms, max_lifespan, danger)[j])
                &&& !survivors(lifeforms, max_lifespan, danger)[j].is_dead(max_lifespan, danger)
            },
    decreases lifeforms.len(),
{
    if lifeforms.len() > 0 {
        let shorter = lifeforms.drop_last();
        lemma_survivors_lived(shorter, max_lifespan, danger);
        let earlier = survivors(shorter, max_lifespan, danger);
        let all = survivors(lifeforms, max_lifespan, danger);
        assert forall|j: int| 0 <= j < all.len() implies lifeforms.contains(#[trigger] all[j])
            && !all[j].is_dead(max_lifespan, danger) by {
            if j < earlier.len() {
                assert(all[j] == earlier[j]);
                assert(shorter.contains(earlier[j]));
                let k = choose|k: int| 0 <= k < shorter.len() && shorter[k] == earlier[j];
                assert(lifeforms[k] == all[j]);
            } else {
                assert(all[j] == lifeforms[lifeforms.len() - 1]);
            }
        }
    }
}

/// A lifeform that meets a death condition is absent after the sweep, and a lifeform
/// that meets none stays: the sweep keeps exactly the identifiers of the living.
pub proof fn lemma_sweep_removes_the_dead(
    lifeforms: Seq<Lifeform>,
    max_lifespan: u64,
    danger: Seq<Location>,
    size: usize,
    inner: nat,
    genome_size: usize,
)
    requires
        population_ok(lifeforms, size, inner, genome_size),
    ensures
        population_ok(survivors(lifeforms, max_lifespan, danger), size, inner, genome_size),
        forall|i: int|
            0 <= i < lifeforms.len() ==> (has_id(
                survivors(lifeforms, max_lifespan, danger),
                (#[trigger] lifeforms[i]).id,
            ) <==> !lifeforms[i].is_dead(max_lifespan, danger)),
        forall|id: usize|
            #[trigger] has_id(survivors(lifeforms, max_lifespan, danger), id) ==> has_id(
                lifeforms,
                id,
            ),
    decreases lifeforms.len(),
{
    let all = survivors(lifeforms, max_lifespan, danger);
    if lifeforms.len() > 0 {
        let shorter = lifeforms.drop_last();
        let last = lifeforms.last();
        let earlier = survivors(shorter, max_lifespan, danger);
        assert(population_ok(shorter, size, inner, genome_size)) by {
            assert forall|i: int| 0 <= i < shorter.len() implies (#[trigger] shorter[i]).wf(
                size,
                inner,
                genome_size,
            ) by {
                assert(shorter[i] == lifeforms[i]);
            }
            assert forall|i: int, j: int| 0 <= i < j < shorter.len() implies (
            #[trigger] shorter[i]).id < (#[trigger] shorter[j]).id && shorter[i].location
                != shorter[j].location by {
                assert(shorter[i] == lifeforms[i] && shorter[j] == lifeforms[j]);
            }
        }
        lemma_sweep_removes_the_dead(shorter, max_lifespan, danger, size, inner, genome_size);
        lemma_survivors_lived(shorter, max_lifespan, danger);
        assert forall|j: int| 0 <= j < earlier.len() implies (#[trigger] earlier[j]).id < last.id
            && earlier[j].location != last.location by {
            assert(shorter.contains(earlier[j]));
            let k = choose|k: int| 0 <= k < shorter.len() && shorter[k] == earlier[j];
            assert(lifeforms[k] == earlier[j]);
            assert(lifeforms[lifeforms.len() - 1] == last);
        }
        assert(population_ok(all, size, inner, genome_size)) by {
            if !last.is_dead(max_lifespan, danger) {
                assert forall|i: int| 0 <= i < all.len() implies (#[trigger] all[i]).wf(
                    size,
                    inner,
                    genome_size,
                ) by {
                    if i < earlier.len() {
                        assert(all[i] == earlier[i]);
                    } else {
                        assert(all[i] == lifeforms[lifeforms.len() - 1]);
                    }
                }
                assert forall|i: int, j: int| 0 <= i < j < all.len() implies (
                #[trigger] all[i]).id < (#[trigger] all[j]).id && all[i].location
                    != all[j].location by {
                    assert(all[i] == earlier[i]);
                    if j < earlier.len() {
                        assert(all[j] == earlier[j]);
                    }
                }
            }
        }
        assert forall|i: int| 0 <= i < lifeforms.len() implies (has_id(
            all,
            (#[trigger] lifeforms[i]).id,
        ) <==> !lifeforms[i].is_dead(max_lifespan, danger)) by {
            let id = lifeforms[i].id;
            if i < shorter.len() {
                assert(shorter[i] == lifeforms[i]);
                assert(has_id(earlier, id) <==> !lifeforms[i].is_dead(max_lifespan, danger));
                if has_id(earlier, id) {
                    let j = choose|j: int| 0 <= j < earlier.len() && (#[trigger] earlier[j]).id
                        == id;
                    assert(all[j] == earlier[j]);
                }
                if has_id(all, id) {
                    let j = choose|j: int| 0 <= j < all.len() && (#[trigger] all[j]).id == id;
                    if j < earlier.len() {
                        assert(all[j] == earlier[j]);
                    } else {
                        assert(all[j] == last);
                        assert(lifeforms[lifeforms.len() - 1] == last);
                        assert(lifeforms[i].id < lifeforms[lifeforms.len() - 1].id);
                    }
                }
            } else {
                assert(lifeforms[i] == last);
                if !last.is_dead(max_lifespan, danger) {
                    assert(all[all.len() - 1] == last);
                } else if has_id(all, id) {
                    let j = choose|j: int| 0 <= j < all.len() && (#[trigger] all[j]).id == id;
                    assert(all[j] == earlier[j]);
                }
            }
        }
    }
    lemma_survivors_lived(lifeforms, max_lifespan, danger);
    assert forall|id: usize| #[trigger] has_id(all, id) implies has_id(lifeforms, id) by {
        let j = choose|j: int| 0 <= j < all.len() && (#[trigger] all[j]).id == id;
        assert(lifeforms.contains(all[j]));
        let k = choose|k: int| 0 <= k < lifeforms.len() && lifeforms[k] == all[j];
        assert(lifeforms[k].id == id);
    }
}

/// An action changes nobody's hunger, thirst or age, and never raises anybody's
/// health.
pub proof fn lemma_act_spares_vitals(
    lifeforms: Seq<Lifeform>,
    size: usize,
    index: int,
    action: Option<OutputNeuronType>,
)
    requires
        0 <= index < lifeforms.len(),
        all_placed(lifeforms, size),
    ensures
        acted(lifeforms, size, index, action).len() == lifeforms.len(),
        all_placed(acted(lifeforms, size, index, action), size),
        forall|i: int|
            0 <= i < lifeforms.len() ==> {
                &&& (#[trigger] acted(lifeforms, size, index, action)[i]).hunger
                    == lifeforms[i].hunger
                &&& acted(lifeforms, size, index, action)[i].thirst == lifeforms[i].thirst
                &&& acted(lifeforms, size, index, action)[i].age == lifeforms[i].age
                &&& acted(lifeforms, size, index, action)[i].health <= lifeforms[i].health
            },
{
    let after = acted(lifeforms, size, index, action);
    if action == Some(OutputNeuronType::Attack) {
        lemma_first_least_meaning(lifeforms.len() as int, beside(lifeforms, index), no_key());
    }
    assert forall|i: int| 0 <= i < lifeforms.len() implies {
        &&& (#[trigger] after[i]).hunger == lifeforms[i].hunger
        &&& after[i].thirst == lifeforms[i].thirst
        &&& after[i].age == lifeforms[i].age
        &&& after[i].health <= lifeforms[i].health
        &&& in_bounds(after[i].location, size)
        &&& after[i].vitals_ok()
    } by {
        assert(lifeforms[i].vitals_ok());
        assert(in_bounds(lifeforms[i].location, size));
        assert(lifeforms[index].vitals_ok());
        assert(in_bounds(lifeforms[index].location, size));
    }
}

/// An action keeps the agent set in order: every lifeform still fits the world,
/// identifiers still grow along the list, and still no two lifeforms share a cell.
pub proof fn lemma_act_keeps_population(
    lifeforms: Seq<Lifeform>,
    size: usize,
    inner: nat,
    genome_size: usize,
    index: int,
    action: Option<OutputNeuronType>,
)
    requires
        population_ok(lifeforms, size, inner, genome_size),
        0 <= index < lifeforms.len(),
    ensures
        population_ok(acted(lifeforms, size, index, action), size, inner, genome_size),
        acted(lifeforms, size, index, action).len() == lifeforms.len(),
        forall|i: int|
            0 <= i < lifeforms.len() ==> (#[trigger] acted(lifeforms, size, index, action)[i]).id
                == lifeforms[i].id && acted(lifeforms, size, index, action)[i].age
                == lifeforms[i].age,
{
    let after = acted(lifeforms, size, index, action);
    let me = lifeforms[index];
    match action {
        Some(OutputNeuronType::MoveForward) => {
            match cell_ahead(me.location, me.heading, size) {
                Some(dest) => {
                    lemma_first_least_meaning(
                        lifeforms.len() as int,
                        stands_at(lifeforms, dest),
                        no_key(),
                    );
                    if occupant(lifeforms, dest).is_none() {
                        assert forall|j: int| 0 <= j < lifeforms.len() implies (
                        #[trigger] lifeforms[j]).location != dest by {
                            assert(!stands_at(lifeforms, dest)(j));
                        }
                    }
                },
                None => {},
            }
        },
        Some(OutputNeuronType::Attack) => {
            lemma_first_least_meaning(
                lifeforms.len() as int,
                beside(lifeforms, index),
                no_key(),
            );
        },
        _ => {},
    }
    assert forall|i: int| 0 <= i < after.len() implies (#[trigger] after[i]).wf(
        size,
        inner,
        genome_size,
    ) by {
        assert(lifeforms[i].wf(size, inner, genome_size));
    }
    assert forall|i: int, j: int| 0 <= i < j < after.len() implies (#[trigger] after[i]).id < (
    #[trigger] after[j]).id && after[i].location != after[j].location by {
        assert(lifeforms[i].id < lifeforms[j].id);
        assert(lifeforms[i].location != lifeforms[j].location);
    }
}

} // verus!
