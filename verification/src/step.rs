//! One tick of the world, and what holds from tick to tick.

use crate::birth::{is_newborn, is_offspring};
use crate::config::{cell_count, marker_target};
use crate::geometry::{in_bounds, numbered_cell, Location};
use crate::lifeform::{thought, Lifeform};
use crate::markers::replenished;
use crate::neural_net::OutputNeuronType;
use crate::population::{has_id, lemma_survivors_lived, lemma_sweep_removes_the_dead, survivors};
use crate::renewal::endangered;
use crate::tick::{sensed, turns, Ground};
use crate::world::World;
use vstd::prelude::*;

verus! {

/// What a tick draws and what its lifeforms make of it: the readings of every
/// lifeform, its decision, the lifeform once it has thought, and the cells drawn for
/// food, water and danger.
pub struct Draws {
    pub sensors: Seq<Seq<i32>>,
    pub decisions: Seq<Option<OutputNeuronType>>,
    pub decided: Seq<Lifeform>,
    pub food_cell: Location,
    pub water_cell: Location,
    pub danger_cell: Location,
}

/// The agent set, the food and the water of `before` once every lifeform has thought
/// and taken its turn.
pub open spec fn turned(before: &World, draws: Draws) -> Ground {
    turns(
        Ground { lifeforms: draws.decided, food: before.food@, water: before.water@ },
        before.size(),
        draws.decisions,
        draws.decisions.len() as int,
    )
}

/// Whether `after` is the world one tick after `before` where the tick drew `draws`.
///
/// Every lifeform senses `before`, thinks, and takes its turn; food, water and danger
/// are replenished at the drawn cells; the dead are swept away; and the survivors come
/// first in the agent set of `after`, followed by the newborn: offspring of survivors
/// up to the population floor, or, where nobody survived, the initial population anew.
pub open spec fn step_with(before: &World, after: &World, draws: Draws) -> bool {
    let n = before.lifeforms@.len();
    let size = before.size();
    let ground = turned(before, draws);
    let alive = survivors(ground.lifeforms, before.props.max_lifespan, after.danger@);
    &&& draws.sensors.len() == n
    &&& draws.decisions.len() == n
    &&& draws.decided.len() == n
    &&& forall|i: int|
        0 <= i < n ==> #[trigger] sensed(before, i, draws.sensors[i]) && thought(
            before.lifeforms@[i],
            draws.sensors[i],
            draws.decided[i],
            draws.decisions[i],
        )
    &&& in_bounds(draws.food_cell, size)
    &&& in_bounds(draws.water_cell, size)
    &&& in_bounds(draws.danger_cell, size)
    &&& after.props == before.props
    &&& after.tick == before.tick + 1
    &&& after.food@ == replenished(
        ground.food,
        marker_target(size, before.props.food_density),
        draws.food_cell,
    )
    &&& after.water@ == replenished(
        ground.water,
        marker_target(size, before.props.water_density),
        draws.water_cell,
    )
    &&& after.danger@ == endangered(
        before.danger@,
        before.tick,
        before.props.danger_delay,
        size,
        draws.danger_cell,
    )
    &&& after.lifeforms@.len() == (if alive.len() == 0 {
        before.props.num_initial_lifeforms as nat
    } else if alive.len() < before.props.minimum_number_lifeforms {
        before.props.minimum_number_lifeforms as nat
    } else {
        alive.len()
    })
    &&& after.lifeforms@.take(alive.len() as int) == alive
    &&& after.next_id == before.next_id + (after.lifeforms@.len() - alive.len())
    &&& forall|j: int|
        alive.len() <= j < after.lifeforms@.len() ==> {
            &&& (#[trigger] after.lifeforms@[j]).id == before.next_id + (j - alive.len())
            &&& is_newborn(after.lifeforms@[j])
            &&& alive.len() > 0 ==> is_offspring(after.lifeforms@[j], alive, before.inner())
        }
}

/// Whether `after` is the world one tick after `before`, for some draws.
pub open spec fn stepped(before: &World, after: &World) -> bool {
    exists|draws: Draws| step_with(before, after, draws)
}

/// Whether a lifeform of `before` is still in the agent set of `after`: whether anyone
/// survived to seed reproduction.
pub open spec fn has_survivor(before: &World, after: &World) -> bool {
    exists|j: int|
        0 <= j < after.lifeforms@.len() && (#[trigger] after.lifeforms@[j]).id < before.next_id
}

/// What holds of the world one tick after `before`, whatever was drawn.
///
/// The configuration stays and the tick counter advances. No identifier comes back:
/// a lifeform of `after` was in `before` under its identifier or has an identifier
/// that `before` had not handed out. A lifeform that was in `before` and is still
/// there meets no death condition. Where a lifeform of `before` is still there, the
/// population is at or above the floor; where none is, the world has been seeded anew
/// and holds its initial population. Food, water and danger grow by one cell at most.
/// One draw is made for the random sensor of every lifeform and one each for the
/// cells of food, water and danger, besides those of reproduction.
pub open spec fn follows(before: &World, after: &World) -> bool {
    &&& after.props == before.props
    &&& after.tick == before.tick + 1
    &&& after.next_id >= before.next_id
    &&& forall|j: int|
        0 <= j < after.lifeforms@.len() ==> (#[trigger] after.lifeforms@[j]).id >= before.next_id
            || has_id(before.lifeforms@, after.lifeforms@[j].id)
    &&& forall|j: int|
        0 <= j < after.lifeforms@.len() && (#[trigger] after.lifeforms@[j]).id < before.next_id
            ==> !after.lifeforms@[j].is_dead(after.props.max_lifespan, after.danger@)
    &&& has_survivor(before, after) ==> after.lifeforms@.len()
        >= after.props.minimum_number_lifeforms
    &&& !has_survivor(before, after) ==> after.lifeforms@.len()
        == after.props.num_initial_lifeforms
    &&& after.food@.len() <= before.food@.len() + 1
    &&& after.water@.len() <= before.water@.len() + 1
    &&& after.danger@.len() <= before.danger@.len() + 1
    &&& after.rng.drawn() >= before.rng.drawn() + before.lifeforms@.len() + 3
}

impl<'a> World<'a> {
    /// Whether the world can go through one more tick: the tick counter and the
    /// identifiers have room for it.
    pub open spec fn has_room_to_step(&self) -> bool {
        &&& self.tick < u64::MAX
        &&& self.next_id + self.props.minimum_number_lifeforms <= usize::MAX
        &&& self.next_id + self.props.num_initial_lifeforms <= usize::MAX
    }

    /// Whether the world can go through one more tick.
    pub fn can_step(&self) -> (able: bool)
        ensures
            able == self.has_room_to_step(),
    {
        self.tick < u64::MAX && self.props.minimum_number_lifeforms <= usize::MAX - self.next_id
            && self.props.num_initial_lifeforms <= usize::MAX - self.next_id
    }

    /// One tick. Every lifeform senses the world as the tick found it, thinks, and
    /// takes its turn in the order of the agent set; food, water and danger are
    /// replenished at drawn cells; the dead are swept away; and reproduction restores
    /// the population floor.
    pub fn step(&mut self)
        requires
            old(self).wf(),
            old(self).has_room_to_step(),
        ensures
            final(self).wf(),
            stepped(old(self), final(self)),
            follows(old(self), final(self)),
    {
        let ghost start = self.lifeforms@;
        let sensors = self.sense_all();
        let decisions = self.think_all(&sensors);
        let ghost decided = self.lifeforms@;
        self.take_turns(&decisions);
        let ghost ground = self.ground();
        let cells = cell_count(self.props.size);
        let food_cell = numbered_cell(self.rng.below(cells), self.props.size);
        let water_cell = numbered_cell(self.rng.below(cells), self.props.size);
        let danger_cell = numbered_cell(self.rng.below(cells), self.props.size);
        self.renew_at(food_cell, water_cell, danger_cell);
        let ghost danger = self.danger@;
        self.bury();
        let ghost swept = self.lifeforms@;
        self.repopulate();
        self.tick = self.tick + 1;
        proof {
            let after = self.lifeforms@;
            let turned_lifeforms = ground.lifeforms;
            lemma_sweep_removes_the_dead(
                turned_lifeforms,
                self.props.max_lifespan,
                danger,
                self.size(),
                self.inner(),
                self.props.genome_size,
            );
            lemma_survivors_lived(turned_lifeforms, self.props.max_lifespan, danger);
            assert forall|j: int| 0 <= j < after.len() implies (#[trigger] after[j]).id >= old(
                self,
            ).next_id || has_id(start, after[j].id) by {
                if j < swept.len() {
                    assert(after.take(swept.len() as int)[j] == swept[j]);
                    assert(has_id(swept, swept[j].id));
                    assert(has_id(turned_lifeforms, swept[j].id));
                    let k = choose|k: int|
                        0 <= k < turned_lifeforms.len() && (#[trigger] turned_lifeforms[k]).id
                            == swept[j].id;
                    assert(turned_lifeforms[k].id == decided[k].id);
                    assert(thought(start[k], sensors@[k]@, decided[k], decisions@[k]));
                    assert(start[k].id == after[j].id);
                }
            }
            assert forall|j: int| 0 <= j < after.len() && (#[trigger] after[j]).id < old(
                self,
            ).next_id implies !after[j].is_dead(self.props.max_lifespan, self.danger@) by {
                if j < swept.len() {
                    assert(after.take(swept.len() as int)[j] == swept[j]);
                }
            }
            if swept.len() > 0 {
                assert(after.take(swept.len() as int)[0] == swept[0]);
                assert(has_id(swept, swept[0].id));
                assert(after[0].id < old(self).next_id);
            }
            let draws = Draws {
                sensors: Seq::new(sensors@.len(), |i: int| sensors@[i]@),
                decisions: decisions@,
                decided: decided,
                food_cell: food_cell,
                water_cell: water_cell,
                danger_cell: danger_cell,
            };
            assert(turned(old(self), draws) == ground);
            assert(step_with(old(self), self, draws));
        }
    }
}

/// An identifier that has been handed out and is absent from the agent set stays
/// absent after a tick: a lifeform that has left never comes back under its
/// identifier.
pub proof fn lemma_ids_never_return(before: &World, after: &World, id: usize)
    requires
        follows(before, after),
        id < before.next_id,
        !has_id(before.lifeforms@, id),
    ensures
        id < after.next_id,
        !has_id(after.lifeforms@, id),
{
    if has_id(after.lifeforms@, id) {
        let j = choose|j: int|
            0 <= j < after.lifeforms@.len() && (#[trigger] after.lifeforms@[j]).id == id;
        assert(has_id(before.lifeforms@, after.lifeforms@[j].id));
    }
}

/// After a tick in which at least one lifeform survived to seed reproduction, the
/// population is at or above the floor.
pub proof fn lemma_population_floor(before: &World, after: &World)
    requires
        follows(before, after),
        has_survivor(before, after),
    ensures
        after.lifeforms@.len() >= before.props.minimum_number_lifeforms,
{
}

/// Reproduction restores the floor: where at least one lifeform survives the sweep of
/// a tick, the tick ends with a population at or above the floor, whatever was drawn.
pub proof fn lemma_floor_is_restored(before: &World, after: &World, draws: Draws)
    requires
        step_with(before, after, draws),
        survivors(
            turned(before, draws).lifeforms,
            before.props.max_lifespan,
            after.danger@,
        ).len() > 0,
    ensures
        after.lifeforms@.len() >= before.props.minimum_number_lifeforms,
{
}

/// A lifeform that meets a death condition when the dead are swept is absent from the
/// agent set after the sweep, and every lifeform that meets none is still there.
pub proof fn lemma_death_is_final(before: &World, index: int)
    requires
        before.structure_ok(),
        0 <= index < before.lifeforms@.len(),
    ensures
        before.lifeforms@[index].is_dead(before.props.max_lifespan, before.danger@) <==> !has_id(
            survivors(before.lifeforms@, before.props.max_lifespan, before.danger@),
            before.lifeforms@[index].id,
        ),
{
    lemma_sweep_removes_the_dead(
        before.lifeforms@,
        before.props.max_lifespan,
        before.danger@,
        before.size(),
        before.inner(),
        before.props.genome_size,
    );
}

} // verus!
