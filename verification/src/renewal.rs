//! The replenishment of food and water, the spawning of danger, and the death sweep.
//!
//! In every tick one attempt is made to mark a cell as food, which succeeds if the
//! food is below its target and the cell holds none; likewise for water. Once the tick
//! counter is above `danger_delay`, one attempt is made to mark a cell as danger, which
//! succeeds while fewer cells are dangerous than the grid has rows.

use crate::config::marker_target;
use crate::geometry::{in_bounds, Location};
use crate::markers::{replenish, replenished};
use crate::population::{lemma_survivors_lived, lemma_sweep_removes_the_dead, survivors, sweep};
use crate::world::World;
use vstd::prelude::*;

verus! {

/// The danger after one attempt to mark `cell`, which is made once `tick` is above
/// `delay` and while fewer than `size` cells are dangerous.
pub open spec fn endangered(
    danger: Seq<Location>,
    tick: u64,
    delay: u64,
    size: usize,
    cell: Location,
) -> Seq<Location> {
    if tick > delay {
        replenished(danger, size as int, cell)
    } else {
        danger
    }
}

impl<'a> World<'a> {
    /// One attempt each to mark `food_cell` as food, `water_cell` as water and
    /// `danger_cell` as danger.
    pub fn renew_at(&mut self, food_cell: Location, water_cell: Location, danger_cell: Location)
        requires
            old(self).structure_ok(),
            in_bounds(food_cell, old(self).size()),
            in_bounds(water_cell, old(self).size()),
            in_bounds(danger_cell, old(self).size()),
        ensures
            final(self).structure_ok(),
            final(self).same_setting(old(self)),
            final(self).rng.drawn() == old(self).rng.drawn(),
            final(self).lifeforms == old(self).lifeforms,
            final(self).food@ == replenished(
                old(self).food@,
                marker_target(old(self).size(), old(self).props.food_density),
                food_cell,
            ),
            final(self).water@ == replenished(
                old(self).water@,
                marker_target(old(self).size(), old(self).props.water_density),
                water_cell,
            ),
            final(self).danger@ == endangered(
                old(self).danger@,
                old(self).tick,
                old(self).props.danger_delay,
                old(self).size(),
                danger_cell,
            ),
    {
        let food_target = self.props.food_target();
        let water_target = self.props.water_target();
        replenish(&mut self.food, food_target, food_cell);
        replenish(&mut self.water, water_target, water_cell);
        if self.tick > self.props.danger_delay {
            replenish(&mut self.danger, self.props.size, danger_cell);
        }
    }

    /// The death sweep: every lifeform that has no health left, is older than the
    /// lifespan or stands on danger leaves the agent set.
    pub fn bury(&mut self)
        requires
            old(self).structure_ok(),
        ensures
            final(self).lifeforms@ == survivors(
                old(self).lifeforms@,
                old(self).props.max_lifespan,
                old(self).danger@,
            ),
            final(self).wf(),
            final(self).same_setting(old(self)),
            final(self).rng.drawn() == old(self).rng.drawn(),
            final(self).food == old(self).food,
            final(self).water == old(self).water,
            final(self).danger == old(self).danger,
    {
        sweep(&mut self.lifeforms, self.props.max_lifespan, &self.danger);
        proof {
            let before = old(self).lifeforms@;
            let after = self.lifeforms@;
            lemma_sweep_removes_the_dead(
                before,
                self.props.max_lifespan,
                self.danger@,
                self.size(),
                self.inner(),
                self.props.genome_size,
            );
            lemma_survivors_lived(before, self.props.max_lifespan, self.danger@);
            assert forall|j: int| 0 <= j < after.len() implies (#[trigger] after[j]).id
                < self.next_id && after[j].health > 0 && after[j].age
                <= self.props.max_lifespan by {
                assert(before.contains(after[j]));
                let k = choose|k: int| 0 <= k < before.len() && before[k] == after[j];
                assert(before[k].id < old(self).next_id);
                assert(!after[j].is_dead(self.props.max_lifespan, self.danger@));
            }
        }
    }
}

} // verus!
