//! Birth: the first lifeforms of a world, and the reproduction that restores the
//! population floor.
//!
//! A lifeform is born on a free cell: a cell is drawn, and the grid is searched from
//! there for the first cell without a lifeform. An offspring has one parent, drawn from
//! the survivors of the tick, and carries a mutated copy of the parent's genome. A
//! world without survivors is seeded anew, with freshly drawn genomes, up to its
//! initial population.

use crate::config::{cell_count, ConfigError, WorldProps};
use crate::fixed::UNIT;
use crate::genome::{is_mutation_of, Genome};
use crate::geometry::Heading;
use crate::lifeform::Lifeform;
use crate::population::{occupant, stands_at};
use crate::search::{lemma_first_least_absent, no_key};
use crate::world::{find_free_cell, lemma_full_grid, lemma_room_left, World};
use vstd::prelude::*;

verus! {

/// Whether `child` is a newborn offspring of one of `parents`: full health, no hunger,
/// no thirst, age zero, a blank network, and a genome that mutation can make of the
/// genome of one of them.
pub open spec fn is_offspring(child: Lifeform, parents: Seq<Lifeform>, inner: nat) -> bool {
    &&& is_newborn(child)
    &&& exists|p: int|
        0 <= p < parents.len() && is_mutation_of(
            child.genome@,
            (#[trigger] parents[p]).genome@,
            inner,
        )
}

/// Whether `child` is at the start of its life: full health, no hunger, no thirst, age
/// zero and a blank network.
pub open spec fn is_newborn(child: Lifeform) -> bool {
    &&& child.health == UNIT
    &&& child.hunger == 0
    &&& child.thirst == 0
    &&& child.age == 0
    &&& child.neural_net.is_blank()
}

/// Number of draws that seed one lifeform: three for each gene, one for the cell and
/// one for the heading.
pub open spec fn seedling_draws(genome_size: usize) -> int {
    3 * genome_size + 2
}

/// The least number of draws that make one offspring: one for the parent, one for each
/// gene, one for the cell and one for the heading.
pub open spec fn least_offspring_draws(genome_size: usize) -> int {
    genome_size + 3
}

/// The greatest number of draws that make one offspring: three more for each gene than
/// the least, where mutation hits every gene.
pub open spec fn most_offspring_draws(genome_size: usize) -> int {
    4 * genome_size + 3
}

/// One more lifeform costs its draws once more.
proof fn lemma_one_more(count: int, each: int)
    ensures
        (count + 1) * each == count * each + each,
{
    assert((count + 1) * each == count * each + each) by (nonlinear_arith);
}

impl<'a> World<'a> {
    /// Whether a lifeform with the genome `genome` can be born somewhere: a cell is
    /// free, the genome has the configured length and fits the taxonomy, and an
    /// identifier is left.
    pub open spec fn has_room_for(&self, genome: Genome) -> bool {
        &&& self.lifeforms@.len() < self.props.cells()
        &&& genome@.len() == self.props.genome_size
        &&& genome.wf(self.inner())
        &&& self.next_id < usize::MAX
    }

    /// Lets a lifeform with the genome `genome` be born on a free cell found from a
    /// drawn one, facing a drawn heading. Returns its identifier, or `None`, with the
    /// agent set unchanged, where the world has no room for it.
    pub fn settle(&mut self, genome: Genome) -> (id: Option<usize>)
        requires
            old(self).structure_ok(),
        ensures
            final(self).structure_ok(),
            old(self).all_vital() ==> final(self).all_vital(),
            final(self).props == old(self).props,
            final(self).rng.drawn() == old(self).rng.drawn() + 2,
            final(self).tick == old(self).tick,
            final(self).same_markers(old(self)),
            id.is_some() <==> old(self).has_room_for(genome),
            match id {
                Some(given) => {
                    &&& given == old(self).next_id
                    &&& final(self).next_id == given + 1
                    &&& final(self).lifeforms@.len() == old(self).lifeforms@.len() + 1
                    &&& final(self).lifeforms@.drop_last() == old(self).lifeforms@
                    &&& final(self).lifeforms@.last().id == given
                    &&& final(self).lifeforms@.last().genome == genome
                    &&& is_newborn(final(self).lifeforms@.last())
                },
                None => final(self).lifeforms@ == old(self).lifeforms@ && final(self).next_id
                    == old(self).next_id,
            },
    {
        let cells = cell_count(self.props.size);
        let start = self.rng.below(cells);
        let heading = Heading::from_draw(self.rng.below(4));
        match find_free_cell(&self.lifeforms, self.props.size, start) {
            Some(cell) => {
                proof {
                    lemma_first_least_absent(
                        self.lifeforms@.len() as int,
                        stands_at(self.lifeforms@, cell),
                        no_key(),
                    );
                    assert(occupant(self.lifeforms@, cell).is_none());
                    if self.lifeforms@.len() >= cells {
                        lemma_full_grid(
                            self.lifeforms@,
                            self.size(),
                            self.inner(),
                            self.props.genome_size,
                            cell,
                        );
                    }
                }
                self.insert_lifeform(cell, heading, genome)
            },
            None => {
                proof {
                    if self.lifeforms@.len() < cells {
                        lemma_room_left(self.lifeforms@, self.size(), start as int);
                    }
                }
                None
            },
        }
    }

    /// Seeds the world: while fewer lifeforms live than `num_initial_lifeforms`, a
    /// lifeform with a freshly drawn genome is born.
    pub fn seed(&mut self)
        requires
            old(self).structure_ok(),
            old(self).next_id + old(self).props.num_initial_lifeforms <= usize::MAX,
        ensures
            final(self).structure_ok(),
            old(self).all_vital() ==> final(self).all_vital(),
            final(self).props == old(self).props,
            final(self).rng.drawn() == old(self).rng.drawn() + (final(self).lifeforms@.len() - old(
                self,
            ).lifeforms@.len()) * seedling_draws(old(self).props.genome_size),
            final(self).tick == old(self).tick,
            final(self).same_markers(old(self)),
            final(self).lifeforms@.len() == (if old(self).lifeforms@.len() < old(
                self,
            ).props.num_initial_lifeforms {
                old(self).props.num_initial_lifeforms as nat
            } else {
                old(self).lifeforms@.len()
            }),
            final(self).lifeforms@.take(old(self).lifeforms@.len() as int) == old(self).lifeforms@,
            final(self).next_id == old(self).next_id + (final(self).lifeforms@.len() - old(
                self,
            ).lifeforms@.len()),
            forall|j: int|
                old(self).lifeforms@.len() <= j < final(self).lifeforms@.len() ==> {
                    &&& (#[trigger] final(self).lifeforms@[j]).id == old(self).next_id + (j - old(
                        self,
                    ).lifeforms@.len())
                    &&& is_newborn(final(self).lifeforms@[j])
                },
    {
        let present = self.lifeforms.len();
        let wanted = self.props.num_initial_lifeforms;
        let helper = self.props.neural_net_helper;
        let genome_size = self.props.genome_size;
        let ghost first = self.lifeforms@;
        assert(self.lifeforms@.take(present as int) =~= first);
        while self.lifeforms.len() < wanted
            invariant
                first == old(self).lifeforms@,
                present == first.len(),
                wanted == old(self).props.num_initial_lifeforms,
                helper == old(self).props.neural_net_helper,
                genome_size == old(self).props.genome_size,
                old(self).structure_ok(),
                old(self).next_id + wanted <= usize::MAX,
                self.structure_ok(),
                old(self).all_vital() ==> self.all_vital(),
                self.props == old(self).props,
                self.rng.drawn() == old(self).rng.drawn() + (self.lifeforms@.len() - present)
                    * seedling_draws(genome_size),
                self.tick == old(self).tick,
                self.same_markers(old(self)),
                present <= self.lifeforms@.len(),
                self.lifeforms@.len() <= wanted || self.lifeforms@.len() == present,
                self.lifeforms@.take(present as int) == first,
                self.next_id == old(self).next_id + (self.lifeforms@.len() - present),
                forall|j: int|
                    present <= j < self.lifeforms@.len() ==> {
                        &&& (#[trigger] self.lifeforms@[j]).id == old(self).next_id + (j - present)
                        &&& is_newborn(self.lifeforms@[j])
                    },
            decreases wanted - self.lifeforms@.len(),
        {
            let ghost before = self.lifeforms@;
            let genome = Genome::random(helper, genome_size, &mut self.rng);
            let id = self.settle(genome);
            proof {
                assert(id.is_some());
                lemma_one_more(before.len() - present, seedling_draws(genome_size));
                let after = self.lifeforms@;
                assert(after.take(present as int) =~= before.take(present as int)) by {
                    assert forall|k: int| 0 <= k < present implies after[k] == before[k] by {
                        assert(after.drop_last()[k] == before[k]);
                    }
                }
                assert forall|j: int| present <= j < after.len() implies {
                    &&& (#[trigger] after[j]).id == old(self).next_id + (j - present)
                    &&& is_newborn(after[j])
                } by {
                    if j < before.len() {
                        assert(after.drop_last()[j] == before[j]);
                    }
                }
            }
        }
    }

    /// A world at tick zero with `num_initial_lifeforms` lifeforms, each with a freshly
    /// drawn genome, and no food, water or danger yet. The configuration is checked
    /// first, and rejected with the first fault it has.
    pub fn new(props: WorldProps<'a>, seed: u64) -> (made: Result<World<'a>, ConfigError>)
        requires
            props.neural_net_helper.wf(),
        ensures
            match made {
                Ok(world) => {
                    &&& props.first_error().is_none()
                    &&& world.wf()
                    &&& world.props == props
                    &&& world.tick == 0
                    &&& world.lifeforms@.len() == props.num_initial_lifeforms
                    &&& world.next_id == props.num_initial_lifeforms
                    &&& world.rng.drawn() == props.num_initial_lifeforms * seedling_draws(
                        props.genome_size,
                    )
                    &&& world.food@.len() == 0
                    &&& world.water@.len() == 0
                    &&& world.danger@.len() == 0
                    &&& forall|i: int|
                        0 <= i < world.lifeforms@.len() ==> (#[trigger] world.lifeforms@[i]).id == i
                            && is_newborn(world.lifeforms@[i])
                },
                Err(e) => props.first_error() == Some(e),
            },
    {
        let mut world = match World::empty(props, seed) {
            Ok(world) => world,
            Err(e) => {
                return Err(e);
            },
        };
        assert(props.num_initial_lifeforms <= 65_535 * 65_535) by (nonlinear_arith)
            requires
                props.num_initial_lifeforms <= props.size * props.size,
                props.size <= 65_535,
        ;
        world.seed();
        proof {
            assert(world.lifeforms@.take(0) =~= Seq::<Lifeform>::empty());
        }
        Ok(world)
    }

    /// The reproduction that restores the population floor: while fewer lifeforms
    /// live than `minimum_number_lifeforms`, an offspring of a drawn survivor is born.
    /// A world at or above the floor is left as it is, and a world without survivors is
    /// seeded anew.
    pub fn repopulate(&mut self)
        requires
            old(self).structure_ok(),
            old(self).next_id + old(self).props.minimum_number_lifeforms <= usize::MAX,
            old(self).next_id + old(self).props.num_initial_lifeforms <= usize::MAX,
        ensures
            final(self).structure_ok(),
            old(self).all_vital() ==> final(self).all_vital(),
            final(self).props == old(self).props,
            old(self).lifeforms@.len() == 0 ==> final(self).rng.drawn() == old(self).rng.drawn()
                + final(self).lifeforms@.len() * seedling_draws(old(self).props.genome_size),
            old(self).lifeforms@.len() > 0 ==> old(self).rng.drawn() + (final(self).lifeforms@.len()
                - old(self).lifeforms@.len()) * least_offspring_draws(
                old(self).props.genome_size,
            ) <= final(self).rng.drawn() <= old(self).rng.drawn() + (final(self).lifeforms@.len()
                - old(self).lifeforms@.len()) * most_offspring_draws(
                old(self).props.genome_size,
            ),
            final(self).tick == old(self).tick,
            final(self).same_markers(old(self)),
            final(self).lifeforms@.len() == (if old(self).lifeforms@.len() == 0 {
                old(self).props.num_initial_lifeforms as nat
            } else if old(self).lifeforms@.len() < old(self).props.minimum_number_lifeforms {
                old(self).props.minimum_number_lifeforms as nat
            } else {
                old(self).lifeforms@.len()
            }),
            final(self).lifeforms@.take(old(self).lifeforms@.len() as int) == old(self).lifeforms@,
            final(self).next_id == old(self).next_id + (final(self).lifeforms@.len() - old(
                self,
            ).lifeforms@.len()),
            forall|j: int|
                old(self).lifeforms@.len() <= j < final(self).lifeforms@.len() ==> {
                    &&& (#[trigger] final(self).lifeforms@[j]).id == old(self).next_id + (j - old(
                        self,
                    ).lifeforms@.len())
                    &&& is_newborn(final(self).lifeforms@[j])
                    &&& old(self).lifeforms@.len() > 0 ==> is_offspring(
                        final(self).lifeforms@[j],
                        old(self).lifeforms@,
                        old(self).inner(),
                    )
                },
    {
        let survivors = self.lifeforms.len();
        let floor = self.props.minimum_number_lifeforms;
        let helper = self.props.neural_net_helper;
        let rate = self.props.mutation_rate;
        let ghost parents = self.lifeforms@;
        assert(self.lifeforms@.take(survivors as int) =~= parents);
        if survivors == 0 {
            self.seed();
            return ;
        }
        while self.lifeforms.len() < floor
            invariant
                parents == old(self).lifeforms@,
                survivors == parents.len(),
                survivors > 0,
                floor == old(self).props.minimum_number_lifeforms,
                helper == old(self).props.neural_net_helper,
                rate == old(self).props.mutation_rate,
                old(self).structure_ok(),
                old(self).next_id + floor <= usize::MAX,
                self.structure_ok(),
                old(self).all_vital() ==> self.all_vital(),
                self.props == old(self).props,
                old(self).rng.drawn() + (self.lifeforms@.len() - survivors)
                    * least_offspring_draws(self.props.genome_size) <= self.rng.drawn() <= old(
                    self,
                ).rng.drawn() + (self.lifeforms@.len() - survivors) * most_offspring_draws(
                    self.props.genome_size,
                ),
                self.tick == old(self).tick,
                self.same_markers(old(self)),
                survivors <= self.lifeforms@.len(),
                self.lifeforms@.len() <= floor || self.lifeforms@.len() == survivors,
                self.lifeforms@.take(survivors as int) == parents,
                self.next_id == old(self).next_id + (self.lifeforms@.len() - survivors),
                forall|j: int|
                    survivors <= j < self.lifeforms@.len() ==> {
                        &&& (#[trigger] self.lifeforms@[j]).id == old(self).next_id + (j
                            - survivors)
                        &&& is_offspring(self.lifeforms@[j], parents, old(self).inner())
                    },
            decreases floor - self.lifeforms@.len(),
        {
            let ghost before = self.lifeforms@;
            let p = self.rng.below(survivors);
            proof {
                assert(before.take(survivors as int)[p as int] == before[p as int]);
                assert(parents[p as int].wf(self.size(), self.inner(), self.props.genome_size));
            }
            let genome = self.lifeforms[p].genome.mutate(helper, rate, &mut self.rng);
            let id = self.settle(genome);
            proof {
                assert(id.is_some());
                lemma_one_more(
                    before.len() - survivors,
                    least_offspring_draws(self.props.genome_size),
                );
                lemma_one_more(
                    before.len() - survivors,
                    most_offspring_draws(self.props.genome_size),
                );
                let after = self.lifeforms@;
                assert(after.take(survivors as int) =~= before.take(survivors as int)) by {
                    assert forall|k: int| 0 <= k < survivors implies after[k] == before[k] by {
                        assert(after.drop_last()[k] == before[k]);
                    }
                }
                assert forall|j: int| survivors <= j < after.len() implies {
                    &&& (#[trigger] after[j]).id == old(self).next_id + (j - survivors)
                    &&& is_offspring(after[j], parents, old(self).inner())
                } by {
                    if j < before.len() {
                        assert(after.drop_last()[j] == before[j]);
                    } else {
                        assert(after[j] == after.last());
                        assert(is_mutation_of(
                            after[j].genome@,
                            parents[p as int].genome@,
                            old(self).inner(),
                        ));
                    }
                }
            }
        }
    }
}

} // verus!
