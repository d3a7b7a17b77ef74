//! The first half of a tick: every lifeform senses, thinks and takes its turn.
//!
//! All sensing comes first and sees the world as the tick found it. Then every
//! lifeform thinks, and then the lifeforms take their turns one after another in the
//! order of the agent set: a lifeform acts on the world as the turns before it left it,
//! goes through the upkeep of the tick, and then eats and drinks what its cell holds.

use crate::evaluation::{readings, sensors_ok};
use crate::geometry::{adjacent, Location};
use crate::lifeform::{health_less, lemma_upkeep_monotonic, thought, Lifeform, ATTACK_DAMAGE};
use crate::markers::{marked_at, take_marker, without};
use crate::neural_net::{InputNeuronType, OutputNeuronType};
use crate::population::{
    act, acted, all_placed, beside, lemma_act_keeps_population, lemma_act_spares_vitals,
    population_ok,
};
use crate::search::{is_first_least, lemma_first_least_found, lemma_first_least_meaning, no_key};
use crate::sensors::{noise_from_draw, sense, sensor_readings, NOISE_CHOICES};
use crate::world::World;
use vstd::prelude::*;

verus! {

/// What the turns of a tick work on: the agent set, the food and the water.
#[verifier::ext_equal]
pub struct Ground {
    pub lifeforms: Seq<Lifeform>,
    pub food: Seq<Location>,
    pub water: Seq<Location>,
}

/// The ground after the lifeform at `index` has gone through the upkeep of the tick
/// and has eaten the food and drunk the water of its cell, if there is any.
pub open spec fn sustained(ground: Ground, index: int) -> Ground {
    let me = ground.lifeforms[index];
    let ate = ground.food.contains(me.location);
    let drank = ground.water.contains(me.location);
    Ground {
        lifeforms: ground.lifeforms.update(index, me.kept_up(ate, drank)),
        food: without(ground.food, me.location),
        water: without(ground.water, me.location),
    }
}

/// The ground after the turn of the lifeform at `index`: it carries out `action`, goes
/// through its upkeep, and eats and drinks.
pub open spec fn turn(
    ground: Ground,
    size: usize,
    index: int,
    action: Option<OutputNeuronType>,
) -> Ground {
    sustained(
        Ground {
            lifeforms: acted(ground.lifeforms, size, index, action),
            food: ground.food,
            water: ground.water,
        },
        index,
    )
}

/// The ground after the turns of the first `upto` lifeforms, in their order.
pub open spec fn turns(
    ground: Ground,
    size: usize,
    decisions: Seq<Option<OutputNeuronType>>,
    upto: int,
) -> Ground
    decreases upto,
{
    if upto <= 0 {
        ground
    } else {
        turn(turns(ground, size, decisions, upto - 1), size, upto - 1, decisions[upto - 1])
    }
}

/// Whether `sensors` holds what the lifeform at `index` senses in `world`, with the
/// reading of the random sensor as it stands in `sensors`.
pub open spec fn sensed(world: &World, index: int, sensors: Seq<i32>) -> bool {
    &&& sensors_ok(sensors)
    &&& readings(sensors) == sensor_readings(
        world.lifeforms@,
        world.food@,
        world.danger@,
        world.size(),
        world.tick,
        index,
        sensors[InputNeuronType::Random.index()] as int,
    )
}

/// An agent set in order is placed on the grid with vitals in range.
pub proof fn lemma_population_placed(
    lifeforms: Seq<Lifeform>,
    size: usize,
    inner: nat,
    genome_size: usize,
)
    requires
        population_ok(lifeforms, size, inner, genome_size),
    ensures
        all_placed(lifeforms, size),
{
    assert forall|i: int| 0 <= i < lifeforms.len() implies crate::geometry::in_bounds(
        (#[trigger] lifeforms[i]).location,
        size,
    ) && lifeforms[i].vitals_ok() by {
        assert(lifeforms[i].wf(size, inner, genome_size));
    }
}

/// What one turn does to the vitals: nobody's health rises; hunger and thirst change
/// for the lifeform whose turn it is only, and do not fall for it unless its cell held
/// food or water.
pub proof fn lemma_turn_vitals(
    ground: Ground,
    size: usize,
    index: int,
    action: Option<OutputNeuronType>,
)
    requires
        0 <= index < ground.lifeforms.len(),
        all_placed(ground.lifeforms, size),
    ensures
        turn(ground, size, index, action).lifeforms.len() == ground.lifeforms.len(),
        all_placed(turn(ground, size, index, action).lifeforms, size),
        turn(ground, size, index, action).food.len() <= ground.food.len(),
        turn(ground, size, index, action).water.len() <= ground.water.len(),
        forall|i: int|
            0 <= i < ground.lifeforms.len() ==> {
                &&& (#[trigger] turn(ground, size, index, action).lifeforms[i]).health
                    <= ground.lifeforms[i].health
                &&& ground.food.len() == 0 || i != index ==> turn(
                    ground,
                    size,
                    index,
                    action,
                ).lifeforms[i].hunger >= ground.lifeforms[i].hunger
                &&& ground.water.len() == 0 || i != index ==> turn(
                    ground,
                    size,
                    index,
                    action,
                ).lifeforms[i].thirst >= ground.lifeforms[i].thirst
            },
{
    let moved = acted(ground.lifeforms, size, index, action);
    lemma_act_spares_vitals(ground.lifeforms, size, index, action);
    let me = moved[index];
    assert(me.vitals_ok());
    let ate = ground.food.contains(me.location);
    let drank = ground.water.contains(me.location);
    lemma_upkeep_monotonic(me, ate, drank);
    lemma_first_least_meaning(
        ground.food.len() as int,
        marked_at(ground.food, me.location),
        no_key(),
    );
    lemma_first_least_meaning(
        ground.water.len() as int,
        marked_at(ground.water, me.location),
        no_key(),
    );
    let after = turn(ground, size, index, action).lifeforms;
    assert forall|i: int| 0 <= i < ground.lifeforms.len() implies {
        &&& (#[trigger] after[i]).health <= ground.lifeforms[i].health
        &&& ground.food.len() == 0 || i != index ==> after[i].hunger
            >= ground.lifeforms[i].hunger
        &&& ground.water.len() == 0 || i != index ==> after[i].thirst
            >= ground.lifeforms[i].thirst
        &&& crate::geometry::in_bounds(after[i].location, size)
        &&& after[i].vitals_ok()
    } by {
        assert(moved[i].health <= ground.lifeforms[i].health);
        assert(moved[i].vitals_ok());
    }
}

/// An attack hits once: where the lifeform at `defender` is the first neighbour of the
/// one at `attacker`, and so where it is the only one, the turn of an attacker that
/// attacks wounds the defender and nobody else, and leaves the attacker with its own
/// upkeep and what it ate and drank.
pub proof fn lemma_attack_hits_once(ground: Ground, size: usize, attacker: int, defender: int)
    requires
        0 <= attacker < ground.lifeforms.len(),
        0 <= defender < ground.lifeforms.len(),
        attacker != defender,
        all_placed(ground.lifeforms, size),
        adjacent(ground.lifeforms[attacker].location, ground.lifeforms[defender].location),
        forall|k: int|
            0 <= k < defender && k != attacker ==> !adjacent(
                ground.lifeforms[attacker].location,
                (#[trigger] ground.lifeforms[k]).location,
            ),
    ensures
        turn(ground, size, attacker, Some(OutputNeuronType::Attack)).lifeforms
            == ground.lifeforms.update(defender, ground.lifeforms[defender].wounded()).update(
            attacker,
            ground.lifeforms[attacker].kept_up(
                ground.food.contains(ground.lifeforms[attacker].location),
                ground.water.contains(ground.lifeforms[attacker].location),
            ),
        ),
        turn(ground, size, attacker, Some(OutputNeuronType::Attack)).lifeforms[defender].health
            == health_less(ground.lifeforms[defender].health as int, ATTACK_DAMAGE as int),
        ground.lifeforms[defender].health >= ATTACK_DAMAGE ==> turn(
            ground,
            size,
            attacker,
            Some(OutputNeuronType::Attack),
        ).lifeforms[defender].health == ground.lifeforms[defender].health - ATTACK_DAMAGE,
{
    let near = beside(ground.lifeforms, attacker);
    assert(near(defender));
    assert forall|k: int| 0 <= k < defender && #[trigger] near(k) implies false by {
        assert(!adjacent(ground.lifeforms[attacker].location, ground.lifeforms[k].location));
    }
    assert(is_first_least(ground.lifeforms.len() as int, near, no_key(), defender));
    lemma_first_least_found(ground.lifeforms.len() as int, near, no_key(), defender);
    assert(ground.lifeforms[defender].vitals_ok());
    let after = turn(ground, size, attacker, Some(OutputNeuronType::Attack)).lifeforms;
    assert(after =~= ground.lifeforms.update(
        defender,
        ground.lifeforms[defender].wounded(),
    ).update(
        attacker,
        ground.lifeforms[attacker].kept_up(
            ground.food.contains(ground.lifeforms[attacker].location),
            ground.water.contains(ground.lifeforms[attacker].location),
        ),
    ));
}

/// What the turns of a tick do to the vitals: nobody's health rises, and where the
/// world holds no food nobody's hunger falls, and where it holds no water nobody's
/// thirst.
pub proof fn lemma_turns_vitals(
    ground: Ground,
    size: usize,
    decisions: Seq<Option<OutputNeuronType>>,
    upto: int,
)
    requires
        0 <= upto <= ground.lifeforms.len(),
        all_placed(ground.lifeforms, size),
    ensures
        turns(ground, size, decisions, upto).lifeforms.len() == ground.lifeforms.len(),
        all_placed(turns(ground, size, decisions, upto).lifeforms, size),
        turns(ground, size, decisions, upto).food.len() <= ground.food.len(),
        turns(ground, size, decisions, upto).water.len() <= ground.water.len(),
        forall|i: int|
            0 <= i < ground.lifeforms.len() ==> {
                &&& (#[trigger] turns(ground, size, decisions, upto).lifeforms[i]).health
                    <= ground.lifeforms[i].health
                &&& ground.food.len() == 0 ==> turns(ground, size, decisions, upto).lifeforms[i].hunger
                    >= ground.lifeforms[i].hunger
                &&& ground.water.len() == 0 ==> turns(
                    ground,
                    size,
                    decisions,
                    upto,
                ).lifeforms[i].thirst >= ground.lifeforms[i].thirst
            },
    decreases upto,
{
    if upto > 0 {
        lemma_turns_vitals(ground, size, decisions, upto - 1);
        let earlier = turns(ground, size, decisions, upto - 1);
        lemma_turn_vitals(earlier, size, upto - 1, decisions[upto - 1]);
        let after = turns(ground, size, decisions, upto).lifeforms;
        assert forall|i: int| 0 <= i < ground.lifeforms.len() implies {
            &&& (#[trigger] after[i]).health <= ground.lifeforms[i].health
            &&& ground.food.len() == 0 ==> after[i].hunger >= ground.lifeforms[i].hunger
            &&& ground.water.len() == 0 ==> after[i].thirst >= ground.lifeforms[i].thirst
        } by {
            assert(earlier.lifeforms[i].health <= ground.lifeforms[i].health);
        }
    }
}

impl<'a> World<'a> {
    /// What the turns of a tick work on.
    pub open spec fn ground(&self) -> Ground {
        Ground { lifeforms: self.lifeforms@, food: self.food@, water: self.water@ }
    }

    /// The readings of every lifeform, in the order of the agent set. Only the random
    /// source moves.
    pub fn sense_all(&mut self) -> (all: Vec<Vec<i32>>)
        requires
            old(self).structure_ok(),
        ensures
            final(self).same_setting(old(self)),
            final(self).rng.drawn() == old(self).rng.drawn() + old(
                self,
            ).lifeforms@.len(),
            final(self).lifeforms == old(self).lifeforms,
            final(self).food == old(self).food,
            final(self).water == old(self).water,
            final(self).danger == old(self).danger,
            all@.len() == old(self).lifeforms@.len(),
            forall|i: int| 0 <= i < all@.len() ==> sensed(old(self), i, (#[trigger] all@[i])@),
    {
        proof {
            lemma_population_placed(
                self.lifeforms@,
                self.size(),
                self.inner(),
                self.props.genome_size,
            );
        }
        let mut all: Vec<Vec<i32>> = Vec::new();
        let mut i: usize = 0;
        while i < self.lifeforms.len()
            invariant
                self.structure_ok(),
                all_placed(self.lifeforms@, self.size()),
                self.same_setting(old(self)),
                self.rng.drawn() == old(self).rng.drawn() + i,
                self.lifeforms == old(self).lifeforms,
                self.food == old(self).food,
                self.water == old(self).water,
                self.danger == old(self).danger,
                i <= self.lifeforms@.len(),
                all@.len() == i,
                forall|j: int| 0 <= j < i ==> sensed(old(self), j, (#[trigger] all@[j])@),
            decreases self.lifeforms@.len() - i,
        {
            let noise = noise_from_draw(self.rng.below(NOISE_CHOICES));
            let sensors = sense(
                &self.lifeforms,
                &self.food,
                &self.danger,
                self.props.size,
                self.tick,
                i,
                noise,
            );
            proof {
                assert(readings(sensors@)[14] == noise);
                assert(sensors@[14] == noise);
            }
            all.push(sensors);
            i += 1;
        }
        all
    }

    /// Lets every lifeform think on its readings; returns the decisions in the order
    /// of the agent set. Nothing but the networks changes.
    pub fn think_all(&mut self, sensors: &Vec<Vec<i32>>) -> (decisions: Vec<
        Option<OutputNeuronType>,
    >)
        requires
            old(self).structure_ok(),
            sensors@.len() == old(self).lifeforms@.len(),
            forall|i: int| 0 <= i < sensors@.len() ==> sensors_ok((#[trigger] sensors@[i])@),
        ensures
            final(self).structure_ok(),
            old(self).all_vital() ==> final(self).all_vital(),
            final(self).same_setting(old(self)),
            final(self).rng.drawn() == old(self).rng.drawn(),
            final(self).food == old(self).food,
            final(self).water == old(self).water,
            final(self).danger == old(self).danger,
            final(self).lifeforms@.len() == old(self).lifeforms@.len(),
            decisions@.len() == old(self).lifeforms@.len(),
            forall|i: int|
                0 <= i < decisions@.len() ==> thought(
                    old(self).lifeforms@[i],
                    sensors@[i]@,
                    #[trigger] final(self).lifeforms@[i],
                    decisions@[i],
                ),
    {
        let ghost before = self.lifeforms@;
        let mut decisions: Vec<Option<OutputNeuronType>> = Vec::new();
        let mut i: usize = 0;
        while i < self.lifeforms.len()
            invariant
                before == old(self).lifeforms@,
                old(self).structure_ok(),
                self.same_setting(old(self)),
                self.rng.drawn() == old(self).rng.drawn(),
                self.food == old(self).food,
                self.water == old(self).water,
                self.danger == old(self).danger,
                sensors@.len() == before.len(),
                forall|j: int| 0 <= j < sensors@.len() ==> sensors_ok((#[trigger] sensors@[j])@),
                self.lifeforms@.len() == before.len(),
                i <= before.len(),
                decisions@.len() == i,
                forall|j: int|
                    0 <= j < i ==> thought(
                        before[j],
                        sensors@[j]@,
                        #[trigger] self.lifeforms@[j],
                        decisions@[j],
                    ),
                forall|j: int| i <= j < before.len() ==> #[trigger] self.lifeforms@[j] == before[j],
            decreases before.len() - i,
        {
            assert(before[i as int].wf(self.size(), self.inner(), self.props.genome_size));
            let decision = self.lifeforms[i].think(&sensors[i]);
            decisions.push(decision);
            i += 1;
        }
        proof {
            let after = self.lifeforms@;
            assert forall|j: int| 0 <= j < after.len() implies (#[trigger] after[j]).wf(
                self.size(),
                self.inner(),
                self.props.genome_size,
            ) && after[j].id == before[j].id && after[j].location == before[j].location
                && after[j].health == before[j].health && after[j].age == before[j].age by {
                assert(before[j].wf(self.size(), self.inner(), self.props.genome_size));
                assert(thought(before[j], sensors@[j]@, after[j], decisions@[j]));
            }
            assert forall|j: int, k: int| 0 <= j < k < after.len() implies (#[trigger] after[j]).id
                < (#[trigger] after[k]).id && after[j].location != after[k].location by {
                assert(before[j].id < before[k].id);
                assert(before[j].location != before[k].location);
            }
            assert forall|j: int| 0 <= j < after.len() implies (#[trigger] after[j]).id
                < self.next_id by {
                assert(before[j].id < old(self).next_id);
            }
            if old(self).all_vital() {
                assert forall|j: int| 0 <= j < after.len() implies (#[trigger] after[j]).health > 0
                    && after[j].age <= self.props.max_lifespan by {
                    assert(before[j].health > 0);
                }
            }
        }
        decisions
    }

    /// Lets the lifeform at `index` go through the upkeep of the tick and eat the food
    /// and drink the water of its cell, if there is any.
    pub fn sustain(&mut self, index: usize)
        requires
            old(self).structure_ok(),
            index < old(self).lifeforms@.len(),
            old(self).lifeforms@[index as int].age < u64::MAX,
        ensures
            final(self).ground() == sustained(old(self).ground(), index as int),
            final(self).structure_ok(),
            final(self).same_setting(old(self)),
            final(self).rng.drawn() == old(self).rng.drawn(),
            final(self).danger == old(self).danger,
            final(self).lifeforms@.len() == old(self).lifeforms@.len(),
            forall|j: int|
                0 <= j < old(self).lifeforms@.len() ==> (#[trigger] final(self).lifeforms@[j]).id
                    == old(self).lifeforms@[j].id,
            final(self).food@.len() <= old(self).food@.len(),
            final(self).water@.len() <= old(self).water@.len(),
    {
        let ghost before = self.lifeforms@;
        assert(before[index as int].wf(self.size(), self.inner(), self.props.genome_size));
        let cell = self.lifeforms[index].location;
        let ate = take_marker(&mut self.food, cell);
        let drank = take_marker(&mut self.water, cell);
        self.lifeforms[index].upkeep(ate, drank);
        proof {
            let after = self.lifeforms@;
            assert(after =~= before.update(index as int, before[index as int].kept_up(ate, drank)));
            assert forall|j: int| 0 <= j < after.len() implies (#[trigger] after[j]).wf(
                self.size(),
                self.inner(),
                self.props.genome_size,
            ) && after[j].id == before[j].id && after[j].location == before[j].location by {
                assert(before[j].wf(self.size(), self.inner(), self.props.genome_size));
            }
            assert forall|j: int, k: int| 0 <= j < k < after.len() implies (#[trigger] after[j]).id
                < (#[trigger] after[k]).id && after[j].location != after[k].location by {
                assert(before[j].id < before[k].id);
                assert(before[j].location != before[k].location);
            }
            assert forall|j: int| 0 <= j < after.len() implies (#[trigger] after[j]).id
                < self.next_id by {
                assert(before[j].id < old(self).next_id);
            }
            assert(self.ground() =~= sustained(old(self).ground(), index as int));
        }
    }

    /// The turn of the lifeform at `index`: it carries out `action`, goes through its
    /// upkeep, and eats and drinks.
    pub fn take_turn(&mut self, index: usize, action: Option<OutputNeuronType>)
        requires
            old(self).structure_ok(),
            index < old(self).lifeforms@.len(),
            old(self).lifeforms@[index as int].age < u64::MAX,
        ensures
            final(self).ground() == turn(
                old(self).ground(),
                old(self).size(),
                index as int,
                action,
            ),
            final(self).structure_ok(),
            final(self).same_setting(old(self)),
            final(self).rng.drawn() == old(self).rng.drawn(),
            final(self).danger == old(self).danger,
            final(self).lifeforms@.len() == old(self).lifeforms@.len(),
            forall|j: int|
                0 <= j < old(self).lifeforms@.len() && j != index ==> (
                #[trigger] final(self).lifeforms@[j]).age == old(self).lifeforms@[j].age,
            forall|j: int|
                0 <= j < old(self).lifeforms@.len() ==> (#[trigger] final(self).lifeforms@[j]).id
                    == old(self).lifeforms@[j].id,
            final(self).food@.len() <= old(self).food@.len(),
            final(self).water@.len() <= old(self).water@.len(),
    {
        proof {
            lemma_population_placed(
                self.lifeforms@,
                self.size(),
                self.inner(),
                self.props.genome_size,
            );
            lemma_act_keeps_population(
                self.lifeforms@,
                self.size(),
                self.inner(),
                self.props.genome_size,
                index as int,
                action,
            );
        }
        act(&mut self.lifeforms, self.props.size, index, action);
        let ghost moved = self.lifeforms@;
        assert forall|j: int| 0 <= j < moved.len() implies (#[trigger] moved[j]).id
            < self.next_id by {
            assert(old(self).lifeforms@[j].id < old(self).next_id);
        }
        self.sustain(index);
        proof {
            assert forall|j: int| 0 <= j < moved.len() && j != index implies (
            #[trigger] self.lifeforms@[j]).age == old(self).lifeforms@[j].age by {
                assert(moved[j].age == old(self).lifeforms@[j].age);
            }
            assert forall|j: int| 0 <= j < moved.len() implies (#[trigger] self.lifeforms@[j]).id
                == old(self).lifeforms@[j].id by {
                assert(moved[j].id == old(self).lifeforms@[j].id);
            }
        }
    }

    /// The turns of all lifeforms, in the order of the agent set; `decisions` holds
    /// the decision of each.
    pub fn take_turns(&mut self, decisions: &Vec<Option<OutputNeuronType>>)
        requires
            old(self).wf(),
            decisions@.len() == old(self).lifeforms@.len(),
        ensures
            final(self).ground() == turns(
                old(self).ground(),
                old(self).size(),
                decisions@,
                decisions@.len() as int,
            ),
            final(self).structure_ok(),
            final(self).same_setting(old(self)),
            final(self).rng.drawn() == old(self).rng.drawn(),
            final(self).danger == old(self).danger,
            final(self).lifeforms@.len() == old(self).lifeforms@.len(),
            forall|j: int|
                0 <= j < old(self).lifeforms@.len() ==> (#[trigger] final(self).lifeforms@[j]).id
                    == old(self).lifeforms@[j].id,
            final(self).food@.len() <= old(self).food@.len(),
            final(self).water@.len() <= old(self).water@.len(),
    {
        let mut i: usize = 0;
        while i < decisions.len()
            invariant
                old(self).wf(),
                decisions@.len() == old(self).lifeforms@.len(),
                self.lifeforms@.len() == old(self).lifeforms@.len(),
                i <= decisions@.len(),
                self.structure_ok(),
                self.same_setting(old(self)),
                self.rng.drawn() == old(self).rng.drawn(),
                self.danger == old(self).danger,
                self.ground() == turns(old(self).ground(), old(self).size(), decisions@, i as int),
                forall|j: int|
                    i <= j < self.lifeforms@.len() ==> (#[trigger] self.lifeforms@[j]).age == old(
                        self,
                    ).lifeforms@[j].age,
                forall|j: int|
                    0 <= j < self.lifeforms@.len() ==> (#[trigger] self.lifeforms@[j]).id == old(
                        self,
                    ).lifeforms@[j].id,
                self.food@.len() <= old(self).food@.len(),
                self.water@.len() <= old(self).water@.len(),
            decreases decisions@.len() - i,
        {
            assert(old(self).lifeforms@[i as int].age <= self.props.max_lifespan);
            self.take_turn(i, decisions[i]);
            i += 1;
        }
    }
}

} // verus!
