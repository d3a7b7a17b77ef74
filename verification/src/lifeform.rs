//! A lifeform: its identity, its place on the grid, its vitals, its genome and its
//! network; and what a tick does to one lifeform on its own.

use crate::evaluation::{all_idle, evaluated, is_strongest, sensors_ok};
use crate::fixed::{in_unit, UNIT};
use crate::genome::Genome;
use crate::geometry::{in_bounds, Heading, Location};
use crate::markers::holds_marker;
use crate::neural_net::{NeuralNet, OutputNeuronType};
use vstd::prelude::*;

verus! {

/// What the upkeep of every tick adds to hunger.
pub const HUNGER_STEP: i32 = 5;

/// What the upkeep of every tick adds to thirst.
pub const THIRST_STEP: i32 = 5;

/// The hunger above which a lifeform starves.
pub const HUNGER_CAP: i32 = 800;

/// The thirst above which a lifeform dries out.
pub const THIRST_CAP: i32 = 800;

/// What the upkeep takes from health where it leaves hunger or thirst above its cap.
pub const STARVATION_DAMAGE: i32 = 10;

/// What one attack takes from the health of its target.
pub const ATTACK_DAMAGE: i32 = 100;

/// What eating takes from hunger.
pub const FOOD_GAIN: i32 = 300;

/// What drinking takes from thirst.
pub const WATER_GAIN: i32 = 300;

/// One agent of the simulation.
#[derive(Debug)]
pub struct Lifeform {
    pub id: usize,
    pub location: Location,
    pub heading: Heading,
    pub health: i32,
    pub hunger: i32,
    pub thirst: i32,
    pub age: u64,
    pub genome: Genome,
    pub neural_net: NeuralNet,
}

/// Hunger once the upkeep of a tick has raised it: `HUNGER_STEP` more, never above
/// 1.0.
pub open spec fn hunger_raised(hunger: int) -> int {
    if hunger + HUNGER_STEP <= UNIT {
        hunger + HUNGER_STEP
    } else {
        UNIT as int
    }
}

/// Thirst once the upkeep of a tick has raised it: `THIRST_STEP` more, never above
/// 1.0.
pub open spec fn thirst_raised(thirst: int) -> int {
    if thirst + THIRST_STEP <= UNIT {
        thirst + THIRST_STEP
    } else {
        UNIT as int
    }
}

/// A level of hunger or thirst once eating or drinking has taken `gain` off it, never
/// below 0.0.
pub open spec fn eased(level: int, gain: int) -> int {
    if level >= gain {
        level - gain
    } else {
        0
    }
}

/// Hunger after a tick: raised by the upkeep, whatever the lifeform did, and then
/// eased by `FOOD_GAIN` where the lifeform ate.
pub open spec fn hunger_after(hunger: int, ate: bool) -> int {
    if ate {
        eased(hunger_raised(hunger), FOOD_GAIN as int)
    } else {
        hunger_raised(hunger)
    }
}

/// Thirst after a tick: raised by the upkeep, whatever the lifeform did, and then
/// eased by `WATER_GAIN` where the lifeform drank.
pub open spec fn thirst_after(thirst: int, drank: bool) -> int {
    if drank {
        eased(thirst_raised(thirst), WATER_GAIN as int)
    } else {
        thirst_raised(thirst)
    }
}

/// Health after losing `amount`, never below 0.0.
pub open spec fn health_less(health: int, amount: int) -> int {
    if health >= amount {
        health - amount
    } else {
        0
    }
}

/// Health after the upkeep of a tick has raised hunger to `hunger` and thirst to
/// `thirst`: lowered by `STARVATION_DAMAGE` where either is above its cap.
pub open spec fn health_after(health: int, hunger: int, thirst: int) -> int {
    if hunger > HUNGER_CAP || thirst > THIRST_CAP {
        health_less(health, STARVATION_DAMAGE as int)
    } else {
        health
    }
}

/// Whether `after` and `decision` are what thinking on the readings `sensors` makes of
/// the lifeform `before`: nothing but its network has changed, the network is the
/// evaluation of its genome on the readings, and the decision is that of the network.
pub open spec fn thought(
    before: Lifeform,
    sensors: Seq<i32>,
    after: Lifeform,
    decision: Option<OutputNeuronType>,
) -> bool {
    &&& after == before.wired(after.neural_net)
    &&& evaluated(before.neural_net, before.genome@, sensors, after.neural_net)
    &&& match decision {
        Some(kind) => is_strongest(after.neural_net.output_values(), kind.index()),
        None => all_idle(after.neural_net.output_values()),
    }
}

impl Lifeform {
    /// Health, hunger and thirst are scalars of `[0.0, 1.0]`.
    pub open spec fn vitals_ok(&self) -> bool {
        &&& in_unit(self.health as int)
        &&& in_unit(self.hunger as int)
        &&& in_unit(self.thirst as int)
    }

    /// The lifeform fits a world of side `size` whose taxonomy has `inner` hidden
    /// neurons and whose genomes have `genome_size` genes.
    pub open spec fn wf(&self, size: usize, inner: nat, genome_size: usize) -> bool {
        &&& in_bounds(self.location, size)
        &&& self.vitals_ok()
        &&& self.genome@.len() == genome_size
        &&& self.genome.wf(inner)
        &&& self.neural_net.wf()
        &&& self.neural_net.inner_count() == inner
    }

    /// The lifeform after the upkeep of one tick and what it ate and drank in it.
    /// The upkeep comes first: hunger and thirst rise, health falls where either is
    /// then above its cap, and the lifeform is one tick older. Eating and drinking then
    /// ease hunger and thirst.
    pub open spec fn kept_up(self, ate: bool, drank: bool) -> Lifeform {
        Lifeform {
            hunger: hunger_after(self.hunger as int, ate) as i32,
            thirst: thirst_after(self.thirst as int, drank) as i32,
            health: health_after(
                self.health as int,
                hunger_raised(self.hunger as int),
                thirst_raised(self.thirst as int),
            ) as i32,
            age: (self.age + 1) as u64,
            ..self
        }
    }

    /// The lifeform after one attack on it.
    pub open spec fn wounded(self) -> Lifeform {
        Lifeform { health: health_less(self.health as int, ATTACK_DAMAGE as int) as i32, ..self }
    }

    /// The lifeform facing `heading`.
    pub open spec fn facing(self, heading: Heading) -> Lifeform {
        Lifeform { heading: heading, ..self }
    }

    /// The lifeform at `cell`.
    pub open spec fn placed(self, cell: Location) -> Lifeform {
        Lifeform { location: cell, ..self }
    }

    /// The lifeform with the network `net`.
    pub open spec fn wired(self, net: NeuralNet) -> Lifeform {
        Lifeform { neural_net: net, ..self }
    }

    /// Whether the lifeform meets a death condition: no health left, older than
    /// `max_lifespan`, or standing on a cell of `danger`.
    pub open spec fn is_dead(&self, max_lifespan: u64, danger: Seq<Location>) -> bool {
        self.health <= 0 || self.age > max_lifespan || danger.contains(self.location)
    }

    /// A lifeform at the start of its life: full health, no hunger, no thirst, age
    /// zero.
    pub fn newborn(
        id: usize,
        location: Location,
        heading: Heading,
        genome: Genome,
        neural_net: NeuralNet,
    ) -> (lifeform: Lifeform)
        ensures
            lifeform == (Lifeform {
                id: id,
                location: location,
                heading: heading,
                health: UNIT,
                hunger: 0,
                thirst: 0,
                age: 0,
                genome: genome,
                neural_net: neural_net,
            }),
    {
        Lifeform {
            id,
            location,
            heading,
            health: UNIT,
            hunger: 0,
            thirst: 0,
            age: 0,
            genome,
            neural_net,
        }
    }

    /// The upkeep of one tick, and what the lifeform ate and drank in it: hunger and
    /// thirst rise, health falls where either is then above its cap, and the lifeform
    /// is one tick older; then hunger is eased where it ate, and thirst where it drank.
    pub fn upkeep(&mut self, ate: bool, drank: bool)
        requires
            old(self).vitals_ok(),
            old(self).age < u64::MAX,
        ensures
            *final(self) == old(self).kept_up(ate, drank),
            final(self).vitals_ok(),
    {
        let hunger: i32 = if self.hunger + HUNGER_STEP <= UNIT {
            self.hunger + HUNGER_STEP
        } else {
            UNIT
        };
        let thirst: i32 = if self.thirst + THIRST_STEP <= UNIT {
            self.thirst + THIRST_STEP
        } else {
            UNIT
        };
        if hunger > HUNGER_CAP || thirst > THIRST_CAP {
            self.health = if self.health >= STARVATION_DAMAGE {
                self.health - STARVATION_DAMAGE
            } else {
                0
            };
        }
        self.age = self.age + 1;
        self.hunger = if !ate {
            hunger
        } else if hunger >= FOOD_GAIN {
            hunger - FOOD_GAIN
        } else {
            0
        };
        self.thirst = if !drank {
            thirst
        } else if thirst >= WATER_GAIN {
            thirst - WATER_GAIN
        } else {
            0
        };
    }

    /// One attack on the lifeform: its health falls by `ATTACK_DAMAGE`.
    pub fn wound(&mut self)
        requires
            old(self).vitals_ok(),
        ensures
            *final(self) == old(self).wounded(),
            final(self).vitals_ok(),
    {
        self.health = if self.health >= ATTACK_DAMAGE {
            self.health - ATTACK_DAMAGE
        } else {
            0
        };
    }

    /// Evaluates the lifeform's network on the readings of this tick and returns its
    /// decision: the kind of the strongest active actuator, or `None`.
    pub fn think(&mut self, sensors: &Vec<i32>) -> (action: Option<OutputNeuronType>)
        requires
            old(self).neural_net.wf(),
            old(self).genome.wf(old(self).neural_net.inner_count()),
            sensors_ok(sensors@),
        ensures
            thought(*old(self), sensors@, *final(self), action),
    {
        self.neural_net.evaluate(&self.genome, sensors);
        self.neural_net.decide()
    }

    /// Whether the lifeform meets a death condition.
    pub fn has_died(&self, max_lifespan: u64, danger: &Vec<Location>) -> (dead: bool)
        ensures
            dead == self.is_dead(max_lifespan, danger@),
    {
        self.health <= 0 || self.age > max_lifespan || holds_marker(danger, self.location)
    }
}

/// Without food hunger does not fall in a tick, without water thirst does not fall,
/// and health never rises; once hunger or thirst is above its cap, be it after the
/// upkeep or at the end of the tick, health has fallen by `STARVATION_DAMAGE` or is
/// spent.
pub proof fn lemma_upkeep_monotonic(before: Lifeform, ate: bool, drank: bool)
    requires
        before.vitals_ok(),
    ensures
        !ate ==> before.kept_up(ate, drank).hunger >= before.hunger,
        !drank ==> before.kept_up(ate, drank).thirst >= before.thirst,
        before.kept_up(ate, drank).health <= before.health,
        hunger_raised(before.hunger as int) > HUNGER_CAP || thirst_raised(before.thirst as int)
            > THIRST_CAP ==> before.kept_up(ate, drank).health == health_less(
            before.health as int,
            STARVATION_DAMAGE as int,
        ),
        before.kept_up(ate, drank).hunger > HUNGER_CAP || before.kept_up(ate, drank).thirst
            > THIRST_CAP ==> before.kept_up(ate, drank).health == health_less(
            before.health as int,
            STARVATION_DAMAGE as int,
        ),
        before.kept_up(ate, drank).vitals_ok(),
{
}

/// Upkeep is the same whatever the lifeform finds on its cell: a tick with food ends
/// with hunger exactly `FOOD_GAIN` below the same tick without food, or at 0.0 where
/// less is left, and a tick with water likewise with thirst; health and age do not
/// depend on either.
pub proof fn lemma_gain_is_taken_once(before: Lifeform, ate: bool, drank: bool)
    requires
        before.vitals_ok(),
    ensures
        before.kept_up(true, drank).hunger == eased(
            before.kept_up(false, drank).hunger as int,
            FOOD_GAIN as int,
        ),
        before.kept_up(ate, true).thirst == eased(
            before.kept_up(ate, false).thirst as int,
            WATER_GAIN as int,
        ),
        before.kept_up(false, drank).hunger >= FOOD_GAIN ==> before.kept_up(true, drank).hunger
            == before.kept_up(false, drank).hunger - FOOD_GAIN,
        before.kept_up(ate, false).thirst >= WATER_GAIN ==> before.kept_up(ate, true).thirst
            == before.kept_up(ate, false).thirst - WATER_GAIN,
        before.kept_up(ate, drank).health == before.kept_up(false, false).health,
        before.kept_up(ate, drank).age == before.kept_up(false, false).age,
{
}

} // verus!
