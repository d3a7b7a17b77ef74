use evolution::config::{cell_count, target_count, ConfigError, WorldProps};
use evolution::genome::{Gene, Genome};
use evolution::geometry::{Heading, Location};
use evolution::lifeform::{
    Lifeform, ATTACK_DAMAGE, FOOD_GAIN, HUNGER_CAP, HUNGER_STEP, STARVATION_DAMAGE, THIRST_CAP,
    THIRST_STEP, WATER_GAIN,
};
use evolution::neural_net::{NeuralNetHelper, OutputNeuronType};
use evolution::population::{act, find_occupant, find_target, sweep};
use evolution::sensors::{
    count_neighbors, find_closest_peer, find_healthiest_peer, find_nearest, noise_from_draw,
    oscillator, sense,
};
use evolution::world::{find_free_cell, World};

fn at(x: usize, y: usize) -> Location {
    Location { x, y }
}

fn props(helper: &NeuralNetHelper, size: usize, initial: usize, floor: usize) -> WorldProps<'_> {
    WorldProps {
        size,
        neural_net_helper: helper,
        num_initial_lifeforms: initial,
        genome_size: 1,
        mutation_rate: 1000,
        food_density: 0,
        water_density: 0,
        num_inner_neurons: helper.inner_neurons.len(),
        minimum_number_lifeforms: floor,
        danger_delay: 1_000_000,
        max_lifespan: 500,
    }
}

/// A genome of one gene that lets own health drive one actuator at full weight.
fn driven(actuator: usize) -> Genome {
    Genome { genes: vec![Gene { from: 110, to: 300 + actuator, weight: 4000 }] }
}

/// A genome of one gene without weight: its network never decides anything.
fn idle() -> Genome {
    Genome { genes: vec![Gene { from: 110, to: 300, weight: 0 }] }
}

fn lifeform(helper: &NeuralNetHelper, id: usize, cell: Location) -> Lifeform {
    Lifeform::newborn(id, cell, Heading::North, idle(), helper.spawn())
}

#[test]
fn upkeep_raises_hunger_and_thirst() {
    let helper = NeuralNetHelper::new(0);
    let mut lf = lifeform(&helper, 0, at(0, 0));
    assert_eq!((lf.health, lf.hunger, lf.thirst, lf.age), (1000, 0, 0, 0));
    lf.upkeep(false, false);
    assert_eq!((lf.health, lf.hunger, lf.thirst, lf.age), (1000, HUNGER_STEP, THIRST_STEP, 1));
    assert_eq!((HUNGER_STEP, THIRST_STEP), (5, 5));
    lf.hunger = 998;
    lf.thirst = 1000;
    lf.upkeep(false, false);
    assert_eq!((lf.hunger, lf.thirst, lf.age), (1000, 1000, 2));
}

#[test]
fn vitals_are_monotonic_without_resources() {
    let helper = NeuralNetHelper::new(0);
    let mut lf = lifeform(&helper, 0, at(0, 0));
    let mut above_cap = false;
    for _ in 0..400 {
        let before = (lf.health, lf.hunger, lf.thirst);
        lf.upkeep(false, false);
        assert!(lf.hunger >= before.1);
        assert!(lf.thirst >= before.2);
        assert!(lf.health <= before.0);
        if lf.hunger > HUNGER_CAP || lf.thirst > THIRST_CAP {
            above_cap = true;
            assert_eq!(lf.health, (before.0 - STARVATION_DAMAGE).max(0));
        } else {
            assert_eq!(lf.health, before.0);
        }
    }
    assert!(above_cap);
    assert_eq!(lf.health, 0);
    assert_eq!(lf.hunger, 1000);
}

#[test]
fn health_falls_above_a_cap() {
    let helper = NeuralNetHelper::new(0);
    let mut lf = lifeform(&helper, 0, at(0, 0));
    assert_eq!((HUNGER_CAP, THIRST_CAP, STARVATION_DAMAGE), (800, 800, 10));
    lf.hunger = 795;
    lf.upkeep(false, false);
    assert_eq!((lf.hunger, lf.health), (800, 1000));
    lf.upkeep(false, false);
    assert_eq!((lf.hunger, lf.health), (805, 990));
    lf.hunger = 0;
    lf.thirst = 900;
    lf.health = 4;
    lf.upkeep(false, false);
    assert_eq!((lf.thirst, lf.health), (905, 0));
}

#[test]
fn eating_and_drinking_ease_the_vitals() {
    let helper = NeuralNetHelper::new(0);
    let mut lf = lifeform(&helper, 0, at(0, 0));
    assert_eq!((FOOD_GAIN, WATER_GAIN), (300, 300));
    // the upkeep raises hunger and thirst first; eating and drinking then ease them
    lf.hunger = 500;
    lf.thirst = 100;
    lf.upkeep(true, true);
    assert_eq!((lf.hunger, lf.thirst, lf.health, lf.age), (205, 0, 1000, 1));
    lf.hunger = 0;
    lf.thirst = 295;
    lf.upkeep(true, true);
    assert_eq!((lf.hunger, lf.thirst, lf.health), (0, 0, 1000));
    // hunger above its cap after the upkeep costs health even where the lifeform eats
    lf.hunger = 900;
    lf.thirst = 0;
    lf.upkeep(true, false);
    assert_eq!((lf.hunger, lf.thirst, lf.health), (605, 5, 990));
    lf.hunger = 1000;
    lf.upkeep(true, false);
    assert_eq!((lf.hunger, lf.health), (700, 980));
    lf.hunger = 1000;
    lf.thirst = 1000;
    lf.upkeep(false, true);
    assert_eq!((lf.hunger, lf.thirst, lf.health), (1000, 700, 970));
    lf.hunger = 795;
    lf.thirst = 0;
    lf.upkeep(true, false);
    assert_eq!((lf.hunger, lf.health), (500, 970));
}

#[test]
fn a_meal_takes_the_gain_once() {
    let helper = NeuralNetHelper::new(0);
    for hunger in [0, 100, 295, 296, 500, 795, 796, 995, 1000] {
        for thirst in [0, 500, 1000] {
            let mut fed = lifeform(&helper, 0, at(0, 0));
            let mut unfed = lifeform(&helper, 0, at(0, 0));
            fed.hunger = hunger;
            unfed.hunger = hunger;
            fed.thirst = thirst;
            unfed.thirst = thirst;
            fed.upkeep(true, false);
            unfed.upkeep(false, false);
            assert_eq!(fed.hunger, (unfed.hunger - FOOD_GAIN).max(0));
            assert_eq!(fed.thirst, unfed.thirst);
            assert_eq!(fed.health, unfed.health);
            assert_eq!(fed.age, unfed.age);
            let mut watered = lifeform(&helper, 0, at(0, 0));
            watered.hunger = hunger;
            watered.thirst = thirst;
            watered.upkeep(false, true);
            assert_eq!(watered.thirst, (unfed.thirst - WATER_GAIN).max(0));
            assert_eq!(watered.hunger, unfed.hunger);
            assert_eq!(watered.health, unfed.health);
        }
    }
}

#[test]
fn a_wound_takes_the_attack_damage() {
    let helper = NeuralNetHelper::new(0);
    let mut lf = lifeform(&helper, 0, at(0, 0));
    assert_eq!(ATTACK_DAMAGE, 100);
    lf.wound();
    assert_eq!(lf.health, 900);
    lf.health = 60;
    lf.wound();
    assert_eq!(lf.health, 0);
    lf.wound();
    assert_eq!(lf.health, 0);
}

#[test]
fn death_conditions() {
    let helper = NeuralNetHelper::new(0);
    let mut lf = lifeform(&helper, 0, at(2, 2));
    let none: Vec<Location> = Vec::new();
    assert!(!lf.has_died(500, &none));
    assert!(lf.has_died(500, &vec![at(1, 1), at(2, 2)]));
    assert!(!lf.has_died(500, &vec![at(1, 1), at(2, 3)]));
    lf.age = 500;
    assert!(!lf.has_died(500, &none));
    lf.age = 501;
    assert!(lf.has_died(500, &none));
    lf.age = 0;
    lf.health = 0;
    assert!(lf.has_died(500, &none));
    lf.health = 1;
    assert!(!lf.has_died(500, &none));
}

#[test]
fn thinking_evaluates_and_decides() {
    let helper = NeuralNetHelper::new(0);
    let mut lf = Lifeform::newborn(0, at(0, 0), Heading::North, driven(3), helper.spawn());
    let mut sensors = vec![0; 16];
    sensors[10] = 1000;
    assert_eq!(lf.think(&sensors), Some(OutputNeuronType::Attack));
    assert_eq!(lf.neural_net.output_neurons[3].1.value, 1000);
    sensors[10] = 0;
    assert_eq!(lf.think(&sensors), None);
    assert_eq!((lf.id, lf.health, lf.age), (0, 1000, 0));
}

#[test]
fn turns_change_the_heading_only() {
    let helper = NeuralNetHelper::new(0);
    let mut all = vec![lifeform(&helper, 0, at(5, 5)), lifeform(&helper, 1, at(1, 1))];
    act(&mut all, 10, 0, Some(OutputNeuronType::TurnLeft));
    assert_eq!((all[0].heading, all[0].location), (Heading::West, at(5, 5)));
    act(&mut all, 10, 0, Some(OutputNeuronType::TurnRight));
    act(&mut all, 10, 0, Some(OutputNeuronType::TurnRight));
    assert_eq!((all[0].heading, all[0].location), (Heading::East, at(5, 5)));
    assert_eq!((all[1].heading, all[1].location, all[1].health), (Heading::North, at(1, 1), 1000));
    act(&mut all, 10, 0, None);
    assert_eq!((all[0].heading, all[0].location), (Heading::East, at(5, 5)));
}

#[test]
fn a_move_takes_the_cell_ahead() {
    let helper = NeuralNetHelper::new(0);
    let mut all = vec![lifeform(&helper, 0, at(5, 5))];
    act(&mut all, 10, 0, Some(OutputNeuronType::MoveForward));
    assert_eq!(all[0].location, at(5, 4));
    all[0].heading = Heading::East;
    act(&mut all, 10, 0, Some(OutputNeuronType::MoveForward));
    assert_eq!(all[0].location, at(6, 4));
    assert_eq!((all[0].health, all[0].hunger, all[0].age), (1000, 0, 0));
}

#[test]
fn a_move_off_the_grid_is_a_no_op() {
    let helper = NeuralNetHelper::new(0);
    let mut all = vec![lifeform(&helper, 0, at(3, 0))];
    act(&mut all, 10, 0, Some(OutputNeuronType::MoveForward));
    assert_eq!(all[0].location, at(3, 0));
    all[0].location = at(9, 9);
    all[0].heading = Heading::South;
    act(&mut all, 10, 0, Some(OutputNeuronType::MoveForward));
    assert_eq!(all[0].location, at(9, 9));
    all[0].heading = Heading::East;
    act(&mut all, 10, 0, Some(OutputNeuronType::MoveForward));
    assert_eq!(all[0].location, at(9, 9));
}

#[test]
fn a_move_onto_a_lifeform_is_a_no_op() {
    let helper = NeuralNetHelper::new(0);
    let mut all = vec![lifeform(&helper, 0, at(5, 5)), lifeform(&helper, 1, at(5, 4))];
    act(&mut all, 10, 0, Some(OutputNeuronType::MoveForward));
    assert_eq!(all[0].location, at(5, 5));
    assert_eq!(all[1].location, at(5, 4));
    assert_eq!(all[1].health, 1000);
}

#[test]
fn an_attack_wounds_the_first_neighbour() {
    let helper = NeuralNetHelper::new(0);
    let mut all = vec![
        lifeform(&helper, 0, at(4, 4)),
        lifeform(&helper, 1, at(5, 5)),
        lifeform(&helper, 2, at(5, 6)),
        lifeform(&helper, 3, at(6, 5)),
    ];
    assert_eq!(find_target(&all, 10, 1), Some(2));
    assert_eq!(find_target(&all, 10, 0), None);
    assert_eq!(find_target(&all, 10, 3), Some(1));
    act(&mut all, 10, 1, Some(OutputNeuronType::Attack));
    let health: Vec<i32> = all.iter().map(|l| l.health).collect();
    assert_eq!(health, vec![1000, 1000, 900, 1000]);
}

#[test]
fn an_attack_without_a_target_is_a_no_op() {
    let helper = NeuralNetHelper::new(0);
    let mut all = vec![lifeform(&helper, 0, at(4, 4)), lifeform(&helper, 1, at(5, 5))];
    act(&mut all, 10, 0, Some(OutputNeuronType::Attack));
    assert_eq!((all[0].health, all[1].health), (1000, 1000));
    let mut alone = vec![lifeform(&helper, 0, at(0, 0))];
    act(&mut alone, 10, 0, Some(OutputNeuronType::Attack));
    assert_eq!(alone[0].health, 1000);
}

#[test]
fn the_sweep_keeps_the_living_in_order() {
    let helper = NeuralNetHelper::new(0);
    let mut all = Vec::new();
    for i in 0..6 {
        all.push(lifeform(&helper, i, at(i, 0)));
    }
    all[0].health = 0;
    all[2].age = 501;
    all[3].age = 500;
    let danger = vec![at(5, 0), at(7, 7)];
    sweep(&mut all, 500, &danger);
    let ids: Vec<usize> = all.iter().map(|l| l.id).collect();
    assert_eq!(ids, vec![1, 3, 4]);
    sweep(&mut all, 500, &danger);
    assert_eq!(all.len(), 3);
    sweep(&mut all, 0, &danger);
    let ids: Vec<usize> = all.iter().map(|l| l.id).collect();
    assert_eq!(ids, vec![1, 4]);
}

#[test]
fn occupants_and_free_cells() {
    let helper = NeuralNetHelper::new(0);
    let all = vec![
        lifeform(&helper, 0, at(0, 0)),
        lifeform(&helper, 1, at(1, 0)),
        lifeform(&helper, 2, at(1, 1)),
    ];
    assert_eq!(find_occupant(&all, at(1, 0)), Some(1));
    assert_eq!(find_occupant(&all, at(0, 1)), None);
    assert_eq!(find_free_cell(&all, 2, 0), Some(at(0, 1)));
    assert_eq!(find_free_cell(&all, 2, 3), Some(at(0, 1)));
    assert_eq!(find_free_cell(&all, 2, 2), Some(at(0, 1)));
    assert_eq!(find_free_cell(&all, 3, 4), Some(at(2, 1)));
    assert_eq!(find_free_cell(&all, 3, 8), Some(at(2, 2)));
    let mut full = all;
    full.push(lifeform(&helper, 3, at(0, 1)));
    for start in 0..4 {
        assert_eq!(find_free_cell(&full, 2, start), None);
    }
}

#[test]
fn nearest_points_and_peers() {
    let helper = NeuralNetHelper::new(0);
    let points = vec![at(9, 9), at(5, 7), at(7, 5), at(5, 6)];
    assert_eq!(find_nearest(&points, at(5, 5), 10), Some(3));
    assert_eq!(find_nearest(&points, at(6, 7), 10), Some(1));
    assert_eq!(find_nearest(&points, at(6, 6), 10), Some(3));
    assert_eq!(find_nearest(&Vec::new(), at(5, 5), 10), None);
    let mut all = vec![
        lifeform(&helper, 0, at(5, 5)),
        lifeform(&helper, 1, at(9, 9)),
        lifeform(&helper, 2, at(5, 7)),
        lifeform(&helper, 3, at(7, 5)),
    ];
    all[1].health = 900;
    all[2].health = 700;
    all[3].health = 900;
    assert_eq!(find_closest_peer(&all, 10, 0), Some(2));
    assert_eq!(find_closest_peer(&all, 10, 2), Some(0));
    assert_eq!(find_healthiest_peer(&all, 0), Some(1));
    assert_eq!(find_healthiest_peer(&all, 1), Some(0));
    assert_eq!(count_neighbors(&all, 0), 2);
    assert_eq!(count_neighbors(&all, 1), 0);
    let alone = vec![lifeform(&helper, 0, at(5, 5))];
    assert_eq!(find_closest_peer(&alone, 10, 0), None);
    assert_eq!(find_healthiest_peer(&alone, 0), None);
    assert_eq!(count_neighbors(&alone, 0), 0);
}

#[test]
fn the_oscillator_is_a_triangle_wave() {
    let expected = [
        -1000, -800, -600, -400, -200, 0, 200, 400, 600, 800, 1000, 800, 600, 400, 200, 0, -200,
        -400, -600, -800,
    ];
    for (tick, value) in expected.iter().enumerate() {
        assert_eq!(oscillator(tick as u64), *value);
        assert_eq!(oscillator(tick as u64 + 20), *value);
        assert_eq!(oscillator(tick as u64 + 4000), *value);
    }
    assert_eq!(noise_from_draw(0), -1000);
    assert_eq!(noise_from_draw(1000), 0);
    assert_eq!(noise_from_draw(2000), 1000);
}

#[test]
fn readings_of_a_lone_lifeform() {
    let helper = NeuralNetHelper::new(0);
    let mut all = vec![lifeform(&helper, 0, at(5, 5))];
    all[0].heading = Heading::South;
    all[0].health = 640;
    all[0].hunger = 210;
    let sensors = sense(&all, &Vec::new(), &Vec::new(), 10, 5, 0, -123);
    assert_eq!(
        sensors,
        vec![0, 1000, 0, 1000, 0, 1000, 0, 0, 1000, 0, 640, 210, 10, 0, -123, 0]
    );
}

#[test]
fn readings_in_company() {
    let helper = NeuralNetHelper::new(0);
    let mut all = vec![
        lifeform(&helper, 0, at(5, 5)),
        lifeform(&helper, 1, at(5, 2)),
        lifeform(&helper, 2, at(6, 5)),
    ];
    all[1].health = 900;
    all[2].health = 300;
    let food = vec![at(5, 9), at(8, 5)];
    let danger = vec![at(5, 4)];
    let sensors = sense(&all, &food, &danger, 10, 10, 0, 77);
    assert_eq!(
        sensors,
        vec![
            500,  // nearest food (8,5): three to the right of a lifeform facing north
            166,  // 3 of 18 moves
            0,    // danger straight ahead
            55,   // 1 of 18 moves
            0,    // the healthiest peer, at (5,2), straight ahead
            166,  // 3 of 18 moves
            900,  // its health
            500,  // the closest peer, at (6,5), to the right
            55,   // 1 of 18 moves
            300,  // its health
            1000, // own health
            0,    // own hunger
            30,   // 3 lifeforms on 100 cells
            41,   // 1 of 24 neighbouring cells
            77,   // the random reading
            1000, // the oscillator at its crest
        ]
    );
}

#[test]
fn readings_lie_in_range() {
    let helper = NeuralNetHelper::new(3);
    let p = WorldProps { genome_size: 10, ..props(&helper, 12, 30, 30) };
    let mut world = World::new(p, 99).unwrap();
    for i in 0..40 {
        world.add_food(at(i % 12, (i * 7) % 12));
        world.add_danger(at((i * 5) % 12, i % 12));
    }
    for index in 0..world.lifeforms.len() {
        let sensors = sense(&world.lifeforms, &world.food, &world.danger, 12, 33, index, 0);
        assert_eq!(sensors.len(), 16);
        for v in sensors {
            assert!((-1000..=1000).contains(&v));
        }
    }
    let all = world.sense_all();
    assert_eq!(all.len(), 30);
    assert!(all.iter().all(|s| s.len() == 16 && s.iter().all(|v| (-1000..=1000).contains(v))));
}

#[test]
fn grid_counts() {
    assert_eq!(cell_count(0), 0);
    assert_eq!(cell_count(50), 2500);
    assert_eq!(cell_count(65_535), 4_294_836_225);
    assert_eq!(target_count(50, 30), 75);
    assert_eq!(target_count(10, 0), 0);
    assert_eq!(target_count(10, 1000), 100);
    assert_eq!(target_count(10, 15), 1);
    assert_eq!(target_count(10, 9), 0);
}

#[test]
fn configuration_errors() {
    let helper = NeuralNetHelper::new(3);
    let good = props(&helper, 10, 5, 5);
    assert_eq!(good.validate(), Ok(()));
    let check = |p: WorldProps<'_>| World::new(p, 1).err();
    assert_eq!(check(WorldProps { size: 0, ..good }), Some(ConfigError::ZeroSize));
    assert_eq!(check(WorldProps { size: 65_536, ..good }), Some(ConfigError::SizeTooLarge));
    assert_eq!(check(WorldProps { genome_size: 0, ..good }), Some(ConfigError::EmptyGenome));
    assert_eq!(
        check(WorldProps { mutation_rate: 1_000_001, ..good }),
        Some(ConfigError::MutationRateTooHigh)
    );
    assert_eq!(check(WorldProps { food_density: 1001, ..good }), Some(ConfigError::DensityTooHigh));
    assert_eq!(check(WorldProps { water_density: 1001, ..good }), Some(ConfigError::DensityTooHigh));
    assert_eq!(
        check(WorldProps { num_inner_neurons: 4, ..good }),
        Some(ConfigError::InnerNeuronsMismatch)
    );
    assert_eq!(
        check(WorldProps { num_initial_lifeforms: 101, ..good }),
        Some(ConfigError::TooManyLifeforms)
    );
    assert_eq!(
        check(WorldProps { minimum_number_lifeforms: 101, ..good }),
        Some(ConfigError::TooManyLifeforms)
    );
    assert_eq!(
        check(WorldProps { max_lifespan: u64::MAX, ..good }),
        Some(ConfigError::LifespanTooLong)
    );
    // the first fault is the one reported
    assert_eq!(check(WorldProps { size: 0, genome_size: 0, ..good }), Some(ConfigError::ZeroSize));
    assert_eq!(
        check(WorldProps { genome_size: 0, max_lifespan: u64::MAX, ..good }),
        Some(ConfigError::EmptyGenome)
    );
    assert_eq!(World::empty(WorldProps { size: 0, ..good }, 1).err(), Some(ConfigError::ZeroSize));
    // the limits themselves are accepted
    assert!(World::empty(
        WorldProps {
            mutation_rate: 1_000_000,
            food_density: 1000,
            water_density: 1000,
            num_initial_lifeforms: 100,
            minimum_number_lifeforms: 100,
            max_lifespan: u64::MAX - 1,
            ..good
        },
        1
    )
    .is_ok());
}

#[test]
fn a_new_world_holds_the_initial_population() {
    let helper = NeuralNetHelper::new(3);
    let p = WorldProps { genome_size: 25, ..props(&helper, 50, 20, 15) };
    let world = World::new(p, 4).unwrap();
    assert_eq!(world.tick, 0);
    assert_eq!(world.lifeforms.len(), 20);
    assert_eq!(world.next_id, 20);
    assert!(world.food.is_empty() && world.water.is_empty() && world.danger.is_empty());
    for (i, lf) in world.lifeforms.iter().enumerate() {
        assert_eq!(lf.id, i);
        assert_eq!((lf.health, lf.hunger, lf.thirst, lf.age), (1000, 0, 0, 0));
        assert_eq!(lf.genome.len(), 25);
        assert!(lf.genome.fits(&helper));
        assert!(lf.location.x < 50 && lf.location.y < 50);
        assert_eq!(lf.neural_net.inner_neurons.len(), 3);
    }
    for a in 0..20 {
        for b in a + 1..20 {
            assert!(world.lifeforms[a].location != world.lifeforms[b].location);
        }
    }
}

#[test]
fn a_new_world_can_fill_the_grid() {
    let helper = NeuralNetHelper::new(0);
    let world = World::new(props(&helper, 3, 9, 9), 17).unwrap();
    assert_eq!(world.lifeforms.len(), 9);
    let mut cells: Vec<(usize, usize)> =
        world.lifeforms.iter().map(|l| (l.location.x, l.location.y)).collect();
    cells.sort();
    cells.dedup();
    assert_eq!(cells.len(), 9);
}

#[test]
fn equal_seeds_give_equal_worlds() {
    let helper = NeuralNetHelper::new(3);
    let p = WorldProps {
        genome_size: 12,
        food_density: 100,
        water_density: 100,
        danger_delay: 3,
        ..props(&helper, 8, 10, 10)
    };
    let mut a = World::new(p, 2024).unwrap();
    let mut b = World::new(p, 2024).unwrap();
    for _ in 0..40 {
        a.step();
        b.step();
        assert_eq!(a.food, b.food);
        assert_eq!(a.danger, b.danger);
        assert_eq!(a.lifeforms.len(), b.lifeforms.len());
        for (x, y) in a.lifeforms.iter().zip(b.lifeforms.iter()) {
            assert_eq!((x.id, x.location, x.heading), (y.id, y.location, y.heading));
            assert_eq!((x.health, x.hunger, x.thirst, x.age), (y.health, y.hunger, y.thirst, y.age));
            assert_eq!(x.genome.genes, y.genome.genes);
        }
    }
}

#[test]
fn inserting_lifeforms() {
    let helper = NeuralNetHelper::new(0);
    let mut world = World::empty(props(&helper, 10, 0, 0), 1).unwrap();
    assert_eq!(world.insert_lifeform(at(5, 5), Heading::South, idle()), Some(0));
    assert_eq!(world.insert_lifeform(at(5, 5), Heading::South, idle()), None);
    assert_eq!(world.insert_lifeform(at(10, 5), Heading::South, idle()), None);
    assert_eq!(world.insert_lifeform(at(5, 10), Heading::South, idle()), None);
    let long = Genome { genes: vec![Gene { from: 110, to: 300, weight: 0 }; 2] };
    assert_eq!(world.insert_lifeform(at(1, 1), Heading::South, long), None);
    let illegal = Genome { genes: vec![Gene { from: 300, to: 110, weight: 0 }] };
    assert_eq!(world.insert_lifeform(at(1, 1), Heading::South, illegal), None);
    assert_eq!(world.insert_lifeform(at(1, 1), Heading::East, driven(2)), Some(1));
    assert_eq!(world.lifeforms.len(), 2);
    assert_eq!(world.next_id, 2);
    assert_eq!(world.lifeforms[1].location, at(1, 1));
    assert_eq!(world.lifeforms[1].heading, Heading::East);
    assert_eq!(world.lifeforms[1].genome.genes, driven(2).genes);
    assert_eq!((world.lifeforms[1].health, world.lifeforms[1].age), (1000, 0));
    world.next_id = usize::MAX;
    assert_eq!(world.insert_lifeform(at(2, 2), Heading::East, idle()), None);
}

#[test]
fn adding_markers() {
    let helper = NeuralNetHelper::new(0);
    let mut world = World::empty(props(&helper, 10, 0, 0), 1).unwrap();
    assert!(world.add_food(at(5, 6)));
    assert!(!world.add_food(at(5, 6)));
    assert!(!world.add_food(at(10, 0)));
    assert!(world.add_water(at(5, 6)));
    assert!(!world.add_water(at(0, 10)));
    assert!(world.add_danger(at(9, 9)));
    assert!(!world.add_danger(at(9, 9)));
    assert_eq!(world.food, vec![at(5, 6)]);
    assert_eq!(world.water, vec![at(5, 6)]);
    assert_eq!(world.danger, vec![at(9, 9)]);
}

#[test]
fn moving_onto_food_eats_it() {
    let helper = NeuralNetHelper::new(0);
    let mut world = World::empty(props(&helper, 10, 0, 1), 3).unwrap();
    assert_eq!(world.insert_lifeform(at(5, 5), Heading::South, driven(2)), Some(0));
    world.lifeforms[0].hunger = 500;
    world.lifeforms[0].thirst = 40;
    assert!(world.add_food(at(5, 6)));
    assert!(world.can_step());
    world.step();
    assert_eq!(world.tick, 1);
    assert_eq!(world.lifeforms.len(), 1);
    let lf = &world.lifeforms[0];
    assert_eq!(lf.id, 0);
    assert_eq!(lf.location, at(5, 6));
    assert_eq!(lf.hunger, 500 + HUNGER_STEP - FOOD_GAIN);
    assert_eq!(lf.thirst, 40 + THIRST_STEP);
    assert_eq!((lf.health, lf.age), (1000, 1));
    assert!(world.food.is_empty());
    // the next tick finds no food under the lifeform
    world.step();
    assert_eq!(world.lifeforms[0].location, at(5, 7));
    assert_eq!(world.lifeforms[0].hunger, 205 + HUNGER_STEP);
}

#[test]
fn food_makes_a_difference_of_the_gain() {
    let helper = NeuralNetHelper::new(0);
    let mut fed = World::empty(props(&helper, 10, 0, 1), 3).unwrap();
    let mut unfed = World::empty(props(&helper, 10, 0, 1), 3).unwrap();
    for world in [&mut fed, &mut unfed] {
        assert_eq!(world.insert_lifeform(at(5, 5), Heading::South, driven(2)), Some(0));
        world.lifeforms[0].hunger = 500;
    }
    assert!(fed.add_food(at(5, 6)));
    fed.step();
    unfed.step();
    assert_eq!(fed.lifeforms[0].location, at(5, 6));
    assert_eq!(unfed.lifeforms[0].location, at(5, 6));
    assert_eq!(unfed.lifeforms[0].hunger, 505);
    assert_eq!(fed.lifeforms[0].hunger, unfed.lifeforms[0].hunger - FOOD_GAIN);
    assert_eq!(fed.lifeforms[0].thirst, unfed.lifeforms[0].thirst);
    assert_eq!(fed.lifeforms[0].health, unfed.lifeforms[0].health);
    assert!(fed.food.is_empty());
}

#[test]
fn drinking_on_the_spot() {
    let helper = NeuralNetHelper::new(0);
    let mut world = World::empty(props(&helper, 10, 0, 1), 3).unwrap();
    world.insert_lifeform(at(2, 2), Heading::South, idle());
    world.lifeforms[0].thirst = 400;
    world.add_water(at(2, 2));
    world.add_water(at(3, 3));
    world.step();
    assert_eq!(world.lifeforms[0].location, at(2, 2));
    assert_eq!(world.lifeforms[0].thirst, 400 + THIRST_STEP - WATER_GAIN);
    assert_eq!(world.lifeforms[0].hunger, HUNGER_STEP);
    assert_eq!(world.water, vec![at(3, 3)]);
}

#[test]
fn a_lifeform_at_its_lifespan_is_swept() {
    let helper = NeuralNetHelper::new(0);
    let mut world = World::empty(props(&helper, 10, 0, 1), 3).unwrap();
    world.insert_lifeform(at(1, 1), Heading::South, idle());
    world.insert_lifeform(at(8, 8), Heading::South, idle());
    world.lifeforms[0].age = 500;
    world.lifeforms[1].age = 499;
    world.step();
    let ids: Vec<usize> = world.lifeforms.iter().map(|l| l.id).collect();
    assert_eq!(ids, vec![1]);
    assert_eq!(world.lifeforms[0].age, 500);
    assert_eq!(world.find_by_id(0), None);
    world.step();
    assert!(world.lifeforms.is_empty());
}

#[test]
fn an_attack_hits_once() {
    let helper = NeuralNetHelper::new(0);
    let mut world = World::empty(props(&helper, 10, 0, 2), 3).unwrap();
    world.insert_lifeform(at(5, 5), Heading::North, driven(3));
    world.insert_lifeform(at(5, 6), Heading::North, idle());
    world.step();
    assert_eq!(world.lifeforms.len(), 2);
    assert_eq!(world.lifeforms[0].health, 1000);
    assert_eq!(world.lifeforms[1].health, 1000 - ATTACK_DAMAGE);
    assert_eq!(world.lifeforms[0].location, at(5, 5));
    assert_eq!(world.lifeforms[1].location, at(5, 6));
    world.step();
    assert_eq!(world.lifeforms[1].health, 1000 - 2 * ATTACK_DAMAGE);
}

#[test]
fn attacks_kill_in_the_end() {
    let helper = NeuralNetHelper::new(0);
    let mut world = World::empty(props(&helper, 10, 0, 1), 3).unwrap();
    world.insert_lifeform(at(5, 5), Heading::North, driven(3));
    world.insert_lifeform(at(5, 6), Heading::North, idle());
    for _ in 0..9 {
        world.step();
        assert_eq!(world.lifeforms.len(), 2);
    }
    world.step();
    let ids: Vec<usize> = world.lifeforms.iter().map(|l| l.id).collect();
    assert_eq!(ids, vec![0]);
}

#[test]
fn danger_kills_whoever_stands_on_it() {
    let helper = NeuralNetHelper::new(0);
    let mut world = World::empty(props(&helper, 10, 0, 1), 3).unwrap();
    world.insert_lifeform(at(5, 5), Heading::South, driven(2));
    world.insert_lifeform(at(0, 0), Heading::South, idle());
    world.add_danger(at(5, 6));
    world.step();
    let ids: Vec<usize> = world.lifeforms.iter().map(|l| l.id).collect();
    assert_eq!(ids, vec![1]);
    assert_eq!(world.danger, vec![at(5, 6)]);
}

#[test]
fn the_population_floor_is_restored() {
    let helper = NeuralNetHelper::new(2);
    let p = WorldProps { genome_size: 8, ..props(&helper, 10, 12, 12) };
    let mut world = World::new(p, 31).unwrap();
    for i in 0..9 {
        world.lifeforms[i].age = 500;
    }
    let parents: Vec<Vec<Gene>> =
        world.lifeforms[9..].iter().map(|l| l.genome.genes.clone()).collect();
    world.step();
    assert_eq!(world.lifeforms.len(), 12);
    let ids: Vec<usize> = world.lifeforms.iter().map(|l| l.id).collect();
    assert_eq!(ids, vec![9, 10, 11, 12, 13, 14, 15, 16, 17, 18, 19, 20]);
    assert_eq!(world.next_id, 21);
    for lf in world.lifeforms[3..].iter() {
        assert_eq!((lf.health, lf.hunger, lf.thirst, lf.age), (1000, 0, 0, 0));
        assert_eq!(lf.genome.len(), 8);
        assert!(lf.genome.fits(&helper));
        // at a rate of one in a thousand nearly every gene is a parent's
        let close = parents
            .iter()
            .any(|p| p.iter().zip(lf.genome.genes.iter()).filter(|(a, b)| a == b).count() >= 6);
        assert!(close);
    }
    for a in 0..12 {
        for b in a + 1..12 {
            assert!(world.lifeforms[a].location != world.lifeforms[b].location);
        }
    }
}

#[test]
fn the_floor_holds_tick_after_tick() {
    let helper = NeuralNetHelper::new(3);
    let p = WorldProps {
        genome_size: 20,
        mutation_rate: 50_000,
        food_density: 50,
        water_density: 50,
        danger_delay: 5,
        max_lifespan: 30,
        ..props(&helper, 12, 20, 15)
    };
    let mut world = World::new(p, 77).unwrap();
    let mut gone: Vec<usize> = Vec::new();
    for tick in 0..200u64 {
        let before: Vec<usize> = world.lifeforms.iter().map(|l| l.id).collect();
        let next_id = world.next_id;
        assert!(world.can_step());
        world.step();
        assert_eq!(world.tick, tick + 1);
        let after: Vec<usize> = world.lifeforms.iter().map(|l| l.id).collect();
        if after.iter().any(|id| *id < next_id) {
            assert!(after.len() >= 15);
        } else {
            assert_eq!(after.len(), 20);
        }
        assert!(after.windows(2).all(|w| w[0] < w[1]));
        for id in after.iter() {
            assert!(before.contains(id) || *id >= next_id);
            assert!(!gone.contains(id));
            assert!(*id < world.next_id);
        }
        for id in before.iter() {
            if !after.contains(id) {
                gone.push(*id);
            }
        }
        for lf in world.lifeforms.iter() {
            assert!(lf.health > 0 && lf.health <= 1000);
            assert!(lf.age <= 30);
            assert!((0..=1000).contains(&lf.hunger) && (0..=1000).contains(&lf.thirst));
            assert!(lf.location.x < 12 && lf.location.y < 12);
            if lf.id < next_id {
                assert!(!world.danger.contains(&lf.location));
            }
        }
        assert!(world.food.len() <= 7 && world.water.len() <= 7 && world.danger.len() <= 12);
    }
    assert!(!gone.is_empty());
    assert!(!world.lifeforms.is_empty());
}

#[test]
fn a_collapsed_world_is_seeded_anew() {
    let helper = NeuralNetHelper::new(1);
    let p = WorldProps { genome_size: 6, max_lifespan: 3, ..props(&helper, 6, 4, 2) };
    let mut world = World::new(p, 13).unwrap();
    for _ in 0..3 {
        world.step();
        let ids: Vec<usize> = world.lifeforms.iter().map(|l| l.id).collect();
        assert_eq!(ids, vec![0, 1, 2, 3]);
    }
    // every lifeform is now at its lifespan: none survives the next tick
    world.step();
    let ids: Vec<usize> = world.lifeforms.iter().map(|l| l.id).collect();
    assert_eq!(ids, vec![4, 5, 6, 7]);
    assert_eq!(world.next_id, 8);
    for lf in world.lifeforms.iter() {
        assert_eq!((lf.health, lf.hunger, lf.thirst, lf.age), (1000, 0, 0, 0));
        assert_eq!(lf.genome.len(), 6);
        assert!(lf.genome.fits(&helper));
    }
}

#[test]
fn seeding_fills_up_to_the_initial_population() {
    let helper = NeuralNetHelper::new(0);
    let mut world = World::empty(props(&helper, 5, 3, 0), 2).unwrap();
    world.insert_lifeform(at(0, 0), Heading::South, driven(1));
    world.seed();
    assert_eq!(world.lifeforms.len(), 3);
    assert_eq!(world.lifeforms[0].genome.genes, driven(1).genes);
    world.seed();
    assert_eq!(world.lifeforms.len(), 3);
    assert_eq!(world.next_id, 3);
}

#[test]
fn an_empty_world_without_initial_population_stays_empty() {
    let helper = NeuralNetHelper::new(0);
    let mut world = World::empty(props(&helper, 10, 0, 5), 3).unwrap();
    world.insert_lifeform(at(1, 1), Heading::South, idle());
    world.lifeforms[0].age = 500;
    world.step();
    assert!(world.lifeforms.is_empty());
    for _ in 0..10 {
        world.step();
        assert!(world.lifeforms.is_empty());
    }
    assert_eq!(world.tick, 11);
    assert_eq!(world.next_id, 1);
}

#[test]
fn repopulation_on_its_own() {
    let helper = NeuralNetHelper::new(1);
    let mut world = World::empty(props(&helper, 4, 0, 6), 5).unwrap();
    world.repopulate();
    assert!(world.lifeforms.is_empty());
    world.insert_lifeform(at(0, 0), Heading::South, idle());
    world.insert_lifeform(at(1, 0), Heading::South, driven(1));
    world.repopulate();
    assert_eq!(world.lifeforms.len(), 6);
    assert_eq!(world.next_id, 6);
    assert_eq!(world.lifeforms[0].location, at(0, 0));
    assert_eq!(world.lifeforms[1].genome.genes, driven(1).genes);
    world.repopulate();
    assert_eq!(world.lifeforms.len(), 6);
    assert_eq!(world.next_id, 6);
}

#[test]
fn settling_needs_room() {
    let helper = NeuralNetHelper::new(0);
    let mut world = World::empty(props(&helper, 2, 0, 0), 5).unwrap();
    for i in 0..4 {
        assert_eq!(world.settle(idle()), Some(i));
    }
    assert_eq!(world.settle(idle()), None);
    assert_eq!(world.lifeforms.len(), 4);
    let mut other = World::empty(props(&helper, 2, 0, 0), 5).unwrap();
    let long = Genome { genes: vec![Gene { from: 110, to: 300, weight: 0 }; 3] };
    assert_eq!(other.settle(long), None);
}

#[test]
fn replenishment_approaches_the_target() {
    let helper = NeuralNetHelper::new(0);
    let p = WorldProps {
        food_density: 100,
        water_density: 50,
        danger_delay: 10,
        ..props(&helper, 10, 0, 0)
    };
    let mut world = World::empty(p, 8).unwrap();
    for tick in 0..300u64 {
        let (food, water, danger) = (world.food.len(), world.water.len(), world.danger.len());
        world.step();
        assert!(world.food.len() >= food && world.food.len() <= food + 1);
        assert!(world.water.len() >= water && world.water.len() <= water + 1);
        assert!(world.danger.len() >= danger && world.danger.len() <= danger + 1);
        if tick <= 10 {
            assert!(world.danger.is_empty());
        }
    }
    assert_eq!(world.food.len(), 10);
    assert_eq!(world.water.len(), 5);
    assert_eq!(world.danger.len(), 10);
}

#[test]
fn renewal_at_given_cells() {
    let helper = NeuralNetHelper::new(0);
    let p = WorldProps { food_density: 20, water_density: 10, danger_delay: 0, ..props(&helper, 10, 0, 0) };
    let mut world = World::empty(p, 8).unwrap();
    world.renew_at(at(1, 1), at(2, 2), at(3, 3));
    assert_eq!(world.food, vec![at(1, 1)]);
    assert_eq!(world.water, vec![at(2, 2)]);
    assert!(world.danger.is_empty());
    world.tick = 1;
    world.renew_at(at(1, 1), at(4, 4), at(3, 3));
    assert_eq!(world.food, vec![at(1, 1)]);
    assert_eq!(world.water, vec![at(2, 2)]);
    assert_eq!(world.danger, vec![at(3, 3)]);
    world.renew_at(at(5, 5), at(4, 4), at(3, 3));
    world.renew_at(at(6, 6), at(4, 4), at(7, 7));
    assert_eq!(world.food, vec![at(1, 1), at(5, 5)]);
    assert_eq!(world.danger, vec![at(3, 3), at(7, 7)]);
}

#[test]
fn turns_are_taken_in_order() {
    let helper = NeuralNetHelper::new(0);
    let mut world = World::empty(props(&helper, 10, 0, 0), 8).unwrap();
    world.insert_lifeform(at(5, 5), Heading::South, idle());
    world.insert_lifeform(at(5, 7), Heading::North, idle());
    // both move onto (5,6): the first takes it, the second finds it taken
    world.take_turns(&vec![Some(OutputNeuronType::MoveForward), Some(OutputNeuronType::MoveForward)]);
    assert_eq!(world.lifeforms[0].location, at(5, 6));
    assert_eq!(world.lifeforms[1].location, at(5, 7));
    assert_eq!((world.lifeforms[0].age, world.lifeforms[1].age), (1, 1));
    assert_eq!(world.tick, 0);
    world.take_turn(1, Some(OutputNeuronType::Attack));
    assert_eq!(world.lifeforms[0].health, 900);
    assert_eq!(world.lifeforms[1].age, 2);
    world.add_food(at(5, 6));
    world.lifeforms[0].hunger = 100;
    world.sustain(0);
    assert_eq!(world.lifeforms[0].hunger, 0);
    assert!(world.food.is_empty());
}

#[test]
fn thinking_for_all() {
    let helper = NeuralNetHelper::new(0);
    let mut world = World::empty(props(&helper, 10, 0, 0), 8).unwrap();
    world.insert_lifeform(at(5, 5), Heading::South, driven(0));
    world.insert_lifeform(at(5, 7), Heading::North, idle());
    world.insert_lifeform(at(1, 1), Heading::North, driven(3));
    let sensors = world.sense_all();
    let decisions = world.think_all(&sensors);
    assert_eq!(
        decisions,
        vec![Some(OutputNeuronType::TurnLeft), None, Some(OutputNeuronType::Attack)]
    );
    assert_eq!(world.lifeforms[0].neural_net.output_neurons[0].1.value, 1000);
    assert_eq!(world.lifeforms[0].location, at(5, 5));
}

#[test]
fn the_dead_are_buried() {
    let helper = NeuralNetHelper::new(0);
    let mut world = World::empty(props(&helper, 10, 0, 0), 8).unwrap();
    for i in 0..5 {
        world.insert_lifeform(at(i, 0), Heading::South, idle());
    }
    world.lifeforms[1].health = 0;
    world.lifeforms[4].age = 501;
    world.add_danger(at(0, 0));
    world.bury();
    let ids: Vec<usize> = world.lifeforms.iter().map(|l| l.id).collect();
    assert_eq!(ids, vec![2, 3]);
    assert_eq!(world.next_id, 5);
}

#[test]
fn stepping_through_the_selection() {
    let helper = NeuralNetHelper::new(0);
    let mut world = World::empty(props(&helper, 10, 0, 0), 8).unwrap();
    assert_eq!(world.select_next(None), None);
    assert_eq!(world.select_previous(None), None);
    for i in 0..4 {
        world.insert_lifeform(at(i, i), Heading::South, idle());
    }
    world.lifeforms.remove(1);
    // identifiers 0, 2, 3
    assert_eq!(world.select_next(None), Some(0));
    assert_eq!(world.select_next(Some(0)), Some(2));
    assert_eq!(world.select_next(Some(2)), Some(3));
    assert_eq!(world.select_next(Some(3)), None);
    assert_eq!(world.select_next(Some(1)), None);
    assert_eq!(world.select_previous(None), Some(3));
    assert_eq!(world.select_previous(Some(3)), Some(2));
    assert_eq!(world.select_previous(Some(2)), Some(0));
    assert_eq!(world.select_previous(Some(0)), None);
    assert_eq!(world.select_previous(Some(7)), None);
    assert_eq!(world.find_by_id(2), Some(1));
    assert_eq!(world.find_by_id(1), None);
    assert_eq!(world.find_at(at(3, 3)), Some(2));
    assert_eq!(world.find_at(at(1, 1)), None);
}

#[test]
fn a_world_out_of_room_cannot_step() {
    let helper = NeuralNetHelper::new(0);
    let mut world = World::empty(props(&helper, 10, 0, 3), 8).unwrap();
    assert!(world.can_step());
    world.tick = u64::MAX;
    assert!(!world.can_step());
    world.tick = 0;
    world.next_id = usize::MAX - 2;
    assert!(!world.can_step());
    world.next_id = usize::MAX - 3;
    assert!(world.can_step());
    let mut seeded = World::empty(props(&helper, 10, 7, 3), 8).unwrap();
    seeded.next_id = usize::MAX - 6;
    assert!(!seeded.can_step());
    seeded.next_id = usize::MAX - 7;
    assert!(seeded.can_step());
}
