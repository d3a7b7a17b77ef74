//! Sensing: the reading of every sensor kind for one lifeform, from the state of the
//! world at the start of a tick.
//!
//! Distances are shares of the greatest distance on the grid; a missing target reads
//! as the greatest distance, with direction 0.0 and health 0.0. Directions are
//! bearings relative to the lifeform's heading. Where several targets are equally
//! good, the first in the order of its list is the target.

use crate::evaluation::{readings, sensors_ok};
use crate::fixed::{in_signed_unit, in_unit, proportion,
    scaled_proportion, UNIT};
use crate::geometry::{all_in_bounds, bearing, bearing_to, distance, gap, in_bounds,
    magnitude, moves_between, Location, MAX_WORLD_SIZE};
use crate::lifeform::Lifeform;
use crate::population::{all_placed, same_choice};
use crate::search::{first_least, is_first_least, lemma_first_least_absent,
    lemma_first_least_found};
use vstd::prelude::*;

verus! {

/// How far, in cells along either axis, the neighbourhood of a lifeform reaches.
pub const NEIGHBORHOOD_RADIUS: usize = 2;

/// Number of cells in a neighbourhood, its centre not counted.
pub const NEIGHBORHOOD_CELLS: usize = 24;

/// Number of ticks after which the oscillator repeats.
pub const OSCILLATOR_PERIOD: u64 = 20;

/// Number of distinct readings of the random sensor: every thousandth from -1.0 to 1.0.
pub const NOISE_CHOICES: usize = 2001;

/// Every position.
pub open spec fn every() -> spec_fn(int) -> bool {
    |k: int| true
}

/// Every position but `index`.
pub open spec fn others(index: int) -> spec_fn(int) -> bool {
    |k: int| k != index
}

/// The distance of each point from `from`.
pub open spec fn point_distance(points: Seq<Location>, from: Location) -> spec_fn(int) -> int {
    |k: int| distance(from, points[k])
}

/// The distance of each lifeform from `from`.
pub open spec fn peer_distance(lifeforms: Seq<Lifeform>, from: Location) -> spec_fn(int) -> int {
    |k: int| distance(from, lifeforms[k].location)
}

/// What each lifeform lacks of full health: least for the healthiest.
pub open spec fn peer_frailty(lifeforms: Seq<Lifeform>) -> spec_fn(int) -> int {
    |k: int| UNIT - lifeforms[k].health
}

/// The position of the point nearest to `from`.
pub open spec fn nearest(points: Seq<Location>, from: Location) -> Option<int> {
    first_least(points.len() as int, every(), point_distance(points, from))
}

/// The position of the lifeform nearest to the one at `index`.
pub open spec fn closest_peer(lifeforms: Seq<Lifeform>, index: int) -> Option<int> {
    first_least(
        lifeforms.len() as int,
        others(index),
        peer_distance(lifeforms, lifeforms[index].location),
    )
}

/// The position of the healthiest lifeform other than the one at `index`.
pub open spec fn healthiest_peer(lifeforms: Seq<Lifeform>, index: int) -> Option<int> {
    first_least(lifeforms.len() as int, others(index), peer_frailty(lifeforms))
}

/// Whether `cell` lies in the neighbourhood of `center`.
pub open spec fn in_neighborhood(center: Location, cell: Location) -> bool {
    magnitude(center.x - cell.x) <= NEIGHBORHOOD_RADIUS && magnitude(center.y - cell.y)
        <= NEIGHBORHOOD_RADIUS
}

/// Number of lifeforms among the first `upto`, the one at `index` not counted, that
/// stand in the neighbourhood of `center`.
pub open spec fn crowd(lifeforms: Seq<Lifeform>, center: Location, index: int, upto: int) -> int
    decreases upto,
{
    if upto <= 0 {
        0
    } else {
        crowd(lifeforms, center, index, upto - 1) + if upto - 1 != index && in_neighborhood(
            center,
            lifeforms[upto - 1].location,
        ) {
            1int
        } else {
            0int
        }
    }
}

/// The greatest distance between two cells of a grid of side `size`.
pub open spec fn span(size: usize) -> int {
    2 * (size - 1)
}

/// The reading of a direction sensor for the target `target`.
pub open spec fn direction_reading(me: Lifeform, target: Option<Location>) -> int {
    match target {
        Some(cell) => bearing(me.heading, me.location, cell),
        None => 0,
    }
}

/// The reading of a distance sensor for the target `target`.
pub open spec fn distance_reading(me: Lifeform, target: Option<Location>, size: usize) -> int {
    match target {
        Some(cell) => proportion(distance(me.location, cell), span(size)),
        None => UNIT as int,
    }
}

/// The cell of the chosen point, if one is chosen.
pub open spec fn point_chosen(points: Seq<Location>, choice: Option<int>) -> Option<Location> {
    match choice {
        Some(k) => Some(points[k]),
        None => None,
    }
}

/// The cell of the chosen lifeform, if one is chosen.
pub open spec fn peer_cell(lifeforms: Seq<Lifeform>, choice: Option<int>) -> Option<Location> {
    match choice {
        Some(k) => Some(lifeforms[k].location),
        None => None,
    }
}

/// The health of the chosen lifeform; 0.0 where none is chosen.
pub open spec fn peer_health(lifeforms: Seq<Lifeform>, choice: Option<int>) -> int {
    match choice {
        Some(k) => lifeforms[k].health as int,
        None => 0,
    }
}

/// The reading of the oscillator at tick `tick`: a triangle wave that rises from -1.0
/// to 1.0 over the first half of a period and falls back over the second.
pub open spec fn oscillation(tick: int) -> int {
    let phase = tick % (OSCILLATOR_PERIOD as int);
    if phase < 10 {
        phase * 200 - UNIT
    } else {
        3 * UNIT - phase * 200
    }
}

/// The reading of the random sensor that the draw `draw` of `0..NOISE_CHOICES` stands
/// for.
pub open spec fn noise_at(draw: int) -> int {
    draw - UNIT
}

/// The reading of every sensor kind, in catalog order, for the lifeform at `index`.
pub open spec fn sensor_readings(
    lifeforms: Seq<Lifeform>,
    food: Seq<Location>,
    danger: Seq<Location>,
    size: usize,
    tick: u64,
    index: int,
    noise: int,
) -> Seq<int> {
    let me = lifeforms[index];
    let meal = point_chosen(food, nearest(food, me.location));
    let threat = point_chosen(danger, nearest(danger, me.location));
    let strongest = healthiest_peer(lifeforms, index);
    let closest = closest_peer(lifeforms, index);
    seq![
        direction_reading(me, meal),
        distance_reading(me, meal, size),
        direction_reading(me, threat),
        distance_reading(me, threat, size),
        direction_reading(me, peer_cell(lifeforms, strongest)),
        distance_reading(me, peer_cell(lifeforms, strongest), size),
        peer_health(lifeforms, strongest),
        direction_reading(me, peer_cell(lifeforms, closest)),
        distance_reading(me, peer_cell(lifeforms, closest), size),
        peer_health(lifeforms, closest),
        me.health as int,
        me.hunger as int,
        proportion(lifeforms.len() as int, size * size),
        proportion(
            crowd(lifeforms, me.location, index, lifeforms.len() as int),
            NEIGHBORHOOD_CELLS as int,
        ),
        noise,
        oscillation(tick as int),
    ]
}

/// The position of the point nearest to `from`.
pub fn find_nearest(points: &Vec<Location>, from: Location, size: usize) -> (found: Option<usize>)
    requires
        size <= MAX_WORLD_SIZE,
        in_bounds(from, size),
        all_in_bounds(points@, size),
    ensures
        same_choice(found, nearest(points@, from)),
        found.is_some() ==> found.unwrap() < points@.len(),
{
    let ghost key = point_distance(points@, from);
    let mut best: Option<usize> = None;
    let mut least: usize = 0;
    let mut i: usize = 0;
    while i < points.len()
        invariant
            i <= points@.len(),
            size <= MAX_WORLD_SIZE,
            in_bounds(from, size),
            all_in_bounds(points@, size),
            key == point_distance(points@, from),
            match best {
                Some(b) => is_first_least(i as int, every(), key, b as int) && least == key(
                    b as int,
                ),
                None => i == 0,
            },
        decreases points@.len() - i,
    {
        let d = moves_between(from, points[i]);
        assert(d == key(i as int));
        assert(every()(i as int));
        match best {
            Some(b) => {
                if d < least {
                    best = Some(i);
                    least = d;
                }
            },
            None => {
                best = Some(i);
                least = d;
            },
        }
        i += 1;
    }
    proof {
        match best {
            Some(b) => {
                lemma_first_least_found(points@.len() as int, every(), key, b as int);
            },
            None => {
                lemma_first_least_absent(points@.len() as int, every(), key);
            },
        }
    }
    best
}

/// The position of the lifeform nearest to the one at `index`.
pub fn find_closest_peer(lifeforms: &Vec<Lifeform>, size: usize, index: usize) -> (found: Option<
    usize,
>)
    requires
        size <= MAX_WORLD_SIZE,
        index < lifeforms@.len(),
        all_placed(lifeforms@, size),
    ensures
        same_choice(found, closest_peer(lifeforms@, index as int)),
        found.is_some() ==> found.unwrap() < lifeforms@.len(),
{
    let from = lifeforms[index].location;
    let ghost key = peer_distance(lifeforms@, from);
    let ghost able = others(index as int);
    let mut best: Option<usize> = None;
    let mut least: usize = 0;
    let mut i: usize = 0;
    while i < lifeforms.len()
        invariant
            i <= lifeforms@.len(),
            size <= MAX_WORLD_SIZE,
            index < lifeforms@.len(),
            all_placed(lifeforms@, size),
            from == lifeforms@[index as int].location,
            key == peer_distance(lifeforms@, from),
            able == others(index as int),
            match best {
                Some(b) => is_first_least(i as int, able, key, b as int) && least == key(b as int),
                None => forall|j: int| 0 <= j < i ==> !#[trigger] able(j),
            },
        decreases lifeforms@.len() - i,
    {
        if i != index {
            let d = moves_between(from, lifeforms[i].location);
            assert(d == key(i as int));
            assert(able(i as int));
            match best {
                Some(b) => {
                    if d < least {
                        best = Some(i);
                        least = d;
                    }
                },
                None => {
                    best = Some(i);
                    least = d;
                },
            }
        } else {
            assert(!able(i as int));
        }
        i += 1;
    }
    proof {
        match best {
            Some(b) => {
                lemma_first_least_found(lifeforms@.len() as int, able, key, b as int);
            },
            None => {
                lemma_first_least_absent(lifeforms@.len() as int, able, key);
            },
        }
    }
    best
}

/// The position of the healthiest lifeform other than the one at `index`.
pub fn find_healthiest_peer(lifeforms: &Vec<Lifeform>, index: usize) -> (found: Option<usize>)
    requires
        index < lifeforms@.len(),
    ensures
        same_choice(found, healthiest_peer(lifeforms@, index as int)),
        found.is_some() ==> found.unwrap() < lifeforms@.len(),
{
    let ghost key = peer_frailty(lifeforms@);
    let ghost able = others(index as int);
    let mut best: Option<usize> = None;
    let mut most: i32 = 0;
    let mut i: usize = 0;
    while i < lifeforms.len()
        invariant
            i <= lifeforms@.len(),
            index < lifeforms@.len(),
            key == peer_frailty(lifeforms@),
            able == others(index as int),
            match best {
                Some(b) => is_first_least(i as int, able, key, b as int) && UNIT - most == key(
                    b as int,
                ),
                None => forall|j: int| 0 <= j < i ==> !#[trigger] able(j),
            },
        decreases lifeforms@.len() - i,
    {
        if i != index {
            let health = lifeforms[i].health;
            assert(UNIT - health == key(i as int));
            assert(able(i as int));
            match best {
                Some(b) => {
                    if health > most {
                        best = Some(i);
                        most = health;
                    }
                },
                None => {
                    best = Some(i);
                    most = health;
                },
            }
        } else {
            assert(!able(i as int));
        }
        i += 1;
    }
    proof {
        match best {
            Some(b) => {
                lemma_first_least_found(lifeforms@.len() as int, able, key, b as int);
            },
            None => {
                lemma_first_least_absent(lifeforms@.len() as int, able, key);
            },
        }
    }
    best
}

/// Number of lifeforms, the one at `index` not counted, in the neighbourhood of the
/// lifeform at `index`.
pub fn count_neighbors(lifeforms: &Vec<Lifeform>, index: usize) -> (n: usize)
    requires
        index < lifeforms@.len(),
    ensures
        n == crowd(
            lifeforms@,
            lifeforms@[index as int].location,
            index as int,
            lifeforms@.len() as int,
        ),
{
    let center = lifeforms[index].location;
    let mut n: usize = 0;
    let mut i: usize = 0;
    while i < lifeforms.len()
        invariant
            i <= lifeforms@.len(),
            index < lifeforms@.len(),
            center == lifeforms@[index as int].location,
            n == crowd(lifeforms@, center, index as int, i as int),
            n <= i,
        decreases lifeforms@.len() - i,
    {
        let cell = lifeforms[i].location;
        if i != index && gap(center.x, cell.x) <= NEIGHBORHOOD_RADIUS && gap(center.y, cell.y)
            <= NEIGHBORHOOD_RADIUS {
            n += 1;
        }
        i += 1;
    }
    n
}

/// The reading of the oscillator at tick `tick`.
pub fn oscillator(tick: u64) -> (r: i32)
    ensures
        r == oscillation(tick as int),
        in_signed_unit(r as int),
{
    let phase: i32 = (tick % OSCILLATOR_PERIOD) as i32;
    if phase < 10 {
        phase * 200 - UNIT
    } else {
        3 * UNIT - phase * 200
    }
}

/// The reading of the random sensor that a draw of `0..NOISE_CHOICES` stands for.
pub fn noise_from_draw(draw: usize) -> (r: i32)
    requires
        draw < NOISE_CHOICES,
    ensures
        r == noise_at(draw as int),
        in_signed_unit(r as int),
{
    (draw as i32) - UNIT
}

/// The readings of a direction sensor and a distance sensor for one target.
fn read_target(me: &Lifeform, target: Option<Location>, size: usize) -> (r: (i32, i32))
    requires
        0 < size <= MAX_WORLD_SIZE,
        in_bounds(me.location, size),
        target.is_some() ==> in_bounds(target.unwrap(), size),
    ensures
        r.0 == direction_reading(*me, target),
        r.1 == distance_reading(*me, target, size),
        in_signed_unit(r.0 as int),
        in_unit(r.1 as int),
{
    match target {
        Some(cell) => {
            let direction = bearing_to(me.heading, me.location, cell);
            let far = moves_between(me.location, cell);
            let reach = 2 * (size - 1);
            (direction, scaled_proportion(far, reach))
        },
        None => (0, UNIT),
    }
}

/// The reading of every sensor kind, in catalog order, for the lifeform at `index`.
/// `noise` is the reading of the random sensor.
pub fn sense(
    lifeforms: &Vec<Lifeform>,
    food: &Vec<Location>,
    danger: &Vec<Location>,
    size: usize,
    tick: u64,
    index: usize,
    noise: i32,
) -> (sensors: Vec<i32>)
    requires
        0 < size <= MAX_WORLD_SIZE,
        index < lifeforms@.len(),
        all_placed(lifeforms@, size),
        all_in_bounds(food@, size),
        all_in_bounds(danger@, size),
        in_signed_unit(noise as int),
    ensures
        readings(sensors@) == sensor_readings(
            lifeforms@,
            food@,
            danger@,
            size,
            tick,
            index as int,
            noise as int,
        ),
        sensors_ok(sensors@),
{
    let me = &lifeforms[index];
    let meal: Option<Location> = match find_nearest(food, me.location, size) {
        Some(k) => Some(food[k]),
        None => None,
    };
    let threat: Option<Location> = match find_nearest(danger, me.location, size) {
        Some(k) => Some(danger[k]),
        None => None,
    };
    let strongest = find_healthiest_peer(lifeforms, index);
    let strongest_cell: Option<Location> = match strongest {
        Some(k) => Some(lifeforms[k].location),
        None => None,
    };
    let strongest_health: i32 = match strongest {
        Some(k) => lifeforms[k].health,
        None => 0,
    };
    let closest = find_closest_peer(lifeforms, size, index);
    let closest_cell: Option<Location> = match closest {
        Some(k) => Some(lifeforms[k].location),
        None => None,
    };
    let closest_health: i32 = match closest {
        Some(k) => lifeforms[k].health,
        None => 0,
    };
    let to_meal = read_target(me, meal, size);
    let to_threat = read_target(me, threat, size);
    let to_strongest = read_target(me, strongest_cell, size);
    let to_closest = read_target(me, closest_cell, size);
    assert(size * size <= MAX_WORLD_SIZE * MAX_WORLD_SIZE) by (nonlinear_arith)
        requires
            size <= MAX_WORLD_SIZE,
    ;
    let crowded = scaled_proportion(lifeforms.len(), size * size);
    let neighbors = scaled_proportion(count_neighbors(lifeforms, index), NEIGHBORHOOD_CELLS);
    let wave = oscillator(tick);

    let mut sensors: Vec<i32> = Vec::new();
    sensors.push(to_meal.0);
    sensors.push(to_meal.1);
    sensors.push(to_threat.0);
    sensors.push(to_threat.1);
    sensors.push(to_strongest.0);
    sensors.push(to_strongest.1);
    sensors.push(strongest_health);
    sensors.push(to_closest.0);
    sensors.push(to_closest.1);
    sensors.push(closest_health);
    sensors.push(me.health);
    sensors.push(me.hunger);
    sensors.push(crowded);
    sensors.push(neighbors);
    sensors.push(noise);
    sensors.push(wave);
    proof {
        assert(readings(sensors@) =~= sensor_readings(
            lifeforms@,
            food@,
            danger@,
            size,
            tick,
            index as int,
            noise as int,
        ));
    }
    sensors
}

} // verus!
