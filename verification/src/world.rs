//! The world: the grid with its lifeforms and its food, water and danger, and the
//! ways to build one.

use crate::config::{cell_count, ConfigError, WorldProps};
use crate::fixed::UNIT;
use crate::genome::Genome;
use crate::geometry::{cell_at, cell_number, in_bounds, lemma_cell_at, numbered_cell, Heading,
    Location, MAX_WORLD_SIZE};
use crate::lifeform::Lifeform;
use crate::markers::{markers_ok, place_marker};
use crate::neural_net::NeuralNet;
use crate::population::{find_occupant, occupant, population_ok, stands_at};
use crate::random::RandomSource;
use crate::search::{first_least, is_first_least, lemma_first_least_absent,
    lemma_first_least_found, lemma_first_least_meaning, no_key};
use vstd::prelude::*;
use vstd::seq_lib::seq_to_set_is_finite;
use vstd::set_lib::{lemma_int_range, lemma_len_subset, set_int_range};

verus! {

/// A world of lifeforms.
pub struct World<'a> {
    /// The configuration the world was built with.
    pub props: WorldProps<'a>,
    /// Number of ticks the world has gone through.
    pub tick: u64,
    /// The agent set, in the order of the identifiers: the order in which the
    /// lifeforms are processed in every tick.
    pub lifeforms: Vec<Lifeform>,
    /// The cells that hold food.
    pub food: Vec<Location>,
    /// The cells that hold water.
    pub water: Vec<Location>,
    /// The cells that kill.
    pub danger: Vec<Location>,
    /// The identifier of the next lifeform; above every identifier handed out so far.
    pub next_id: usize,
    /// The random source of the world.
    pub rng: RandomSource,
}

/// The cell number `offset` places after `start`, counting round a grid of `cells`
/// cells.
pub open spec fn wrapped(start: int, offset: int, cells: int) -> int {
    if start + offset < cells {
        start + offset
    } else {
        start + offset - cells
    }
}

/// The offsets from cell number `start` at which the cell is free of lifeforms.
pub open spec fn free_from(lifeforms: Seq<Lifeform>, size: usize, start: int) -> spec_fn(
    int,
) -> bool {
    |k: int| occupant(lifeforms, cell_at(wrapped(start, k, size * size), size)).is_none()
}

/// The first cell free of lifeforms when the grid is searched row by row from cell
/// number `start` and round to the cell before it; `None` where every cell is taken.
pub open spec fn first_free_cell(lifeforms: Seq<Lifeform>, size: usize, start: int) -> Option<
    Location,
> {
    match first_least(size * size, free_from(lifeforms, size, start), no_key()) {
        Some(k) => Some(cell_at(wrapped(start, k, size * size), size)),
        None => None,
    }
}

/// The lifeform that is born with the identifier `id` at `cell`, facing `heading`,
/// with the genome `genome` and the network `net`.
pub open spec fn born(
    id: usize,
    cell: Location,
    heading: Heading,
    genome: Genome,
    net: NeuralNet,
) -> Lifeform {
    Lifeform {
        id: id,
        location: cell,
        heading: heading,
        health: UNIT,
        hunger: 0,
        thirst: 0,
        age: 0,
        genome: genome,
        neural_net: net,
    }
}

/// The first cell free of lifeforms, searching from cell number `start`.
pub fn find_free_cell(lifeforms: &Vec<Lifeform>, size: usize, start: usize) -> (cell: Option<
    Location,
>)
    requires
        0 < size <= MAX_WORLD_SIZE,
        start < size * size,
    ensures
        cell == first_free_cell(lifeforms@, size, start as int),
        cell.is_some() ==> in_bounds(cell.unwrap(), size),
        cell.is_some() ==> forall|j: int|
            0 <= j < lifeforms@.len() ==> (#[trigger] lifeforms@[j]).location != cell.unwrap(),
{
    let cells = cell_count(size);
    let ghost free = free_from(lifeforms@, size, start as int);
    let mut number: usize = start;
    let mut k: usize = 0;
    while k < cells
        invariant
            0 < size <= MAX_WORLD_SIZE,
            cells == size * size,
            start < cells,
            k <= cells,
            number < cells,
            number == wrapped(start as int, k as int, cells as int) || k == cells,
            free == free_from(lifeforms@, size, start as int),
            forall|j: int| 0 <= j < k ==> !#[trigger] free(j),
        decreases cells - k,
    {
        let cell = numbered_cell(number, size);
        if find_occupant(lifeforms, cell).is_none() {
            proof {
                assert(free(k as int));
                assert(is_first_least(cells as int, free, no_key(), k as int));
                lemma_first_least_found(cells as int, free, no_key(), k as int);
            }
            return Some(cell);
        }
        assert(!free(k as int));
        k += 1;
        number = if number + 1 == cells {
            0
        } else {
            number + 1
        };
    }
    proof {
        lemma_first_least_absent(cells as int, free, no_key());
    }
    None
}

/// A grid with fewer lifeforms than cells has a free cell, wherever the search starts.
pub proof fn lemma_room_left(lifeforms: Seq<Lifeform>, size: usize, start: int)
    requires
        size > 0,
        0 <= start < size * size,
        lifeforms.len() < size * size,
    ensures
        first_free_cell(lifeforms, size, start).is_some(),
{
    let cells: int = size * size;
    let free = free_from(lifeforms, size, start);
    lemma_first_least_meaning(cells, free, no_key());
    if first_least(cells, free, no_key()).is_none() {
        let numbers = Seq::new(lifeforms.len(), |i: int| cell_number(lifeforms[i].location, size));
        let all = set_int_range(0, cells);
        assert forall|c: int| all.contains(c) implies numbers.to_set().contains(c) by {
            let k = if c >= start {
                c - start
            } else {
                c - start + cells
            };
            assert(wrapped(start, k, cells) == c);
            assert(!free(k));
            let cell = cell_at(c, size);
            let here = stands_at(lifeforms, cell);
            lemma_first_least_meaning(lifeforms.len() as int, here, no_key());
            let j = occupant(lifeforms, cell).unwrap();
            assert(here(j));
            lemma_cell_at(c, size);
            assert(numbers[j] == c);
            assert(numbers.contains(c));
        }
        assert(all.subset_of(numbers.to_set()));
        lemma_int_range(0, cells);
        seq_to_set_is_finite(numbers);
        lemma_len_subset(all, numbers.to_set());
        numbers.lemma_cardinality_of_set();
        assert(false);
    }
}

/// An agent set with a free cell on the grid has fewer lifeforms than the grid has
/// cells.
pub proof fn lemma_full_grid(
    lifeforms: Seq<Lifeform>,
    size: usize,
    inner: nat,
    genome_size: usize,
    free: Location,
)
    requires
        size > 0,
        population_ok(lifeforms, size, inner, genome_size),
        in_bounds(free, size),
        forall|j: int| 0 <= j < lifeforms.len() ==> (#[trigger] lifeforms[j]).location != free,
    ensures
        lifeforms.len() < size * size,
{
    let cells: int = size * size;
    let numbers = Seq::new(lifeforms.len(), |i: int| cell_number(lifeforms[i].location, size));
    let most = set_int_range(0, cells).remove(cell_number(free, size));
    crate::geometry::lemma_cell_number(free, size);
    assert forall|i: int, j: int| 0 <= i < j < numbers.len() implies numbers[i] != numbers[j] by {
        assert(lifeforms[i].wf(size, inner, genome_size));
        assert(lifeforms[j].wf(size, inner, genome_size));
        crate::geometry::lemma_cell_number(lifeforms[i].location, size);
        crate::geometry::lemma_cell_number(lifeforms[j].location, size);
        assert(lifeforms[i].location != lifeforms[j].location);
    }
    assert(numbers.no_duplicates());
    numbers.unique_seq_to_set();
    assert forall|c: int| numbers.to_set().contains(c) implies most.contains(c) by {
        let i = choose|i: int| 0 <= i < numbers.len() && numbers[i] == c;
        assert(lifeforms[i].wf(size, inner, genome_size));
        crate::geometry::lemma_cell_number(lifeforms[i].location, size);
        assert(lifeforms[i].location != free);
    }
    assert(numbers.to_set().subset_of(most));
    lemma_int_range(0, cells);
    lemma_len_subset(numbers.to_set(), most);
}

impl<'a> World<'a> {
    /// Side of the grid.
    pub open spec fn size(&self) -> usize {
        self.props.size
    }

    /// Number of hidden neurons of the world's taxonomy.
    pub open spec fn inner(&self) -> nat {
        self.props.neural_net_helper.inner_count()
    }

    /// The world is in order as far as a tick keeps it in order at every moment: the
    /// configuration is accepted, the lifeforms form an agent set of this world, every
    /// identifier is below `next_id`, and food, water and danger are sets of cells of
    /// the grid.
    pub open spec fn structure_ok(&self) -> bool {
        &&& self.props.wf()
        &&& population_ok(self.lifeforms@, self.size(), self.inner(), self.props.genome_size)
        &&& forall|i: int|
            0 <= i < self.lifeforms@.len() ==> (#[trigger] self.lifeforms@[i]).id < self.next_id
        &&& markers_ok(self.food@, self.size())
        &&& markers_ok(self.water@, self.size())
        &&& markers_ok(self.danger@, self.size())
    }

    /// Whether every lifeform has health left and is no older than the lifespan: what
    /// holds between ticks.
    pub open spec fn all_vital(&self) -> bool {
        forall|i: int|
            0 <= i < self.lifeforms@.len() ==> (#[trigger] self.lifeforms@[i]).health > 0
                && self.lifeforms@[i].age <= self.props.max_lifespan
    }

    /// The world is in order between ticks.
    pub open spec fn wf(&self) -> bool {
        self.structure_ok() && self.all_vital()
    }

    /// Whether the configuration, the tick counter and the next identifier are those
    /// of `other`.
    pub open spec fn same_setting(&self, other: &World<'a>) -> bool {
        &&& self.props == other.props
        &&& self.tick == other.tick
        &&& self.next_id == other.next_id
    }

    /// Whether food, water and danger are those of `other`.
    pub open spec fn same_markers(&self, other: &World<'a>) -> bool {
        &&& self.food@ == other.food@
        &&& self.water@ == other.water@
        &&& self.danger@ == other.danger@
    }

    /// A world without lifeforms, food, water or danger, at tick zero. The
    /// configuration is checked first, and rejected with the first fault it has.
    pub fn empty(props: WorldProps<'a>, seed: u64) -> (made: Result<World<'a>, ConfigError>)
        requires
            props.neural_net_helper.wf(),
        ensures
            match made {
                Ok(world) => {
                    &&& props.first_error().is_none()
                    &&& world.wf()
                    &&& world.props == props
                    &&& world.tick == 0
                    &&& world.next_id == 0
                    &&& world.rng.drawn() == 0
                    &&& world.lifeforms@.len() == 0
                    &&& world.food@.len() == 0
                    &&& world.water@.len() == 0
                    &&& world.danger@.len() == 0
                },
                Err(e) => props.first_error() == Some(e),
            },
    {
        match props.validate() {
            Err(e) => Err(e),
            Ok(_) => Ok(
                World {
                    props,
                    tick: 0,
                    lifeforms: Vec::new(),
                    food: Vec::new(),
                    water: Vec::new(),
                    danger: Vec::new(),
                    next_id: 0,
                    rng: RandomSource::from_seed(seed),
                },
            ),
        }
    }

    /// Whether a lifeform with the genome `genome` can be born at `cell`: the cell is
    /// on the grid and free, the genome has the configured length and fits the
    /// taxonomy, and an identifier is left.
    pub open spec fn admits(&self, cell: Location, genome: Genome) -> bool {
        &&& in_bounds(cell, self.size())
        &&& occupant(self.lifeforms@, cell).is_none()
        &&& genome@.len() == self.props.genome_size
        &&& genome.wf(self.inner())
        &&& self.next_id < usize::MAX
    }

    /// Lets a lifeform be born at `cell`, facing `heading`, with the genome `genome`
    /// and a blank network. Returns its identifier, or `None`, with the world
    /// unchanged, where the world does not admit it.
    pub fn insert_lifeform(&mut self, cell: Location, heading: Heading, genome: Genome) -> (id:
        Option<usize>)
        requires
            old(self).structure_ok(),
        ensures
            final(self).structure_ok(),
            old(self).all_vital() ==> final(self).all_vital(),
            final(self).props == old(self).props,
            final(self).rng.drawn() == old(self).rng.drawn(),
            final(self).tick == old(self).tick,
            final(self).same_markers(old(self)),
            id.is_some() <==> old(self).admits(cell, genome),
            match id {
                Some(given) => {
                    &&& given == old(self).next_id
                    &&& final(self).next_id == given + 1
                    &&& final(self).lifeforms@.len() == old(self).lifeforms@.len() + 1
                    &&& final(self).lifeforms@.drop_last() == old(self).lifeforms@
                    &&& final(self).lifeforms@.last() == born(
                        given,
                        cell,
                        heading,
                        genome,
                        final(self).lifeforms@.last().neural_net,
                    )
                    &&& final(self).lifeforms@.last().neural_net.is_blank()
                },
                None => final(self).lifeforms@ == old(self).lifeforms@ && final(self).next_id
                    == old(self).next_id,
            },
    {
        let helper = self.props.neural_net_helper;
        if !(cell.x < self.props.size && cell.y < self.props.size) {
            return None;
        }
        if find_occupant(&self.lifeforms, cell).is_some() {
            return None;
        }
        if genome.len() != self.props.genome_size || !genome.fits(helper) {
            return None;
        }
        if self.next_id == usize::MAX {
            return None;
        }
        let given = self.next_id;
        let net = helper.spawn();
        let child = Lifeform::newborn(given, cell, heading, genome, net);
        self.lifeforms.push(child);
        self.next_id = given + 1;
        proof {
            let before = old(self).lifeforms@;
            let after = self.lifeforms@;
            assert(after.drop_last() =~= before);
            assert forall|i: int| 0 <= i < after.len() implies (#[trigger] after[i]).wf(
                self.size(),
                self.inner(),
                self.props.genome_size,
            ) && after[i].id < self.next_id by {
                if i < before.len() {
                    assert(after[i] == before[i]);
                }
            }
            assert forall|i: int, j: int| 0 <= i < j < after.len() implies (#[trigger] after[i]).id
                < (#[trigger] after[j]).id && after[i].location != after[j].location by {
                assert(after[i] == before[i]);
                if j < before.len() {
                    assert(after[j] == before[j]);
                }
            }
            if old(self).all_vital() {
                assert forall|i: int| 0 <= i < after.len() implies (#[trigger] after[i]).health > 0
                    && after[i].age <= self.props.max_lifespan by {
                    if i < before.len() {
                        assert(after[i] == before[i]);
                    }
                }
            }
        }
        Some(given)
    }

    /// Marks `cell` as food, unless it is off the grid or holds food already; tells
    /// whether it was marked.
    pub fn add_food(&mut self, cell: Location) -> (added: bool)
        requires
            old(self).structure_ok(),
        ensures
            final(self).structure_ok(),
            added == (in_bounds(cell, old(self).size()) && !old(self).food@.contains(cell)),
            final(self).food@ == (if added {
                old(self).food@.push(cell)
            } else {
                old(self).food@
            }),
            final(self).same_setting(old(self)),
            final(self).rng.drawn() == old(self).rng.drawn(),
            final(self).lifeforms == old(self).lifeforms,
            final(self).water == old(self).water,
            final(self).danger == old(self).danger,
    {
        if cell.x < self.props.size && cell.y < self.props.size {
            place_marker(&mut self.food, cell)
        } else {
            false
        }
    }

    /// Marks `cell` as water, unless it is off the grid or holds water already; tells
    /// whether it was marked.
    pub fn add_water(&mut self, cell: Location) -> (added: bool)
        requires
            old(self).structure_ok(),
        ensures
            final(self).structure_ok(),
            added == (in_bounds(cell, old(self).size()) && !old(self).water@.contains(cell)),
            final(self).water@ == (if added {
                old(self).water@.push(cell)
            } else {
                old(self).water@
            }),
            final(self).same_setting(old(self)),
            final(self).rng.drawn() == old(self).rng.drawn(),
            final(self).lifeforms == old(self).lifeforms,
            final(self).food == old(self).food,
            final(self).danger == old(self).danger,
    {
        if cell.x < self.props.size && cell.y < self.props.size {
            place_marker(&mut self.water, cell)
        } else {
            false
        }
    }

    /// Marks `cell` as danger, unless it is off the grid or dangerous already; tells
    /// whether it was marked.
    pub fn add_danger(&mut self, cell: Location) -> (added: bool)
        requires
            old(self).structure_ok(),
        ensures
            final(self).structure_ok(),
            added == (in_bounds(cell, old(self).size()) && !old(self).danger@.contains(cell)),
            final(self).danger@ == (if added {
                old(self).danger@.push(cell)
            } else {
                old(self).danger@
            }),
            final(self).same_setting(old(self)),
            final(self).rng.drawn() == old(self).rng.drawn(),
            final(self).lifeforms == old(self).lifeforms,
            final(self).food == old(self).food,
            final(self).water == old(self).water,
    {
        if cell.x < self.props.size && cell.y < self.props.size {
            place_marker(&mut self.danger, cell)
        } else {
            false
        }
    }
}

} // verus!
