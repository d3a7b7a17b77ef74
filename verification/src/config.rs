//! The configuration of a world, fixed at its construction, and its validation.

use crate::genome::MUTATION_SCALE;
use crate::geometry::MAX_WORLD_SIZE;
use crate::neural_net::NeuralNetHelper;
use vstd::prelude::*;

verus! {

/// The scale of a density: a density counts the marked cells per thousand cells.
pub const DENSITY_SCALE: usize = 1000;

/// The configuration of a world.
#[derive(Debug, Clone, Copy)]
pub struct WorldProps<'a> {
    /// Side of the grid.
    pub size: usize,
    /// The taxonomy that every network of the world is spawned from.
    pub neural_net_helper: &'a NeuralNetHelper,
    /// Number of lifeforms the world starts with.
    pub num_initial_lifeforms: usize,
    /// Number of genes of every genome.
    pub genome_size: usize,
    /// Genes resampled per million at reproduction.
    pub mutation_rate: u32,
    /// Food cells per thousand cells that the world replenishes toward.
    pub food_density: usize,
    /// Water cells per thousand cells that the world replenishes toward.
    pub water_density: usize,
    /// Number of hidden neurons of the taxonomy.
    pub num_inner_neurons: usize,
    /// The population floor that reproduction restores.
    pub minimum_number_lifeforms: usize,
    /// The tick after which danger begins to appear.
    pub danger_delay: u64,
    /// The greatest age a lifeform reaches.
    pub max_lifespan: u64,
}

/// Why a configuration is rejected.
#[derive(Debug, Clone, Copy, PartialEq, Eq, Structural)]
pub enum ConfigError {
    /// The grid has no cells.
    ZeroSize,
    /// The side of the grid is above `MAX_WORLD_SIZE`.
    SizeTooLarge,
    /// Genomes would have no genes.
    EmptyGenome,
    /// The mutation rate is above one million per million.
    MutationRateTooHigh,
    /// A density is above a thousand per thousand.
    DensityTooHigh,
    /// The number of hidden neurons differs from that of the taxonomy.
    InnerNeuronsMismatch,
    /// The initial population or the population floor does not fit the grid.
    TooManyLifeforms,
    /// The lifespan leaves no room to count one tick beyond it.
    LifespanTooLong,
}

/// Number of cells that a density of `density` per thousand asks for on a grid of side
/// `size`.
pub open spec fn marker_target(size: usize, density: usize) -> int {
    (size * size * density) / (DENSITY_SCALE as int)
}

impl<'a> WorldProps<'a> {
    /// Number of cells of the grid.
    pub open spec fn cells(self) -> int {
        self.size * self.size
    }

    /// The first reason to reject the configuration, in the order in which
    /// `ConfigError` lists them; `None` for a configuration that is accepted.
    pub open spec fn first_error(self) -> Option<ConfigError> {
        if self.size == 0 {
            Some(ConfigError::ZeroSize)
        } else if self.size > MAX_WORLD_SIZE {
            Some(ConfigError::SizeTooLarge)
        } else if self.genome_size == 0 {
            Some(ConfigError::EmptyGenome)
        } else if self.mutation_rate > MUTATION_SCALE {
            Some(ConfigError::MutationRateTooHigh)
        } else if self.food_density > DENSITY_SCALE || self.water_density > DENSITY_SCALE {
            Some(ConfigError::DensityTooHigh)
        } else if self.num_inner_neurons != self.neural_net_helper.inner_count() {
            Some(ConfigError::InnerNeuronsMismatch)
        } else if self.num_initial_lifeforms > self.cells() || self.minimum_number_lifeforms
            > self.cells() {
            Some(ConfigError::TooManyLifeforms)
        } else if self.max_lifespan == u64::MAX {
            Some(ConfigError::LifespanTooLong)
        } else {
            None
        }
    }

    /// The configuration is accepted and its taxonomy is well formed.
    pub open spec fn wf(self) -> bool {
        self.first_error().is_none() && self.neural_net_helper.wf()
    }

    /// Checks the configuration: `Ok` where it is accepted, else the first reason to
    /// reject it.
    pub fn validate(&self) -> (checked: Result<(), ConfigError>)
        ensures
            match checked {
                Ok(_) => self.first_error().is_none(),
                Err(e) => self.first_error() == Some(e),
            },
    {
        if self.size == 0 {
            return Err(ConfigError::ZeroSize);
        }
        if self.size > MAX_WORLD_SIZE {
            return Err(ConfigError::SizeTooLarge);
        }
        if self.genome_size == 0 {
            return Err(ConfigError::EmptyGenome);
        }
        if self.mutation_rate as u64 > MUTATION_SCALE as u64 {
            return Err(ConfigError::MutationRateTooHigh);
        }
        if self.food_density > DENSITY_SCALE || self.water_density > DENSITY_SCALE {
            return Err(ConfigError::DensityTooHigh);
        }
        if self.num_inner_neurons != self.neural_net_helper.inner_neurons.len() {
            return Err(ConfigError::InnerNeuronsMismatch);
        }
        let cells = cell_count(self.size);
        if self.num_initial_lifeforms > cells || self.minimum_number_lifeforms > cells {
            return Err(ConfigError::TooManyLifeforms);
        }
        if self.max_lifespan == u64::MAX {
            return Err(ConfigError::LifespanTooLong);
        }
        Ok(())
    }

    /// Number of food cells that the world replenishes toward.
    pub fn food_target(&self) -> (target: usize)
        requires
            self.first_error().is_none(),
        ensures
            target == marker_target(self.size, self.food_density),
            target <= self.cells(),
    {
        target_count(self.size, self.food_density)
    }

    /// Number of water cells that the world replenishes toward.
    pub fn water_target(&self) -> (target: usize)
        requires
            self.first_error().is_none(),
        ensures
            target == marker_target(self.size, self.water_density),
            target <= self.cells(),
    {
        target_count(self.size, self.water_density)
    }
}

/// Number of cells of a grid of side `size`.
pub fn cell_count(size: usize) -> (cells: usize)
    requires
        size <= MAX_WORLD_SIZE,
    ensures
        cells == size * size,
        cells <= MAX_WORLD_SIZE * MAX_WORLD_SIZE,
        size > 0 ==> cells >= size,
{
    assert(size * size <= MAX_WORLD_SIZE * MAX_WORLD_SIZE && (size > 0 ==> size * size >= size))
        by (nonlinear_arith)
        requires
            0 <= size <= MAX_WORLD_SIZE,
    ;
    size * size
}

/// Number of cells that a density of `density` per thousand asks for.
pub fn target_count(size: usize, density: usize) -> (target: usize)
    requires
        size <= MAX_WORLD_SIZE,
        density <= DENSITY_SCALE,
    ensures
        target == marker_target(size, density),
        target <= size * size,
{
    let cells = cell_count(size);
    assert(cells * density <= cells * 1000 && (cells * density) / 1000 <= cells)
        by (nonlinear_arith)
        requires
            0 <= cells,
            0 <= density <= 1000,
    ;
    let wide: u64 = (cells as u64) * (density as u64);
    (wide / 1000) as usize
}

} // verus!
