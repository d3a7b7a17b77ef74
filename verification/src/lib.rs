//! A population of lifeforms on a grid, each steered by a small neural network whose
//! wiring is a heritable genome.
//!
//! All scalars are fixed-point thousandths (`fixed`). A taxonomy (`neural_net`) hands
//! out neuron identifiers; genes (`genome`) are weighted edges between them; a network
//! is evaluated once per tick (`evaluation`) on the readings of its sensors
//! (`sensors`). The world (`world`, `config`) advances tick by tick (`step`): turns
//! (`tick`, `population`), renewal and the death sweep (`renewal`), and birth (`birth`).

pub mod birth;
pub mod config;
pub mod control;
pub mod evaluation;
pub mod fixed;
pub mod genome;
pub mod geometry;
pub mod lifeform;
pub mod markers;
pub mod neural_net;
pub mod population;
pub mod random;
pub mod renewal;
pub mod search;
pub mod selection;
pub mod sensors;
pub mod step;
pub mod tick;
pub mod world;
