//! The controls of a running simulation: pause, tick cadence, the selected lifeform,
//! and whether to draw. The controls decide when to step; they never touch the world.

use crate::selection::{next_selection, previous_selection};
use crate::world::World;
use vstd::prelude::*;

verus! {

/// The cadence, in milliseconds per tick, that a simulation starts with.
pub const INITIAL_TICK_RATE: u64 = 250;

/// What the user asks for.
#[derive(Debug, Clone, Copy, PartialEq, Eq, Structural)]
pub enum Command {
    /// Leave the simulation.
    Quit,
    /// Switch drawing on or off.
    ToggleDraw,
    /// Pause, or go on.
    TogglePause,
    /// Select the lifeform before the selected one.
    SelectPrevious,
    /// Select the lifeform after the selected one.
    SelectNext,
    /// Make ticks three times as frequent.
    Faster,
    /// Make ticks half as frequent.
    Slower,
}

/// The state of the controls.
#[derive(Debug, Clone, Copy, PartialEq, Eq, Structural)]
pub struct Controls {
    /// Milliseconds between two ticks. While paused it is `u64::MAX`.
    pub tick_rate: u64,
    /// Whether the simulation is paused.
    pub paused: bool,
    /// The cadence to go back to when the pause ends.
    pub resume_rate: u64,
    /// The identifier of the selected lifeform.
    pub selected: Option<usize>,
    /// Whether every pass of the loop draws.
    pub should_draw: bool,
    /// Whether the simulation goes on.
    pub running: bool,
}

/// The cadence after `Slower`: twice the milliseconds and one more, as far as they can
/// be counted.
pub open spec fn slowed(rate: u64) -> u64 {
    if 2 * rate + 1 <= u64::MAX {
        (2 * rate + 1) as u64
    } else {
        u64::MAX
    }
}

/// The controls after `command`, for a simulation whose agent set is `world`'s.
pub open spec fn commanded(controls: Controls, command: Command, world: &World) -> Controls {
    match command {
        Command::Quit => Controls { running: false, ..controls },
        Command::ToggleDraw => Controls { should_draw: !controls.should_draw, ..controls },
        Command::TogglePause => if controls.paused {
            Controls { paused: false, tick_rate: controls.resume_rate, ..controls }
        } else {
            Controls {
                paused: true,
                resume_rate: controls.tick_rate,
                tick_rate: u64::MAX,
                ..controls
            }
        },
        Command::SelectPrevious => Controls {
            selected: previous_selection(world.lifeforms@, controls.selected),
            ..controls
        },
        Command::SelectNext => Controls {
            selected: next_selection(world.lifeforms@, controls.selected),
            ..controls
        },
        Command::Faster => Controls { tick_rate: controls.tick_rate / 3, ..controls },
        Command::Slower => Controls { tick_rate: slowed(controls.tick_rate), ..controls },
    }
}

/// The milliseconds left until the next tick is due, `elapsed` milliseconds after the
/// last one.
pub open spec fn time_left(tick_rate: u64, elapsed: u64) -> u64 {
    if elapsed >= tick_rate {
        0
    } else {
        (tick_rate - elapsed) as u64
    }
}

impl Controls {
    /// The controls of a simulation that starts: running, drawing, not paused, nothing
    /// selected, at the initial cadence.
    pub fn new() -> (controls: Controls)
        ensures
            controls == (Controls {
                tick_rate: INITIAL_TICK_RATE,
                paused: false,
                resume_rate: 0,
                selected: None,
                should_draw: true,
                running: true,
            }),
    {
        Controls {
            tick_rate: INITIAL_TICK_RATE,
            paused: false,
            resume_rate: 0,
            selected: None,
            should_draw: true,
            running: true,
        }
    }

    /// Carries out `command`.
    pub fn handle(&mut self, command: Command, world: &World)
        ensures
            *final(self) == commanded(*old(self), command, world),
    {
        match command {
            Command::Quit => {
                self.running = false;
            },
            Command::ToggleDraw => {
                self.should_draw = !self.should_draw;
            },
            Command::TogglePause => {
                if self.paused {
                    self.paused = false;
                    self.tick_rate = self.resume_rate;
                } else {
                    self.paused = true;
                    self.resume_rate = self.tick_rate;
                    self.tick_rate = u64::MAX;
                }
            },
            Command::SelectPrevious => {
                self.selected = world.select_previous(self.selected);
            },
            Command::SelectNext => {
                self.selected = world.select_next(self.selected);
            },
            Command::Faster => {
                self.tick_rate = self.tick_rate / 3;
            },
            Command::Slower => {
                self.tick_rate = if self.tick_rate <= (u64::MAX - 1) / 2 {
                    2 * self.tick_rate + 1
                } else {
                    u64::MAX
                };
            },
        }
    }

    /// The milliseconds to wait for input, `elapsed` milliseconds after the last tick.
    pub fn wait(&self, elapsed: u64) -> (left: u64)
        ensures
            left == time_left(self.tick_rate, elapsed),
    {
        if elapsed >= self.tick_rate {
            0
        } else {
            self.tick_rate - elapsed
        }
    }

    /// Whether a tick is due, `elapsed` milliseconds after the last one.
    pub fn tick_due(&self, elapsed: u64) -> (due: bool)
        ensures
            due == (elapsed >= self.tick_rate),
    {
        elapsed >= self.tick_rate
    }
}

} // verus!
