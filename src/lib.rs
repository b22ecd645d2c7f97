//! The rules of a shoot-em-up level: hit points and damage, enemies and their classes, the
//! timed explosion chain that sweeps a team class by class, hazards, contacts between bodies,
//! and when a level is won or lost.
use vstd::prelude::*;

pub mod enemy;
pub mod energy;
pub mod explosion;
pub mod game_run;
pub mod level;
pub mod player;
pub mod rules;

mod clock;
mod tally;
