//! A two-dimensional cellular automaton of the Game-of-Life family on a
//! fixed-size, non-wrapping grid.
//!
//! The crate is split by component: [`rule`] holds the birth and survival
//! thresholds, [`grid`] the cell state and its mathematical model, [`step`]
//! the generation transition, [`pattern`] the seeding of named patterns,
//! [`random`] the randomised seeding, [`scheduler`] the interval timer,
//! [`config`] the settings that an application may change and
//! [`simulation`] the surface that it drives. [`laws`] states properties
//! that relate several of these.
pub mod config;
pub mod grid;
pub mod laws;
pub mod pattern;
pub mod random;
pub mod rule;
pub mod scheduler;
pub mod simulation;
pub mod step;
