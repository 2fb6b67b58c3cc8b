//! A palette-indexed "Doom fire" heat-diffusion simulation.
//!
//! The simulation core lives in [`fire_engine`]: a flat intensity grid that
//! is ignited along its bottom row and advanced frame by frame by a decay
//! rule. [`fire_palette`] maps intensities to displayable colors,
//! [`console_fire_renderer`] prepares terminal output, and [`cli`] decides
//! what a command line asks for. Drawing itself is left to the caller,
//! behind the [`fire_engine::FireRenderer`] capability.

pub mod cli;
pub mod console_fire_renderer;
pub mod fire_engine;
pub mod fire_palette;
