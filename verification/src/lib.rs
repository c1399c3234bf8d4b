//! Layout and bookkeeping for a terminal typing trainer.
//!
//! The heart of the crate is a flow-layout engine: words are wrapped greedily
//! into rows inside a rectangular constraint, and the block of rows is then
//! aligned inside the available space.
//!
//! - [`flow`] states where each word goes, [`layout`] computes it,
//!   [`capacity`] tells beforehand whether the screen coordinates can hold
//!   it, and [`laws`] proves what holds of every layout.
//! - [`geometry`], [`constraint`], [`positioning`] and [`word`] hold the
//!   data that a layout is made of.
//! - [`typing`], [`sequence`], [`exercise`], [`training`] and [`game`] keep
//!   track of what is typed.
//! - [`escape`], [`brush`], [`format`], [`print`], [`sign`] and [`ui`] turn
//!   all of it into text for the terminal.

pub mod brush;
pub mod capacity;
pub mod constraint;
pub mod escape;
pub mod exercise;
pub mod flow;
pub mod format;
pub mod game;
pub mod geometry;
pub mod laws;
pub mod layout;
pub mod positioning;
pub mod print;
pub mod sequence;
pub mod sign;
pub mod training;
pub mod typing;
pub mod ui;
pub mod word;
