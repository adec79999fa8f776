//! Conway's Game of Life on a bounded grid that can be edited while the
//! simulation is paused.
//!
//! The library holds the logic and no window. It is driven once per
//! frame: [`frame::render_frame`] says what to draw,
//! [`interaction::handle_events`] applies the input that arrived, and
//! [`frame::end_frame`] steps the simulation when a step is due.
//!
//! Contracts are stated over mathematical models: a [`grid::Board`] for the
//! cells and a [`game::GameModel`] for the game. The rule itself and what
//! follows from it are in [`life`] and [`patterns`].

pub mod frame;
pub mod game;
pub mod grid;
pub mod input;
pub mod interaction;
pub mod life;
pub mod patterns;
pub mod render;
