//! A tick-driven engine for the classic snake game on a character grid.
//!
//! The engine owns the rules: how the snake advances, what counts as a
//! collision, where food may appear and which glyphs make up a frame. The
//! terminal, the keyboard and the clock stay with the caller, which hands
//! the engine plain values and paints what it returns.

pub mod geometry;
pub mod snake;
pub mod wall;
pub mod chance;
pub mod game;
pub mod theorems;
pub mod render;
