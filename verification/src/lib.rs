//! A falling-block puzzle game core: a bit-packed playing field, a catalogue
//! of piece shapes with a four-state rotation, a frame-driven state update,
//! and a two-column text layout for drawing a frame.

pub mod geometry;
pub mod bits;
pub mod text;
pub mod board;
pub mod direction;
pub mod figure;
pub mod input;
pub mod game;
pub mod render;
pub mod frame;
