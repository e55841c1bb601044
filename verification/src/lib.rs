//! A small two-dimensional, stack-based esoteric language.
//!
//! Program text is laid out as a toroidal grid of integer cells; an
//! instruction pointer walks the grid in one of four directions, and each
//! visited cell is decoded into an instruction that manipulates a value
//! stack, the grid itself, or the pointer's direction.

pub mod code;
pub mod ops;
pub mod space;
pub mod stack;
pub mod vm;
