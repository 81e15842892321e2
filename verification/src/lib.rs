//! A concurrent Befunge-98 interpreter: funge-space, cursors with stack
//! stacks, the instruction set and a handful of fingerprints.
pub mod befunge;
pub mod befunge98;
pub mod outside;
pub mod settings;
pub mod text;
