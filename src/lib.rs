//! Procedural rule generation and evaluation for the Wires puzzle module.

pub mod bomb;
pub mod edgework;
pub mod generate;
pub mod laws;
pub mod random;
pub mod rules;
pub mod small_vec;
pub mod text;
pub mod wires;
