//! The linker that rustc calls for BPF programs.
pub mod args;
pub mod command;
pub mod course;
pub mod env;
pub mod laws;
pub mod pipeline;
pub mod stage_laws;
pub mod stages;
pub mod symbols;
pub mod tools;
pub mod turn_laws;
