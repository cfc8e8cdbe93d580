//! Resolves command-line intent into one operation on a file and drives that
//! operation through an external text-transformation engine.
//!
//! The library decides; it touches neither the file system nor the engine.
//! A caller hands it the command-line tokens, each with the answer whether
//! it names an existing regular file, and gets an operation descriptor
//! (`resolver`, `descriptor`). The run of the operation is a state machine
//! (`pipeline`): each step names what is to be done outside, and the outcome
//! handed back decides the next step, down to the exit status. How the
//! engine is called and how its output is read is laid down in `engine`, how
//! destinations are named in `naming`, the fatal conditions in `failure`.

pub mod descriptor;
pub mod engine;
pub mod failure;
pub mod naming;
pub mod pipeline;
pub mod resolver;
pub mod text;
