//! What the runtime offers to the code of a function beyond its own globals.
pub mod console;
pub mod pg;
