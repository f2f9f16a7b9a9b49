//! A small stack-based virtual machine: a loader for its line-oriented
//! assembly text and an executor that runs the `main` section.
pub use loader::{load, load_lines, LoadError, ParseError};
pub use machine::{Event, Instruction, Machine, Op, Section};
pub use value::{FloatOp, Value, Fault};

pub mod value;
pub mod machine;
pub mod text;
pub mod syntax;
pub mod loader;
pub mod laws;
