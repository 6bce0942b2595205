//! An interpreter for the Chicken esoteric programming language.
//!
//! A Chicken program is text whose every line-feed-delimited line decodes to
//! one opcode: the count of occurrences of the word `chicken` on that line.
//! The virtual machine keeps everything — a self-pointer, the user input, the
//! program body and all working data — in one growable stack of [`Value`]s.

pub mod decode;
pub mod laws;
pub mod numtext;
pub mod shims;
pub mod value;
pub mod vm;

pub use value::Value;
pub use vm::ChickenError;
pub use vm::VMBuilder;
pub use vm::VMState;
