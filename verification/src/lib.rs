//! A table-driven instruction decoder for byte-oriented machine code.
//!
//! A [`binding::BindingTable`] holds an ordered list of bindings, each one a
//! byte pattern paired with an instruction variant and the recipe for its
//! operands. [`decoder::decode`] matches the front of a byte slice against
//! the table and returns the decoded instruction with the number of bytes it
//! took.

pub mod binding;
pub mod decoder;
pub mod opcode;
pub mod operand;
