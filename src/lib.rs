//! Generation of typed SPIR-V definitions from the instruction grammar, and
//! the builder procedures that append annotation instructions to a module.

pub mod dr;
pub mod grammar;
pub mod header;
pub mod opcodes;
pub mod order;
pub mod render;
pub mod text;
pub mod unique;
pub mod value_enum;
