//! Backend of a small compiler for a C subset: it lowers a linear
//! three-address intermediate representation into textual x86-64 assembly,
//! inventing a stack slot for every temporary, rewriting instructions to
//! respect the target's operand-placement restrictions, and expanding
//! composite operations into the sequences the hardware requires.
pub mod asm_symbols;
pub mod binary_instruction;
pub mod cmp_instruction;
pub mod emit;
pub mod integer_division;
pub mod laws;
pub mod ledger;
pub mod mov_instruction;
pub mod parse;
pub mod registers;
pub mod tacky;
pub mod terms;
pub mod unary_instruction;
