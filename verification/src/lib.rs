//! A virtual machine for the LC-3 instruction set, with its instruction
//! decoding, execution and trap handling proved against a model of the ISA.

pub mod isa;
pub mod instructions;
pub mod svm;
pub mod trap;
pub mod laws;
