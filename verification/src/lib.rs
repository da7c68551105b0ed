use vstd::prelude::*;

pub mod alu_board;
pub mod alu_vectors;
pub mod branch_vectors;
pub mod cpu;
pub mod cpu_laws;
pub mod matrix;
pub mod matrix_laws;
pub mod memory;
pub mod assembler;
pub mod assembler_laws;
pub mod text;

verus! {

} // verus!
