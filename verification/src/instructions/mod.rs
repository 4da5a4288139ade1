//! Instruction semantics, grouped as in the MC68000 family manuals.

pub mod bcd;
pub mod bit_manip;
pub mod cmp2_chk2;
pub mod data_movement;
pub mod integer_arith;
pub mod logical;
pub mod move16;
pub mod moves;
pub mod mul_div;
pub mod mul_div_long;
pub mod shift;
