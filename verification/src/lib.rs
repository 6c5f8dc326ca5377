use vstd::prelude::*;

mod bits;
pub mod cpu;
pub mod display;
pub mod arith_laws;
pub mod isa_laws;
pub mod laws;
pub mod memory;
pub mod ppu;
pub mod semantics;

verus! {
} // verus!
