//! Text-mode screen writer and interrupt descriptor table of a small x86_64 kernel,
//! with the logic verified and the hardware access left to the caller.
use vstd::prelude::*;

pub mod decimal;
pub mod interrupts;
pub mod vga_writer;

verus! {

} // verus!
