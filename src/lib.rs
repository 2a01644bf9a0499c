//! A small stack machine whose programs are written with three emoji.
//!
//! [`DogInst::parse`] turns program text into instructions, and [`DogVm`]
//! runs them against six registers and an operand stack.

pub mod error;
pub mod inst;
pub mod laws;
pub mod regs;
pub mod vm;

pub use error::{DogCompileError, DogRuntimeError};
pub use inst::{DogInst, CompileFault};
pub use regs::DogRegs;
pub use vm::{DogEvent, DogVm, Outcome, VmView};
