//! # cheap8
//!
//! A CHIP-8 interpreter core: a fetch/decode/execute CPU over a 4 KiB memory
//! image, a 64x32 monochrome display with XOR sprite blitting, and two 8-bit
//! countdown timers. Every step is specified against a mathematical model of
//! the machine and proved by Verus.
pub mod args;
pub mod cpu;
pub mod display;
pub mod instruction;
mod random;
pub mod timer;

pub use display::{Display, HEIGHT, PIXELS, WIDTH};
pub use instruction::Instruction;
pub use timer::Timer;
pub use args::{parse_color, Cli};
pub use cpu::{Cpu, CpuError, Output};
