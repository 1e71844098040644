//! An interpreter core for the CHIP-8 virtual machine.
//!
//! The platform (screen, keypad, clock, sound, randomness) is supplied by an
//! implementation of [`Hardware`]; [`Chip8`] drives it one cycle at a time.
//!
//! - `cpu`: registers, memory, call stack and timers, and the effect of each instruction
//!   that stays inside them.
//! - `instr`: instruction words and their decoding.
//! - `screen`: the sprite-drawing rule.
//! - `chip8`: the interpreter, which runs instructions against a platform.
//! - `laws`: properties of the machine that hold across instructions.
pub mod chip8;
pub mod cpu;
pub mod hardware;
pub mod instr;
pub mod laws;
pub mod screen;

pub use chip8::Chip8;
pub use hardware::Hardware;
pub use instr::{decode, Fault, Instr};
