//! A CHIP-8 and SUPER-CHIP interpreter core.
//!
//! The crate holds the three parts of the machine: the sixteen-key
//! [`keypad::Keypad`], the bit-packed two-resolution [`screen::Screen`], and the
//! interpreter [`Chip8`] that owns both together with memory, registers, call
//! stack and timers. The host loads a program, runs cycles at its own pace,
//! ticks the timers at sixty hertz, feeds key presses in and reads the picture
//! out.
//!
//! Every executable function carries a contract over a mathematical model of
//! the state it touches, and the contracts are proved: [`machine::Machine`]
//! is the whole machine as one value, and [`machine::Machine::step`] says what
//! one cycle makes of it.

pub mod bits;
pub mod error;
pub mod font;
pub mod instruction;
pub mod interpreter;
pub mod keypad;
pub mod machine;
pub mod screen;

pub use crate::interpreter::Chip8;
