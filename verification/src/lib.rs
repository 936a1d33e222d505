//! A CHIP-8 virtual machine whose interpreter is verified with Verus.
//!
//! - `machine` says what the machine is and does, as mathematics.
//! - `chip8` is the interpreter, proved to do what `machine` says.
//! - `display` draws sprites onto the 64x32 display.
//! - `keyboard` is the 16-key input latch.
//! - `utility` splits instruction words into their digits.
//! - `laws` holds what follows for every program: wrapping arithmetic, skips,
//!   calls and returns, the key wait, the timers, and what no instruction can
//!   break.
//! - `platform` is what is taken on trust from outside: clocks and random
//!   bytes.

pub mod chip8;
pub mod display;
pub mod keyboard;
pub mod laws;
pub mod machine;
pub mod platform;
pub mod utility;
