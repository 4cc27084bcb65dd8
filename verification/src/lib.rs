//! The skeleton of a hardware emulator.
//!
//! An [`emulator::Emulator`] owns one [`hardware::Hardware`] record and an
//! ordered list of [`emulator::component::Component`]s.  It initialises the
//! components once, in the order in which they were registered, and then
//! clocks all of them, pass after pass, until one of them switches the
//! machine off.  Components share a bounded [`hardware::stack::Stack`] of
//! 16-bit values for subroutine calls.
//!
//! Every function is verified against a mathematical model: a stack is the
//! sequence of values it holds, an emulator is its hardware record together
//! with the sequence of its components.

pub mod emulator;
pub mod hardware;
