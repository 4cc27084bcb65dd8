//! The state of the emulated machine.

use vstd::prelude::*;

pub mod stack;

use stack::Stack;

verus! {

/// The whole observable state of the machine.
///
/// An emulator owns exactly one record and lends it to one component at a
/// time; it is the only channel through which components communicate.
pub struct Hardware {
    /// The program counter.
    pub pc: u16,
    /// The power flag: the run loop goes on for as long as it is set.
    pub power_on: bool,
    /// The call stack shared by the components.
    pub stack: Stack,
}

impl Hardware {
    /// The machine that no component has touched yet: the program counter
    /// is zero, the stack is blank, and the power is on.
    pub open spec fn reset() -> Hardware {
        Hardware { pc: 0, power_on: true, stack: Stack::blank() }
    }

    /// A machine in its reset state.
    pub fn new() -> (hardware: Self)
        ensures
            hardware == Hardware::reset(),
    {
        Hardware { pc: 0, power_on: true, stack: Stack::new() }
    }
}

} // verus!
