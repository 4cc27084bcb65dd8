//! The contract between the emulator and the hardware it drives.

use crate::hardware::Hardware;
use vstd::prelude::*;

verus! {

/// A pluggable piece of hardware: a CPU, a timer, a display.
///
/// The emulator hands each component the hardware record, first once for
/// `init` and then once per cycle for `clock`.  A component acts on the
/// machine only through that record.
///
/// A component may come with a model of itself: `after_init` and
/// `after_clock` say, as functions, what the two operations make of the
/// component and of the machine.  An implementation that declares
/// `obeys_model` owes the proof that `init` and `clock` do exactly that, and
/// what the emulator promises of its passes and of its run loop is promised
/// of such components.  Nothing is assumed of an implementation that leaves
/// the three functions as they are given here.
pub trait Component: Sized {
    /// Whether `init` and `clock` follow `after_init` and `after_clock`.
    open spec fn obeys_model() -> bool {
        false
    }

    /// The component and the machine as `init` leaves them.
    open spec fn after_init(self, hardware: Hardware) -> (Self, Hardware) {
        (self, hardware)
    }

    /// The component and the machine as one `clock` tick leaves them.
    open spec fn after_clock(self, hardware: Hardware) -> (Self, Hardware) {
        (self, hardware)
    }

    /// One-time setup, for instance of the entry point.
    fn init(&mut self, hardware: &mut Hardware)
        ensures
            Self::obeys_model() ==> (*final(self), *final(hardware)) == old(self).after_init(
                *old(hardware),
            ),
    ;

    /// Advances the component by one tick.  Clearing the power flag asks the
    /// emulator to stop after the current cycle.
    fn clock(&mut self, hardware: &mut Hardware)
        ensures
            Self::obeys_model() ==> (*final(self), *final(hardware)) == old(self).after_clock(
                *old(hardware),
            ),
    ;
}

/// A boxed component is the component in the box.
impl<C: Component> Component for Box<C> {
    open spec fn obeys_model() -> bool {
        C::obeys_model()
    }

    open spec fn after_init(self, hardware: Hardware) -> (Self, Hardware) {
        let (component, hardware) = (*self).after_init(hardware);
        (Box::new(component), hardware)
    }

    open spec fn after_clock(self, hardware: Hardware) -> (Self, Hardware) {
        let (component, hardware) = (*self).after_clock(hardware);
        (Box::new(component), hardware)
    }

    fn init(&mut self, hardware: &mut Hardware) {
        (**self).init(hardware);
    }

    fn clock(&mut self, hardware: &mut Hardware) {
        (**self).clock(hardware);
    }
}

/// The two operations that an emulator asks of its components.
#[derive(Clone, Copy, Debug, PartialEq, Eq)]
pub enum Phase {
    /// `Component::init`.
    Init,
    /// `Component::clock`.
    Clock,
}

/// The component and the machine after the operation of `phase`.
pub open spec fn after_step<C: Component>(phase: Phase, component: C, hardware: Hardware) -> (
    C,
    Hardware,
) {
    match phase {
        Phase::Init => component.after_init(hardware),
        Phase::Clock => component.after_clock(hardware),
    }
}

} // verus!
