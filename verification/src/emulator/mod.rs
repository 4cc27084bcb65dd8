//! The emulator: registration, initialisation and the run loop.
//!
//! The model of an [`Emulator`] is an [`EmulatorState`]: the hardware record
//! and the components in registration order.  A *pass* hands the record to
//! every component in that order, once; a *cycle* is one pass of `clock`.

use vstd::prelude::*;

pub mod component;

use crate::hardware::Hardware;
use component::{after_step, Component, Phase};

verus! {

/// What an emulator holds, as mathematics.
pub struct EmulatorState<C> {
    /// The components, in the order in which they were registered.
    pub components: Seq<C>,
    /// The machine.
    pub hardware: Hardware,
}

impl<C: Component> EmulatorState<C> {
    /// The state with `component` registered after the others.
    pub open spec fn registered(self, component: C) -> Self {
        EmulatorState { components: self.components.push(component), hardware: self.hardware }
    }

    /// The state with only the first `count` components.
    pub open spec fn prefix(self, count: int) -> Self {
        EmulatorState { components: self.components.take(count), hardware: self.hardware }
    }

    /// The state after one pass: every component has done the operation of
    /// `phase` once, in registration order, each on the machine as its
    /// predecessor left it.
    pub open spec fn after_pass(self, phase: Phase) -> Self
        decreases self.components.len(),
    {
        if self.components.len() == 0 {
            self
        } else {
            let before = self.prefix(self.components.len() - 1).after_pass(phase);
            let (component, hardware) = after_step(phase, self.components.last(), before.hardware);
            EmulatorState { components: before.components.push(component), hardware }
        }
    }

    /// The state after `count` cycles.
    pub open spec fn after_cycles(self, count: nat) -> Self
        decreases count,
    {
        if count == 0 {
            self
        } else {
            self.after_cycles((count - 1) as nat).after_pass(Phase::Clock)
        }
    }

    /// Whether the run loop makes exactly `count` cycles from this state:
    /// the power is on at the start of each of them and off after the last.
    pub open spec fn runs_for(self, count: nat) -> bool {
        &&& !self.after_cycles(count).hardware.power_on
        &&& forall|earlier: nat|
            earlier < count ==> (#[trigger] self.after_cycles(earlier)).hardware.power_on
    }

    /// Whether the run loop comes to an end from this state.
    pub open spec fn halts(self) -> bool {
        exists|count: nat| self.runs_for(count)
    }
}

/// A hardware record and the components that act on it.
pub struct Emulator<C: Component> {
    hardware: Hardware,
    components: Vec<C>,
}

impl<C: Component> View for Emulator<C> {
    type V = EmulatorState<C>;

    closed spec fn view(&self) -> EmulatorState<C> {
        EmulatorState { components: self.components@, hardware: self.hardware }
    }
}

impl<C: Component> Emulator<C> {
    /// An emulator with a machine in its reset state and no components.
    pub fn new() -> (emulator: Self)
        ensures
            emulator@ == (EmulatorState {
                components: Seq::<C>::empty(),
                hardware: Hardware::reset(),
            }),
    {
        Emulator { hardware: Hardware::new(), components: Vec::new() }
    }

    /// Appends `component` to the components.  The order of registration is
    /// the order in which every pass visits them.
    pub fn register_component(&mut self, component: C) -> (emulator: &mut Self)
        ensures
            emulator@ == old(self)@.registered(component),
            *final(self) == *final(emulator),
    {
        self.components.push(component);
        self
    }

    /// Initialises every component, once, in registration order.
    pub fn init(&mut self) -> (emulator: &mut Self)
        ensures
            emulator@.components.len() == old(self)@.components.len(),
            C::obeys_model() ==> emulator@ == old(self)@.after_pass(Phase::Init),
            *final(self) == *final(emulator),
    {
        self.pass(Phase::Init);
        self
    }

    /// Clocks every component, cycle after cycle, for as long as the power
    /// flag is set at the start of a cycle.  A component that clears the
    /// flag does not keep those after it from their tick in the same cycle.
    ///
    /// The loop ends only when a cycle leaves the power off, so the caller
    /// owes the cycle count after which that happens; `run` then makes
    /// exactly that many cycles.
    pub fn run(&mut self)
        requires
            C::obeys_model(),
            old(self)@.halts(),
        ensures
            !final(self)@.hardware.power_on,
            final(self)@.components.len() == old(self)@.components.len(),
            forall|count: nat| #[trigger]
                old(self)@.runs_for(count) ==> final(self)@ == old(self)@.after_cycles(count),
    {
        let ghost total: nat = choose|count: nat| old(self)@.runs_for(count);
        let ghost mut done: nat = 0;
        while self.hardware.power_on
            invariant
                C::obeys_model(),
                old(self)@.runs_for(total),
                done <= total,
                self@ == old(self)@.after_cycles(done),
                self@.components.len() == old(self)@.components.len(),
            decreases total - done,
        {
            self.pass(Phase::Clock);
            proof {
                done = done + 1;
            }
        }
    }

    /// The machine.
    pub fn hardware(&self) -> (hardware: &Hardware)
        ensures
            *hardware == self@.hardware,
    {
        &self.hardware
    }

    /// The components, in registration order.
    pub fn components(&self) -> (components: &Vec<C>)
        ensures
            components@ == self@.components,
    {
        &self.components
    }

    /// One pass of `phase` over the components.
    fn pass(&mut self, phase: Phase)
        ensures
            final(self)@.components.len() == old(self)@.components.len(),
            C::obeys_model() ==> final(self)@ == old(self)@.after_pass(phase),
    {
        let count = self.components.len();
        let mut index: usize = 0;
        while index < count
            invariant
                index <= count,
                count == self@.components.len(),
                count == old(self)@.components.len(),
                forall|later: int|
                    index <= later < count ==> self@.components[later] == old(
                        self,
                    )@.components[later],
                C::obeys_model() ==> self@.prefix(index as int) == old(self)@.prefix(
                    index as int,
                ).after_pass(phase),
            decreases count - index,
        {
            let ghost before = self@;
            match phase {
                Phase::Init => self.components[index].init(&mut self.hardware),
                Phase::Clock => self.components[index].clock(&mut self.hardware),
            }
            proof {
                let reached = old(self)@.prefix(index + 1);
                assert(reached.prefix(index as int).components =~= old(self)@.prefix(
                    index as int,
                ).components);
                if C::obeys_model() {
                    assert(self@.prefix(index + 1).components =~= before.prefix(
                        index as int,
                    ).components.push(self@.components[index as int]));
                }
            }
            index += 1;
        }
        assert(self@.prefix(count as int).components =~= self@.components);
        assert(old(self)@.prefix(count as int).components =~= old(self)@.components);
    }
}

/// A pass over the first `count` components does to them what a pass over
/// all components does to them: no component is affected by those
/// registered after it.  A pass keeps the number of components.
proof fn lemma_pass_prefix<C: Component>(state: EmulatorState<C>, phase: Phase, count: int)
    requires
        0 <= count <= state.components.len(),
    ensures
        state.after_pass(phase).components.len() == state.components.len(),
        state.after_pass(phase).components.take(count) == state.prefix(count).after_pass(
            phase,
        ).components,
    decreases state.components.len(),
{
    let len = state.components.len() as int;
    if len > 0 {
        let shorter = state.prefix(len - 1);
        lemma_pass_prefix(shorter, phase, len - 1);
        if count == len {
            assert(state.prefix(count).components =~= state.components);
        } else {
            lemma_pass_prefix(shorter, phase, count);
            assert(shorter.prefix(count).components =~= state.prefix(count).components);
        }
    }
}

/// In a pass every component does its operation exactly once, in
/// registration order: the component at `index` acts on the machine that a
/// pass over the components before it has left, and the components up to it
/// leave what it leaves.
pub proof fn lemma_pass_in_order<C: Component>(state: EmulatorState<C>, phase: Phase, index: int)
    requires
        0 <= index < state.components.len(),
    ensures
        state.after_pass(phase).components.len() == state.components.len(),
        state.prefix(state.components.len() as int).after_pass(phase) == state.after_pass(phase),
        ({
            let seen = state.prefix(index).after_pass(phase).hardware;
            let (component, hardware) = after_step(phase, state.components[index], seen);
            &&& state.after_pass(phase).components[index] == component
            &&& state.prefix(index + 1).after_pass(phase).hardware == hardware
        }),
{
    let upto = state.prefix(index + 1);
    lemma_pass_prefix(state, phase, index + 1);
    lemma_pass_prefix(state, phase, index);
    assert(upto.prefix(index).components =~= state.prefix(index).components);
    assert(state.prefix(state.components.len() as int).components =~= state.components);
    assert(state.after_pass(phase).components[index] == state.after_pass(phase).components.take(
        index + 1,
    )[index]);
}

/// A component registered after the others acts after them: a pass over the
/// longer list is a pass over the shorter one, followed by the operation of
/// the new component on the machine that the others have left.
pub proof fn lemma_pass_after_register<C: Component>(
    state: EmulatorState<C>,
    component: C,
    phase: Phase,
)
    ensures
        state.registered(component).after_pass(phase) == ({
            let before = state.after_pass(phase);
            let (last, hardware) = after_step(phase, component, before.hardware);
            EmulatorState { components: before.components.push(last), hardware }
        }),
{
    let longer = state.registered(component);
    assert(longer.prefix(longer.components.len() - 1).components =~= state.components);
}

/// The run loop cannot end after two different numbers of cycles.
pub proof fn lemma_run_length_unique<C: Component>(
    state: EmulatorState<C>,
    first: nat,
    second: nat,
)
    requires
        state.runs_for(first),
        state.runs_for(second),
    ensures
        first == second,
{
}

/// The run loop ends as soon as some cycle leaves the power off: if the
/// power is off after `count` cycles, the loop makes at most `count` cycles.
pub proof fn lemma_power_off_halts<C: Component>(state: EmulatorState<C>, count: nat)
    requires
        !state.after_cycles(count).hardware.power_on,
    ensures
        state.halts(),
        exists|cycles: nat| cycles <= count && #[trigger] state.runs_for(cycles),
    decreases count,
{
    if !state.runs_for(count) {
        let earlier = choose|earlier: nat|
            earlier < count && !(#[trigger] state.after_cycles(earlier)).hardware.power_on;
        lemma_power_off_halts(state, earlier);
    }
}

} // verus!
