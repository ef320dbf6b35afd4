//! The simulation: a lattice, its rules and the timer that paces its steps.
use vstd::prelude::*;
use rand::rngs::StdRng;
use crate::lattice::{Lattice, LatticeView, neighbor_counts};
use crate::random::random_states;
use crate::rules::{GameRules, next_states};
use crate::timer::{TickTimer, TimerView, timer_after, timer_fires};

verus! {

/// A lattice that steps whenever its timer fires.
pub struct Simulation {
    rules: GameRules,
    timer: TickTimer,
    lattice: Lattice,
}

impl Simulation {
    /// The lattice of the simulation.
    pub closed spec fn lattice_view(&self) -> LatticeView {
        self.lattice@
    }

    /// The timer of the simulation.
    pub closed spec fn timer_view(&self) -> TimerView {
        self.timer@
    }

    /// The rules of the simulation.
    pub closed spec fn rules_view(&self) -> GameRules {
        self.rules
    }

    /// The simulation is well formed.
    pub closed spec fn wf(&self) -> bool {
        self.lattice.wf() && self.timer.wf()
    }

    /// A simulation whose lattice starts from `lattice` and whose timer has
    /// gathered nothing.
    pub fn new(rules: GameRules, interval: u64, lattice: Lattice) -> (r: Simulation)
        requires
            lattice.wf(),
        ensures
            r.wf(),
            r.rules_view() == rules,
            r.lattice_view() == lattice@,
            r.timer_view() == (TimerView { interval: interval as nat, elapsed: 0 }),
    {
        Simulation { rules, timer: TickTimer::new(interval), lattice }
    }

    /// A simulation on a lattice of edge `room_size` whose cells start in
    /// random states.
    pub fn new_random(rules: GameRules, interval: u64, room_size: u8, rng: &mut StdRng) -> (r: Simulation)
        requires
            1 <= room_size <= 255,
        ensures
            r.wf(),
            r.rules_view() == rules,
            r.lattice_view().room_size == room_size as nat,
            r.lattice_view().counts == Seq::new(r.lattice_view().states.len(), |i: int| 0u8),
            r.timer_view() == (TimerView { interval: interval as nat, elapsed: 0 }),
    {
        let side = room_size as usize;
        proof {
            assert(side * side <= 255 * 255) by (nonlinear_arith)
                requires side <= 255;
            assert(side * side * side <= 255 * 255 * 255) by (nonlinear_arith)
                requires side <= 255;
        }
        let states = random_states(side * side * side, rng);
        let lattice = Lattice::from_states(room_size, states);
        Simulation::new(rules, interval, lattice)
    }

    /// The lattice of the simulation.
    pub fn lattice(&self) -> (r: &Lattice)
        ensures
            r@ == self.lattice_view(),
            self.wf() ==> r.wf(),
    {
        &self.lattice
    }

    /// The rules of the simulation.
    pub fn rules(&self) -> (r: &GameRules)
        ensures
            *r == self.rules_view(),
    {
        &self.rules
    }

    /// The timer of the simulation.
    pub fn timer(&self) -> (r: &TickTimer)
        ensures
            r@ == self.timer_view(),
    {
        &self.timer
    }

    /// Feeds `delta` time units to the timer and, when it fires, makes one
    /// synchronous step of the lattice. Says whether a step was made; when
    /// none was, the lattice is left as it was.
    pub fn update(&mut self, delta: u64) -> (stepped: bool)
        requires
            old(self).wf(),
        ensures
            final(self).wf(),
            stepped == timer_fires(old(self).timer_view(), delta as nat),
            final(self).timer_view() == timer_after(old(self).timer_view(), delta as nat),
            final(self).rules_view() == old(self).rules_view(),
            !stepped ==> final(self).lattice_view() == old(self).lattice_view(),
            stepped ==> final(self).lattice_view().room_size == old(self).lattice_view().room_size,
            stepped ==> final(self).lattice_view().neighbors == old(self).lattice_view().neighbors,
            stepped ==> final(self).lattice_view().counts == neighbor_counts(old(self).lattice_view()),
            stepped ==> final(self).lattice_view().states == next_states(
                old(self).rules_view(),
                old(self).lattice_view().states,
                neighbor_counts(old(self).lattice_view()),
            ),
    {
        let stepped = self.timer.tick(delta);
        if stepped {
            self.lattice.step(&self.rules);
        }
        stepped
    }
}

} // verus!
