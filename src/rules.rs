//! Cell states and the transition rule.
use vstd::prelude::*;
use std::ops::Range;

verus! {

/// The state of one cell.
#[derive(PartialEq, Eq, Structural, Clone, Copy, Debug)]
pub enum State {
    Active,
    Inactive,
}

/// A fresh cell is active when a draw from `0..ACTIVE_ODDS` comes out as 0.
pub const ACTIVE_ODDS: u32 = 20;

impl State {
    /// The initial state that a draw from `0..ACTIVE_ODDS` stands for.
    pub fn from_draw(draw: u32) -> (s: State)
        ensures
            s == (if draw == 0 { State::Active } else { State::Inactive }),
    {
        if draw == 0 {
            State::Active
        } else {
            State::Inactive
        }
    }
}

/// The four ranges of active-neighbour counts that drive the transitions.
pub struct GameRules {
    pub reproduction: Range<u8>,
    pub underpopulation: Range<u8>,
    pub continuation: Range<u8>,
    pub overpopulation: Range<u8>,
}

/// `c` lies in the half-open range `r`.
pub open spec fn in_range(r: Range<u8>, c: int) -> bool {
    r.start <= c < r.end
}

/// The state that follows `s` when `c` of its neighbours are active.
pub open spec fn next_state(rules: GameRules, s: State, c: int) -> State {
    match s {
        State::Active => if in_range(rules.underpopulation, c) {
            State::Inactive
        } else if in_range(rules.continuation, c) {
            State::Active
        } else if in_range(rules.overpopulation, c) {
            State::Inactive
        } else {
            State::Active
        },
        State::Inactive => if in_range(rules.reproduction, c) {
            State::Active
        } else {
            State::Inactive
        },
    }
}

/// The states that follow `states` when cell `i` has `counts[i]` active
/// neighbours.
pub open spec fn next_states(rules: GameRules, states: Seq<State>, counts: Seq<u8>) -> Seq<State> {
    Seq::new(states.len(), |i: int| next_state(rules, states[i], counts[i] as int))
}

/// Every cell is quiet: an active cell's count lies in `continuation` and out
/// of `underpopulation`, an inactive cell's count lies out of `reproduction`.
pub open spec fn quiescent(rules: GameRules, states: Seq<State>, counts: Seq<u8>) -> bool {
    forall|i: int|
        0 <= i < states.len() ==> match #[trigger] states[i] {
            State::Active => in_range(rules.continuation, counts[i] as int) && !in_range(
                rules.underpopulation,
                counts[i] as int,
            ),
            State::Inactive => !in_range(rules.reproduction, counts[i] as int),
        }
}

/// A quiet lattice is a fixed point of the rule.
pub proof fn lemma_quiescent_fixed_point(rules: GameRules, states: Seq<State>, counts: Seq<u8>)
    requires
        states.len() == counts.len(),
        quiescent(rules, states, counts),
    ensures
        next_states(rules, states, counts) == states,
{
    assert(next_states(rules, states, counts) =~= states);
}

fn in_rule_range(r: &Range<u8>, c: u8) -> (b: bool)
    ensures
        b == in_range(*r, c as int),
{
    r.start <= c && c < r.end
}

impl GameRules {
    /// The state that follows `s` when `c` of its neighbours are active.
    pub fn next_state(&self, s: State, c: u8) -> (r: State)
        ensures
            r == next_state(*self, s, c as int),
    {
        match s {
            State::Active => {
                if in_rule_range(&self.underpopulation, c) {
                    State::Inactive
                } else if in_rule_range(&self.continuation, c) {
                    State::Active
                } else if in_rule_range(&self.overpopulation, c) {
                    State::Inactive
                } else {
                    State::Active
                }
            },
            State::Inactive => {
                if in_rule_range(&self.reproduction, c) {
                    State::Active
                } else {
                    State::Inactive
                }
            },
        }
    }
}

} // verus!
