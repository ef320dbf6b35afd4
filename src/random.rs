//! Random initial states, drawn with `rand`.
use vstd::prelude::*;
use rand::Rng;
use rand::rngs::StdRng;
use crate::rules::{ACTIVE_ODDS, State};

verus! {

#[verifier::external_type_specification]
#[verifier::external_body]
pub struct ExStdRng(StdRng);

/// Relies on rand's `Rng::gen_range(low, high)`: a value in `[low, high)`; it
/// panics when `low >= high`, which `requires` rules out.
#[verifier::external_body]
fn draw_below(rng: &mut StdRng, high: u32) -> (r: u32)
    requires
        high > 0,
    ensures
        r < high,
{
    rng.gen_range(0, high)
}

/// `count` initial states, each active when its draw from `0..ACTIVE_ODDS`
/// comes out as 0.
pub fn random_states(count: usize, rng: &mut StdRng) -> (r: Vec<State>)
    ensures
        r@.len() == count,
{
    let mut v: Vec<State> = Vec::with_capacity(count);
    let mut i: usize = 0;
    while i < count
        invariant
            0 <= i <= count,
            v@.len() == i,
        decreases count - i,
    {
        let draw = draw_below(rng, ACTIVE_ODDS);
        v.push(State::from_draw(draw));
        i = i + 1;
    }
    v
}

} // verus!
