//! The observation of an agent.
use crate::binary64::Binary64;
use crate::literal::{num, D0};
use crate::state::AircraftState;
use vstd::prelude::*;

verus! {

/// A channel of an observation: that of the state, and zero beyond.
pub open spec fn channel(state: AircraftState, i: int) -> Binary64 {
    if i < 12 {
        state.observed()[i]
    } else {
        num(D0)
    }
}

/// The first `dim` channels of the state, padded with zeros.
pub fn observe(state: &AircraftState, dim: usize) -> (r: Vec<Binary64>)
    ensures
        r@.len() == dim,
        forall|i: int| 0 <= i < dim ==> #[trigger] r@[i] == channel(*state, i),
{
    let full: [Binary64; 12] = state.to_observation_array();
    let mut r: Vec<Binary64> = Vec::new();
    let mut i: usize = 0;
    while i < dim
        invariant
            i <= dim,
            full@ =~= state.observed(),
            r@.len() == i,
            forall|k: int| 0 <= k < i ==> #[trigger] r@[k] == channel(*state, k),
        decreases dim - i,
    {
        r.push(
            if i < 12 {
                full[i]
            } else {
                num(D0)
            },
        );
        i += 1;
    }
    r
}

} // verus!
