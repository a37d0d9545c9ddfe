use vstd::prelude::*;

use crate::config::blocks::cutters::Delay;
use crate::util::{cycled, repeat_for};

pub mod bitmask_dir_visibility;
pub mod bitmask_slice;
pub mod bitmask_windows;

verus! {

/// A list of delays brought to `amount` frames: a list that is too short is
/// gone through again from its start as often as it takes, a list that has
/// a delay for every frame is kept whole. No delay is ever dropped.
pub open spec fn extended(given: Seq<Delay>, amount: int) -> Seq<Delay> {
    if given.len() >= amount {
        given
    } else {
        cycled(given, amount)
    }
}

/// Brings a list of delays to `amount` frames.
#[must_use]
pub fn extend_delays(given: &Vec<Delay>, amount: usize) -> (delays: Vec<Delay>)
    ensures
        delays@ == extended(given@, amount as int),
{
    if given.len() >= amount {
        let delays = given.clone();
        assert(delays@ =~= given@);
        delays
    } else {
        repeat_for(given.as_slice(), amount)
    }
}

/// The delays of an animation of `amount` frames: the configured delays,
/// gone through again from the first where there are fewer than frames.
#[must_use]
pub fn delay_repeat(to_repeat: &Option<Vec<Delay>>, amount: usize) -> (delays: Option<Vec<Delay>>)
    ensures
        match to_repeat {
            Some(given) => delays is Some && delays->Some_0@ == extended(given@, amount as int),
            None => delays is None,
        },
{
    match to_repeat {
        Some(given) => Some(extend_delays(given, amount)),
        None => None,
    }
}

} // verus!
