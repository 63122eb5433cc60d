use rand::Rng;
use vstd::prelude::*;

use crate::game::{tick_spec, Game, Input, Relaunch, RELAUNCH_MAX, RELAUNCH_MIN};

verus! {

/// Relies on `rand::Rng::gen_range` over `rand::thread_rng()`: on an inclusive range of
/// integers it returns a value of that range (it panics on an empty range, which the
/// precondition rules out).
#[verifier::external_body]
fn random_between(lo: u32, hi: u32) -> (r: u32)
    requires
        lo <= hi,
    ensures
        lo <= r <= hi,
{
    rand::thread_rng().gen_range(lo..=hi)
}

/// Relies on `rand::random`, used here for a fair coin; nothing is known of the value.
pub assume_specification<T>[ rand::random::<T> ]() -> (r: T)
    where
        rand::distributions::Standard: rand::distributions::Distribution<T>,
;

/// Draws how a lost ball is put back in play: an angle from `RELAUNCH_MIN` to
/// `RELAUNCH_MAX` degrees, mirrored or not by a coin toss.
pub fn random_relaunch() -> (r: Relaunch)
    ensures
        r.valid(),
{
    let angle: u32 = random_between(RELAUNCH_MIN, RELAUNCH_MAX);
    let mirrored: bool = rand::random::<bool>();
    Relaunch { angle, mirrored }
}

impl Game {
    /// One tick of the game as [`Game::tick`] makes it, with a relaunch drawn at random
    /// for the case that the ball is lost.
    pub fn tick_random(&mut self, input: Option<Input>, dt: u64)
        requires
            old(self)@.wf(),
        ensures
            exists|relaunch: Relaunch|
                relaunch.valid() && final(self)@ == #[trigger] tick_spec(
                    old(self)@,
                    input,
                    dt as int,
                    relaunch,
                ),
            final(self)@.wf(),
    {
        let relaunch = random_relaunch();
        self.tick(input, dt, relaunch);
    }
}

} // verus!
