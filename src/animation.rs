use vstd::arithmetic::div_mod::{lemma_fundamental_div_mod, lemma_mod_multiples_vanish};
use vstd::prelude::*;

verus! {

/// Length of one animation cycle, in milliseconds.
pub const ANIMATION_DURATION: u128 = 10000;

/// A looping animation clock: the time elapsed in the current cycle.
#[derive(Clone, Copy, Debug)]
pub struct SimpleAnimation {
    animation_time: u128,
}

impl View for SimpleAnimation {
    type V = u128;

    closed spec fn view(&self) -> u128 {
        self.animation_time
    }
}

impl SimpleAnimation {
    /// The elapsed time stays inside one cycle.
    pub open spec fn wf(&self) -> bool {
        self@ < ANIMATION_DURATION
    }

    /// A clock at the start of a cycle.
    pub fn new() -> (r: Self)
        ensures
            r.wf(),
            r@ == 0,
    {
        SimpleAnimation { animation_time: 0 }
    }

    /// Time elapsed in the current cycle, in milliseconds.
    pub fn animation_time(&self) -> (r: u128)
        ensures
            r == self@,
    {
        self.animation_time
    }

    /// Advances the clock by `delta_millis`, wrapping at the end of each
    /// cycle.
    pub fn update_time(&mut self, delta_millis: u128)
        requires
            old(self).wf(),
        ensures
            final(self).wf(),
            final(self)@ == (old(self)@ + delta_millis) % (ANIMATION_DURATION as int),
    {
        let step = delta_millis % ANIMATION_DURATION;
        proof {
            let n = ANIMATION_DURATION as int;
            let d = delta_millis as int;
            lemma_fundamental_div_mod(d, n);
            lemma_mod_multiples_vanish(d / n, self.animation_time + step, n);
            assert(n * (d / n) + (self.animation_time + step) == self.animation_time + d);
        }
        self.animation_time = (self.animation_time + step) % ANIMATION_DURATION;
    }

    /// Distance of the clock from the nearer end of the cycle: rises from 0
    /// to half a cycle and falls back, the phase that drives the offset.
    pub fn animation_position(&self) -> (r: u128)
        requires
            self.wf(),
        ensures
            r == if self@ <= ANIMATION_DURATION - self@ {
                self@
            } else {
                (ANIMATION_DURATION - self@) as u128
            },
    {
        let back = ANIMATION_DURATION - self.animation_time;
        if self.animation_time <= back {
            self.animation_time
        } else {
            back
        }
    }
}

impl Default for SimpleAnimation {
    fn default() -> (r: Self)
        ensures
            r@ == 0,
    {
        SimpleAnimation::new()
    }
}

} // verus!
