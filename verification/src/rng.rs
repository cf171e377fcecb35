//! Sources of random indices. Every random choice the sampler and the
//! expander make is drawn through the `IndexSource` trait, so the same code
//! runs against the process generator and against a deterministic script.

use vstd::prelude::*;

verus! {

/// A source of indices; each draw yields an index below the given bound.
pub trait IndexSource {
    /// Draws one index below `bound`.
    fn next_below(&mut self, bound: usize) -> (r: usize)
        requires
            bound > 0,
        ensures
            r < bound,
    ;
}

#[verifier::external_type_specification]
#[verifier::external_body]
pub struct ExThreadRng(rand::rngs::ThreadRng);

/// Relies on rand::thread_rng: a handle to the thread-local generator.
#[verifier::external_body]
fn fresh_thread_rng() -> rand::rngs::ThreadRng {
    rand::thread_rng()
}

/// Relies on rand::Rng::gen_range over the half-open range `0..bound`: the
/// result lies in that range, uniformly distributed. The range is non-empty
/// because `bound` is positive, so the call does not panic.
#[verifier::external_body]
fn gen_index(rng: &mut rand::rngs::ThreadRng, bound: usize) -> (r: usize)
    requires
        bound > 0,
    ensures
        r < bound,
{
    rand::Rng::gen_range(rng, 0..bound)
}

/// Draws from the process's thread-local pseudo-random generator.
pub struct SystemRandom {
    rng: rand::rngs::ThreadRng,
}

impl SystemRandom {
    /// A source backed by the thread-local generator.
    pub fn new() -> SystemRandom {
        SystemRandom { rng: fresh_thread_rng() }
    }
}

impl IndexSource for SystemRandom {
    fn next_below(&mut self, bound: usize) -> (r: usize) {
        gen_index(&mut self.rng, bound)
    }
}

/// Replays a fixed script of draws: each draw takes the next scripted value
/// reduced modulo the bound, and zero once the script is exhausted.
pub struct ScriptedRandom {
    values: Vec<usize>,
    next: usize,
}

impl ScriptedRandom {
    /// The scripted values.
    pub closed spec fn script(self) -> Seq<usize> {
        self.values@
    }

    /// How many draws have been made.
    pub closed spec fn position(self) -> nat {
        self.next as nat
    }

    /// A source that replays `values` in order.
    pub fn new(values: Vec<usize>) -> (s: ScriptedRandom)
        ensures
            s.script() == values@,
            s.position() == 0,
    {
        ScriptedRandom { values, next: 0 }
    }
}

impl IndexSource for ScriptedRandom {
    fn next_below(&mut self, bound: usize) -> (r: usize)
        ensures
            final(self).script() == old(self).script(),
            old(self).position() < old(self).script().len() ==> {
                &&& r as int == (old(self).script()[old(self).position() as int] as int) % (
                bound as int)
                &&& final(self).position() == old(self).position() + 1
            },
            old(self).position() >= old(self).script().len() ==> {
                &&& r == 0
                &&& final(self).position() == old(self).position()
            },
    {
        if self.next < self.values.len() {
            let v = self.values[self.next];
            self.next = self.next + 1;
            v % bound
        } else {
            0
        }
    }
}

} // verus!
