//! The delay's ring of samples. Which place is read is computed from the delay's time outside;
//! here are the ring's turns. A sample is held as the 32 bits of a single-precision number.

use vstd::prelude::*;

verus! {

/// The place that is written next in a ring of samples.
pub struct PsramDelay {
    pub write_ptr: usize,
}

/// The place after `at` in a ring of `len` places.
pub open spec fn ahead(at: int, len: int) -> int {
    (at + 1) % len
}

/// A ring and its place after one more sample was written.
pub open spec fn stored(ring: (Seq<u32>, int), sample: u32) -> (Seq<u32>, int) {
    (ring.0.update(ring.1, sample), ahead(ring.1, ring.0.len() as int))
}

/// The place `steps` behind `at` in a ring of `len` places.
pub open spec fn behind(at: int, steps: int, len: int) -> int {
    (at - steps) % len
}

impl PsramDelay {
    pub open spec fn wf(&self, len: nat) -> bool {
        self.write_ptr < len
    }

    pub fn new() -> (delay: Self)
        ensures
            delay.write_ptr == 0,
    {
        PsramDelay { write_ptr: 0 }
    }

    /// The samples at place `at` and at the place after it, between which the delayed sample lies.
    pub fn taps(&self, ring: &[u32], at: usize) -> (samples: (u32, u32))
        requires
            at < ring@.len(),
        ensures
            samples.0 == ring@[at as int],
            samples.1 == ring@[(at + 1) % (ring@.len() as int)],
            samples.1 == ring@[ahead(at as int, ring@.len() as int)],
    {
        let len: usize = ring.len();
        let next: usize = if at == len - 1 {
            0
        } else {
            at + 1
        };
        assert(next == (at + 1) % (ring@.len() as int)) by (nonlinear_arith)
            requires
                at < ring@.len(),
                next == if at + 1 == ring@.len() {
                    0
                } else {
                    at + 1
                },
        ;
        (ring[at], ring[next])
    }

    /// Writes `sample` and goes on to the next place.
    pub fn store(&mut self, ring: &mut [u32], sample: u32)
        requires
            old(self).wf(old(ring)@.len()),
        ensures
            final(self).wf(final(ring)@.len()),
            final(ring)@ == old(ring)@.update(old(self).write_ptr as int, sample),
            final(self).write_ptr == (old(self).write_ptr + 1) % (old(ring)@.len() as int),
            stored((old(ring)@, old(self).write_ptr as int), sample) == (
                final(ring)@,
                final(self).write_ptr as int,
            ),
    {
        let at: usize = self.write_ptr;
        ring[at] = sample;
        self.write_ptr = if at + 1 == ring.len() {
            0
        } else {
            at + 1
        };
        assert(self.write_ptr == (at + 1) % (ring@.len() as int)) by (nonlinear_arith)
            requires
                at < ring@.len(),
                self.write_ptr == if at + 1 == ring@.len() {
                    0
                } else {
                    at + 1
                },
        ;
    }

    /// Fills the ring with silence and starts over.
    pub fn reset(&mut self, ring: &mut [u32])
        ensures
            final(ring)@ == Seq::new(old(ring)@.len(), |i: int| 0u32),
            final(self).write_ptr == 0,
    {
        let mut i: usize = 0;
        while i < ring.len()
            invariant
                i <= ring@.len(),
                ring@.len() == old(ring)@.len(),
                forall|j: int| 0 <= j < i ==> ring@[j] == 0,
            decreases ring@.len() - i,
        {
            ring[i] = 0;
            i += 1;
        }
        assert(ring@ =~= Seq::new(old(ring)@.len(), |j: int| 0u32));
        self.write_ptr = 0;
    }
}

/// The ring and its place after `samples` were written, from silence on.
pub open spec fn ring_after(len: nat, samples: Seq<u32>) -> (Seq<u32>, int)
    decreases samples.len(),
{
    if samples.len() == 0 {
        (Seq::new(len, |i: int| 0u32), 0)
    } else {
        stored(ring_after(len, samples.drop_last()), samples.last())
    }
}

/// A sample is heard again after exactly the delay's time: the place `steps` behind the one that is
/// written next holds the sample that was written `steps` samples ago, or silence if none was.
pub proof fn delayed_sample_returns(len: nat, samples: Seq<u32>, steps: int)
    requires
        0 < steps <= len,
    ensures
        ({
            let (ring, at) = ring_after(len, samples);
            &&& ring.len() == len
            &&& 0 <= at < len
            &&& ring[behind(at, steps, len as int)] == if steps <= samples.len() {
                samples[samples.len() - steps]
            } else {
                0
            }
        }),
    decreases samples.len(),
{
    let n = len as int;
    let (ring, at) = ring_after(len, samples);
    if samples.len() == 0 {
        behind_is_a_place(0, steps, n);
    } else {
        let front = samples.drop_last();
        let (before, written) = ring_after(len, front);
        delayed_sample_returns(len, front, 1);
        next_is_a_place(written, n);
        if steps == 1 {
            assert(behind(at, 1, n) == written);
        } else {
            delayed_sample_returns(len, front, steps - 1);
            behind_of_next(written, steps, n);
            behind_is_a_place(written, steps - 1, n);
        }
    }
}

proof fn next_is_a_place(at: int, n: int)
    requires
        0 <= at < n,
    ensures
        0 <= (at + 1) % n < n,
        behind((at + 1) % n, 1, n) == at,
{
    if at + 1 == n {
        vstd::arithmetic::div_mod::lemma_mod_self_0(n);
        assert((-1int) % n == n - 1) by {
            vstd::arithmetic::div_mod::lemma_fundamental_div_mod_converse(-1, n, -1, n - 1);
        }
    } else {
        vstd::arithmetic::div_mod::lemma_small_mod((at + 1) as nat, n as nat);
        vstd::arithmetic::div_mod::lemma_small_mod(at as nat, n as nat);
    }
}

proof fn behind_is_a_place(at: int, steps: int, n: int)
    requires
        0 <= at < n,
        0 < steps <= n,
    ensures
        0 <= behind(at, steps, n) < n,
        steps < n ==> behind(at, steps, n) != at,
{
    if at >= steps {
        vstd::arithmetic::div_mod::lemma_small_mod((at - steps) as nat, n as nat);
    } else {
        vstd::arithmetic::div_mod::lemma_fundamental_div_mod_converse(
            at - steps,
            n,
            -1,
            at - steps + n,
        );
    }
}

proof fn behind_of_next(at: int, steps: int, n: int)
    requires
        0 <= at < n,
        1 < steps <= n,
    ensures
        behind((at + 1) % n, steps, n) == behind(at, steps - 1, n),
{
    if at + 1 == n {
        vstd::arithmetic::div_mod::lemma_mod_self_0(n);
        if steps == n {
            vstd::arithmetic::div_mod::lemma_fundamental_div_mod_converse(-n, n, -1, 0);
            vstd::arithmetic::div_mod::lemma_small_mod(0, n as nat);
        } else {
            vstd::arithmetic::div_mod::lemma_fundamental_div_mod_converse(
                -steps,
                n,
                -1,
                n - steps,
            );
            vstd::arithmetic::div_mod::lemma_small_mod((n - steps) as nat, n as nat);
        }
    } else {
        vstd::arithmetic::div_mod::lemma_small_mod((at + 1) as nat, n as nat);
    }
}

/// The place after one in the ring is the next, or the first after the last; the place one behind
/// it is the one it started from.
pub proof fn ring_goes_round(at: int, len: int)
    requires
        0 <= at < len,
    ensures
        at + 1 < len ==> ahead(at, len) == at + 1,
        at + 1 == len ==> ahead(at, len) == 0,
        behind(ahead(at, len), 1, len) == at,
{
    next_is_a_place(at, len);
    if at + 1 < len {
        vstd::arithmetic::div_mod::lemma_small_mod((at + 1) as nat, len as nat);
    } else {
        vstd::arithmetic::div_mod::lemma_mod_self_0(len);
    }
}

} // verus!
