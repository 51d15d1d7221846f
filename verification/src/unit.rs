//! The unit capability: an opaque signal-processing entity that turns input
//! sample frames into output sample frames, one frame per step.
//!
//! The trait carries a mathematical model of the unit: an abstract state
//! transition (`spec_tick_state`) and an output function (`spec_tick_frame`)
//! per consumed frame.  The buffered entry point `process` is specified as
//! equivalent to ticking each frame of the chunk in order; an implementation
//! must honor that equivalence, which is the central property the execution
//! engine relies on.

use vstd::prelude::*;

verus! {

/// Largest number of frames a unit is asked to process in one buffered call.
pub const MAX_CHUNK: usize = 64;

/// A signal-processing unit with a fixed number of input and output
/// channels.  Samples are carried as 32-bit float bit patterns.
pub trait Unit: Sized {
    /// Number of input channels, fixed for the unit's lifetime.
    spec fn spec_inputs(&self) -> nat;

    /// Number of output channels, fixed for the unit's lifetime.
    spec fn spec_outputs(&self) -> nat;

    /// The state after consuming one input frame.
    spec fn spec_tick_state(&self, input: Seq<u32>) -> Self;

    /// The output frame produced on consuming one input frame.
    spec fn spec_tick_frame(&self, input: Seq<u32>) -> Seq<u32>;

    /// The state after a reset.
    spec fn spec_reset(&self) -> Self;

    /// The state after the sample rate is set to `rate_hz`.
    spec fn spec_set_sample_rate(&self, rate_hz: u32) -> Self;

    /// Ticking preserves the channel counts and produces a full frame.
    proof fn lemma_tick_arity(&self, input: Seq<u32>)
        ensures
            self.spec_tick_state(input).spec_inputs() == self.spec_inputs(),
            self.spec_tick_state(input).spec_outputs() == self.spec_outputs(),
            self.spec_tick_frame(input).len() == self.spec_outputs(),
    ;

    /// Resetting and setting the sample rate preserve the channel counts.
    proof fn lemma_prepare_arity(&self, rate_hz: u32)
        ensures
            self.spec_reset().spec_inputs() == self.spec_inputs(),
            self.spec_reset().spec_outputs() == self.spec_outputs(),
            self.spec_set_sample_rate(rate_hz).spec_inputs() == self.spec_inputs(),
            self.spec_set_sample_rate(rate_hz).spec_outputs() == self.spec_outputs(),
    ;

    fn num_inputs(&self) -> (n: usize)
        ensures
            n as nat == self.spec_inputs(),
    ;

    fn num_outputs(&self) -> (n: usize)
        ensures
            n as nat == self.spec_outputs(),
    ;

    fn set_sample_rate(&mut self, rate_hz: u32)
        ensures
            *final(self) == old(self).spec_set_sample_rate(rate_hz),
    ;

    fn reset(&mut self)
        ensures
            *final(self) == old(self).spec_reset(),
    ;

    /// Preallocate internal buffers; the modeled state is unchanged.
    fn allocate(&mut self)
        ensures
            *final(self) == *old(self),
    ;

    /// Consume one input frame and produce one output frame.
    fn tick(&mut self, input: &Vec<u32>) -> (out: Vec<u32>)
        requires
            input@.len() == old(self).spec_inputs(),
        ensures
            *final(self) == old(self).spec_tick_state(input@),
            out@ == old(self).spec_tick_frame(input@),
    ;

}

/// The state of `u` after consuming the given frames in order.
pub open spec fn state_after<U: Unit>(u: U, frames: Seq<Seq<u32>>) -> U
    decreases frames.len(),
{
    if frames.len() == 0 {
        u
    } else {
        state_after(u.spec_tick_state(frames[0]), frames.skip(1))
    }
}

/// The output frames produced by `u` on consuming the given frames in order.
pub open spec fn outputs_after<U: Unit>(u: U, frames: Seq<Seq<u32>>) -> Seq<Seq<u32>>
    decreases frames.len(),
{
    if frames.len() == 0 {
        Seq::empty()
    } else {
        seq![u.spec_tick_frame(frames[0])] + outputs_after(
            u.spec_tick_state(frames[0]),
            frames.skip(1),
        )
    }
}

/// The buffered half of the unit capability: a unit that can also consume a
/// bounded chunk of frames in one call, numerically equivalent to ticking
/// each frame of the chunk in order.
pub trait BatchUnit: Unit {
    /// Consume a chunk of input frames (outer index is time) and produce the
    /// corresponding chunk of output frames.
    fn process(&mut self, frames: &Vec<Vec<u32>>) -> (out: Vec<Vec<u32>>)
        requires
            frames@.len() <= MAX_CHUNK,
            forall|j: int|
                0 <= j < frames@.len() ==> (#[trigger] frames@[j])@.len() == old(
                    self,
                ).spec_inputs(),
        ensures
            *final(self) == state_after(*old(self), frames.deep_view()),
            out.deep_view() == outputs_after(*old(self), frames.deep_view()),
    ;
}

/// Consuming `frames.push(f)` is consuming `frames`, then `f`.
pub proof fn lemma_run_snoc<U: Unit>(u: U, frames: Seq<Seq<u32>>, f: Seq<u32>)
    ensures
        state_after(u, frames.push(f)) == state_after(u, frames).spec_tick_state(f),
        outputs_after(u, frames.push(f)) == outputs_after(u, frames).push(
            state_after(u, frames).spec_tick_frame(f),
        ),
    decreases frames.len(),
{
    if frames.len() == 0 {
        assert(frames =~= Seq::<Seq<u32>>::empty());
        assert(frames.push(f)[0] == f);
        assert(frames.push(f).skip(1) =~= Seq::<Seq<u32>>::empty());
        assert(outputs_after(u.spec_tick_state(f), Seq::<Seq<u32>>::empty())
            == Seq::<Seq<u32>>::empty());
        assert(state_after(u.spec_tick_state(f), Seq::<Seq<u32>>::empty()) == u.spec_tick_state(
            f,
        ));
        assert(outputs_after(u, frames.push(f)) =~= seq![u.spec_tick_frame(f)]);
        assert(outputs_after(u, frames.push(f)) =~= outputs_after(u, frames).push(
            state_after(u, frames).spec_tick_frame(f),
        ));
    } else {
        assert(frames.push(f)[0] == frames[0]);
        assert(frames.push(f).skip(1) =~= frames.skip(1).push(f));
        lemma_run_snoc(u.spec_tick_state(frames[0]), frames.skip(1), f);
        assert(outputs_after(u, frames.push(f)) =~= outputs_after(u, frames).push(
            state_after(u, frames).spec_tick_frame(f),
        ));
    }
}

/// Consuming `a + b` is consuming `a`, then `b`.
pub proof fn lemma_run_append<U: Unit>(u: U, a: Seq<Seq<u32>>, b: Seq<Seq<u32>>)
    ensures
        state_after(u, a + b) == state_after(state_after(u, a), b),
        outputs_after(u, a + b) == outputs_after(u, a) + outputs_after(state_after(u, a), b),
    decreases a.len(),
{
    if a.len() == 0 {
        assert(a + b =~= b);
        assert(outputs_after(u, a) + outputs_after(state_after(u, a), b) =~= outputs_after(u, b));
    } else {
        assert((a + b).skip(1) =~= a.skip(1) + b);
        lemma_run_append(u.spec_tick_state(a[0]), a.skip(1), b);
        assert(outputs_after(u, a + b) =~= outputs_after(u, a) + outputs_after(
            state_after(u, a),
            b,
        ));
    }
}

/// A run preserves the channel counts, and every produced frame is full.
pub proof fn lemma_run_arity<U: Unit>(u: U, frames: Seq<Seq<u32>>)
    ensures
        state_after(u, frames).spec_inputs() == u.spec_inputs(),
        state_after(u, frames).spec_outputs() == u.spec_outputs(),
        outputs_after(u, frames).len() == frames.len(),
        forall|j: int|
            0 <= j < frames.len() ==> (#[trigger] outputs_after(u, frames)[j]).len()
                == u.spec_outputs(),
    decreases frames.len(),
{
    if frames.len() > 0 {
        u.lemma_tick_arity(frames[0]);
        lemma_run_arity(u.spec_tick_state(frames[0]), frames.skip(1));
    }
}

} // verus!
