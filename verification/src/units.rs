//! Library-provided units.
//!
//! `PassUnit` forwards each input frame unchanged; `SeqUnit` and
//! `MultiSeqUnit` have no inputs and play back fixed sample sequences,
//! then silence; `DelayUnit` outputs its previous input sample.  All
//! implement the full unit capability, including buffered processing.

use vstd::prelude::*;

use crate::abnormal::ZERO_BITS;
use crate::unit::{BatchUnit, Unit, outputs_after, state_after, MAX_CHUNK};

verus! {

/// A stateless unit that forwards each input frame unchanged.
pub struct PassUnit {
    /// Number of channels, both in and out.
    pub channels: usize,
}

impl PassUnit {
    /// Create a pass-through unit with the given channel count.
    pub fn new(channels: usize) -> (u: PassUnit)
        ensures
            u.channels == channels,
    {
        PassUnit { channels }
    }
}

impl Unit for PassUnit {
    open spec fn spec_inputs(&self) -> nat {
        self.channels as nat
    }

    open spec fn spec_outputs(&self) -> nat {
        self.channels as nat
    }

    open spec fn spec_tick_state(&self, input: Seq<u32>) -> Self {
        *self
    }

    open spec fn spec_tick_frame(&self, input: Seq<u32>) -> Seq<u32> {
        Seq::new(
            self.channels as nat,
            |ch: int| if 0 <= ch < input.len() { input[ch] } else { ZERO_BITS },
        )
    }

    open spec fn spec_reset(&self) -> Self {
        *self
    }

    open spec fn spec_set_sample_rate(&self, rate_hz: u32) -> Self {
        *self
    }

    proof fn lemma_tick_arity(&self, input: Seq<u32>) {
    }

    proof fn lemma_prepare_arity(&self, rate_hz: u32) {
    }

    fn num_inputs(&self) -> (n: usize) {
        self.channels
    }

    fn num_outputs(&self) -> (n: usize) {
        self.channels
    }

    fn set_sample_rate(&mut self, rate_hz: u32) {
    }

    fn reset(&mut self) {
    }

    fn allocate(&mut self) {
    }

    fn tick(&mut self, input: &Vec<u32>) -> (out: Vec<u32>) {
        let mut out: Vec<u32> = Vec::new();
        let mut ch: usize = 0;
        while ch < self.channels
            invariant
                ch <= self.channels,
                input@.len() == self.channels,
                out@ =~= self.spec_tick_frame(input@).take(ch as int),
            decreases self.channels - ch,
        {
            out.push(input[ch]);
            ch += 1;
        }
        assert(out@ =~= self.spec_tick_frame(input@));
        out
    }

}

impl BatchUnit for PassUnit {
    fn process(&mut self, frames: &Vec<Vec<u32>>) -> (out: Vec<Vec<u32>>) {
        process_by_tick(self, frames)
    }
}

/// A source unit with no inputs and one output, playing back a fixed sample
/// sequence and then silence.
pub struct SeqUnit {
    /// The samples to play back, as 32-bit float bit patterns.
    pub samples: Vec<u32>,
    /// Index of the next sample to play.
    pub pos: usize,
}

impl SeqUnit {
    /// Create a playback unit over the given sample sequence.
    pub fn new(samples: Vec<u32>) -> (u: SeqUnit)
        ensures
            u.samples == samples,
            u.pos == 0,
    {
        SeqUnit { samples, pos: 0 }
    }
}

impl Unit for SeqUnit {
    open spec fn spec_inputs(&self) -> nat {
        0
    }

    open spec fn spec_outputs(&self) -> nat {
        1
    }

    open spec fn spec_tick_state(&self, input: Seq<u32>) -> Self {
        SeqUnit {
            samples: self.samples,
            pos: if self.pos < self.samples@.len() {
                (self.pos + 1) as usize
            } else {
                self.pos
            },
        }
    }

    open spec fn spec_tick_frame(&self, input: Seq<u32>) -> Seq<u32> {
        seq![
            if self.pos < self.samples@.len() {
                self.samples@[self.pos as int]
            } else {
                ZERO_BITS
            },
        ]
    }

    open spec fn spec_reset(&self) -> Self {
        SeqUnit { samples: self.samples, pos: 0 }
    }

    open spec fn spec_set_sample_rate(&self, rate_hz: u32) -> Self {
        *self
    }

    proof fn lemma_tick_arity(&self, input: Seq<u32>) {
    }

    proof fn lemma_prepare_arity(&self, rate_hz: u32) {
    }

    fn num_inputs(&self) -> (n: usize) {
        0
    }

    fn num_outputs(&self) -> (n: usize) {
        1
    }

    fn set_sample_rate(&mut self, rate_hz: u32) {
    }

    fn reset(&mut self) {
        self.pos = 0;
    }

    fn allocate(&mut self) {
    }

    fn tick(&mut self, input: &Vec<u32>) -> (out: Vec<u32>) {
        let sample: u32 = if self.pos < self.samples.len() {
            let s = self.samples[self.pos];
            self.pos = self.pos + 1;
            s
        } else {
            ZERO_BITS
        };
        let mut out: Vec<u32> = Vec::new();
        out.push(sample);
        assert(out@ =~= old(self).spec_tick_frame(input@));
        out
    }

}

impl BatchUnit for SeqUnit {
    fn process(&mut self, frames: &Vec<Vec<u32>>) -> (out: Vec<Vec<u32>>) {
        process_by_tick(self, frames)
    }
}

/// Buffered processing realized by ticking each frame of the chunk in order;
/// usable by any unit implementation whose native entry point is `tick`.
pub fn process_by_tick<U: Unit>(unit: &mut U, frames: &Vec<Vec<u32>>) -> (out: Vec<Vec<u32>>)
    requires
        frames@.len() <= MAX_CHUNK,
        forall|j: int|
            0 <= j < frames@.len() ==> (#[trigger] frames@[j])@.len() == old(unit).spec_inputs(),
    ensures
        *final(unit) == state_after(*old(unit), frames.deep_view()),
        out.deep_view() == outputs_after(*old(unit), frames.deep_view()),
{
    let ghost u0 = *unit;
    let ghost dv = frames.deep_view();
    let mut out: Vec<Vec<u32>> = Vec::new();
    let n = frames.len();
    let mut j: usize = 0;
    while j < n
        invariant
            j <= n,
            n == frames@.len(),
            dv == frames.deep_view(),
            forall|k: int| 0 <= k < n ==> (#[trigger] frames@[k])@.len() == u0.spec_inputs(),
            *unit == state_after(u0, dv.take(j as int)),
            out.deep_view() =~= outputs_after(u0, dv.take(j as int)),
            unit.spec_inputs() == u0.spec_inputs(),
        decreases n - j,
    {
        let ghost pre_out = out.deep_view();
        proof {
            crate::unit::lemma_run_arity(u0, dv.take(j as int));
            assert(dv[j as int] == frames@[j as int]@);
            assert(dv.take(j as int).push(dv[j as int]) =~= dv.take(j + 1));
            crate::unit::lemma_run_snoc(u0, dv.take(j as int), dv[j as int]);
        }
        let frame = &frames[j];
        let produced = unit.tick(frame);
        out.push(produced);
        j += 1;
        proof {
            crate::unit::lemma_run_arity(u0, dv.take(j as int));
            assert(out.deep_view() =~~= pre_out.push(produced@));
        }
    }
    proof {
        assert(dv.take(n as int) =~= dv);
    }
    out
}

/// A source unit with no inputs and several outputs, playing back one
/// fixed sample sequence per channel and then silence.
pub struct MultiSeqUnit {
    /// One playback sequence per output channel.
    pub channels: Vec<Vec<u32>>,
    /// Index of the next sample to play.
    pub pos: usize,
}

impl MultiSeqUnit {
    /// Create a playback unit over the given per-channel sequences.
    pub fn new(channels: Vec<Vec<u32>>) -> (u: MultiSeqUnit)
        ensures
            u.channels == channels,
            u.pos == 0,
    {
        MultiSeqUnit { channels, pos: 0 }
    }
}

impl Unit for MultiSeqUnit {
    open spec fn spec_inputs(&self) -> nat {
        0
    }

    open spec fn spec_outputs(&self) -> nat {
        self.channels@.len()
    }

    open spec fn spec_tick_state(&self, input: Seq<u32>) -> Self {
        MultiSeqUnit {
            channels: self.channels,
            pos: if self.pos < usize::MAX {
                (self.pos + 1) as usize
            } else {
                self.pos
            },
        }
    }

    open spec fn spec_tick_frame(&self, input: Seq<u32>) -> Seq<u32> {
        Seq::new(
            self.channels@.len(),
            |ch: int|
                if self.pos < self.channels@[ch]@.len() {
                    self.channels@[ch]@[self.pos as int]
                } else {
                    ZERO_BITS
                },
        )
    }

    open spec fn spec_reset(&self) -> Self {
        MultiSeqUnit { channels: self.channels, pos: 0 }
    }

    open spec fn spec_set_sample_rate(&self, rate_hz: u32) -> Self {
        *self
    }

    proof fn lemma_tick_arity(&self, input: Seq<u32>) {
    }

    proof fn lemma_prepare_arity(&self, rate_hz: u32) {
    }

    fn num_inputs(&self) -> (n: usize) {
        0
    }

    fn num_outputs(&self) -> (n: usize) {
        self.channels.len()
    }

    fn set_sample_rate(&mut self, rate_hz: u32) {
    }

    fn reset(&mut self) {
        self.pos = 0;
    }

    fn allocate(&mut self) {
    }

    fn tick(&mut self, input: &Vec<u32>) -> (out: Vec<u32>) {
        let mut out: Vec<u32> = Vec::new();
        let mut ch: usize = 0;
        while ch < self.channels.len()
            invariant
                ch <= self.channels@.len(),
                out@ =~= old(self).spec_tick_frame(input@).take(ch as int),
                *self == *old(self),
            decreases self.channels@.len() - ch,
        {
            let sample: u32 = if self.pos < self.channels[ch].len() {
                self.channels[ch][self.pos]
            } else {
                ZERO_BITS
            };
            out.push(sample);
            ch += 1;
        }
        if self.pos < usize::MAX {
            self.pos = self.pos + 1;
        }
        proof {
            assert(out@ =~= old(self).spec_tick_frame(input@));
        }
        out
    }
}

impl BatchUnit for MultiSeqUnit {
    fn process(&mut self, frames: &Vec<Vec<u32>>) -> (out: Vec<Vec<u32>>) {
        process_by_tick(self, frames)
    }
}

/// A one-channel unit whose output is its previous input sample: the
/// simplest stateful unit, useful for observing warm-up effects.
pub struct DelayUnit {
    /// The sample held from the previous tick.
    pub held: u32,
}

impl DelayUnit {
    /// Create a delaying unit holding silence.
    pub fn new() -> (u: DelayUnit)
        ensures
            u.held == ZERO_BITS,
    {
        DelayUnit { held: ZERO_BITS }
    }
}

impl Unit for DelayUnit {
    open spec fn spec_inputs(&self) -> nat {
        1
    }

    open spec fn spec_outputs(&self) -> nat {
        1
    }

    open spec fn spec_tick_state(&self, input: Seq<u32>) -> Self {
        DelayUnit {
            held: if input.len() > 0 {
                input[0]
            } else {
                ZERO_BITS
            },
        }
    }

    open spec fn spec_tick_frame(&self, input: Seq<u32>) -> Seq<u32> {
        seq![self.held]
    }

    open spec fn spec_reset(&self) -> Self {
        DelayUnit { held: ZERO_BITS }
    }

    open spec fn spec_set_sample_rate(&self, rate_hz: u32) -> Self {
        *self
    }

    proof fn lemma_tick_arity(&self, input: Seq<u32>) {
    }

    proof fn lemma_prepare_arity(&self, rate_hz: u32) {
    }

    fn num_inputs(&self) -> (n: usize) {
        1
    }

    fn num_outputs(&self) -> (n: usize) {
        1
    }

    fn set_sample_rate(&mut self, rate_hz: u32) {
    }

    fn reset(&mut self) {
        self.held = ZERO_BITS;
    }

    fn allocate(&mut self) {
    }

    fn tick(&mut self, input: &Vec<u32>) -> (out: Vec<u32>) {
        let mut out: Vec<u32> = Vec::new();
        out.push(self.held);
        self.held = if input.len() > 0 {
            input[0]
        } else {
            ZERO_BITS
        };
        proof {
            assert(out@ =~= old(self).spec_tick_frame(input@));
        }
        out
    }
}

impl BatchUnit for DelayUnit {
    fn process(&mut self, frames: &Vec<Vec<u32>>) -> (out: Vec<Vec<u32>>) {
        process_by_tick(self, frames)
    }
}

} // verus!
