//! Warm-up planning: a discarded pre-roll execution phase that brings a
//! unit to a steady internal state before measurement.
//!
//! A policy is turned into a sample count and an input matrix; the engine
//! ticks the unit through that matrix and discards every output.

use vstd::prelude::*;

use crate::error::SnapshotError;
use crate::input::InputSource;

verus! {

/// Warm-up policy for a snapshot run.
#[derive(Clone, Debug, Default)]
pub enum WarmUp {
    /// No warm-up.
    #[default]
    Off,
    /// Warm up with a specific number of samples of silence.
    Samples(usize),
    /// Warm up for a specific duration of silence.  The duration is given
    /// in microseconds so that the sample count stays exact.
    Seconds { micros: u64 },
    /// Warm up with a specific number of samples from the given source.
    SamplesWithInput { samples: usize, input: InputSource },
}

impl WarmUp {
    /// Number of pre-roll samples implied by this policy at the given
    /// sample rate; a duration is rounded to the nearest sample.
    pub open spec fn spec_count(self, rate_hz: u32) -> int {
        match self {
            WarmUp::Off => 0,
            WarmUp::Samples(n) => n as int,
            WarmUp::Seconds { micros } => (micros * rate_hz + 500_000) / 1_000_000,
            WarmUp::SamplesWithInput { samples, input } => samples as int,
        }
    }

    /// The input source the pre-roll draws from: the configured source when
    /// one is given, silence otherwise.
    pub open spec fn spec_source(self) -> InputSource {
        match self {
            WarmUp::SamplesWithInput { samples, input } => input,
            _ => InputSource::Silence,
        }
    }

    /// Materialize the pre-roll input: `num_inputs` channels, one sample
    /// per channel per pre-roll step.
    pub fn warm_up_samples(&self, rate_hz: u32, num_inputs: usize) -> (r: Result<
        Vec<Vec<u32>>,
        SnapshotError,
    >)
        requires
            self.spec_count(rate_hz) <= usize::MAX,
        ensures
            match r {
                Ok(data) => self.spec_source().spec_make_data(
                    num_inputs as nat,
                    self.spec_count(rate_hz) as nat,
                ) is Ok && data.deep_view() == self.spec_source().spec_make_data(
                    num_inputs as nat,
                    self.spec_count(rate_hz) as nat,
                )->Ok_0,
                Err(e) => self.spec_source().spec_make_data(
                    num_inputs as nat,
                    self.spec_count(rate_hz) as nat,
                ) is Err && e == self.spec_source().spec_make_data(
                    num_inputs as nat,
                    self.spec_count(rate_hz) as nat,
                )->Err_0,
            },
    {
        match self {
            WarmUp::Off => InputSource::Silence.make_data(num_inputs, 0),
            WarmUp::Samples(n) => InputSource::Silence.make_data(num_inputs, *n),
            WarmUp::Seconds { micros } => {
                let total: u128 = (*micros as u128) * (rate_hz as u128) + 500_000;
                let count: u128 = total / 1_000_000;
                InputSource::Silence.make_data(num_inputs, count as usize)
            },
            WarmUp::SamplesWithInput { samples, input } => input.make_data(num_inputs, *samples),
        }
    }
}

} // verus!
