//! The snapshot pipeline: materialize input, warm the unit up, execute
//! under the configured discipline, and hand back the captured data.
//!
//! Rendering the captured data into a chart or an audio artifact is a
//! separate step; this module owns everything up to the capture.

use vstd::prelude::*;

use crate::config::{Processing, SnapshotConfig};
use crate::engine::{
    batch_capture, capture_batch, capture_tick, frames_of, run_warmup, tick_capture, Capture,
};
use crate::error::SnapshotError;
use crate::input::InputSource;
use crate::unit::{state_after, outputs_after, BatchUnit, Unit, MAX_CHUNK};

verus! {

/// The data captured by one snapshot run: the materialized input and the
/// captured output with its abnormal markers.
#[derive(Debug)]
pub struct SnapshotData {
    /// The materialized input, channel-major.
    pub input_data: Vec<Vec<u32>>,
    /// The captured output and abnormal markers.
    pub capture: Capture,
}

/// The unit state after preparation: sample rate set, state reset,
/// buffers allocated.
pub open spec fn spec_prepared<U: Unit>(u: U, rate_hz: u32) -> U {
    u.spec_set_sample_rate(rate_hz).spec_reset()
}

/// The outcome of the configured capture discipline over a raw run.
pub open spec fn spec_capture_result(
    mode: Processing,
    raw: Seq<Seq<u32>>,
    width: nat,
    allow: bool,
) -> Result<(Seq<Seq<u32>>, Seq<Seq<(usize, crate::abnormal::AbnormalSample)>>), SnapshotError> {
    match mode {
        Processing::Tick => tick_capture(raw, width, allow),
        Processing::Batch(n) => batch_capture(raw, width, allow, n as int),
    }
}

/// Run one snapshot invocation up to the capture: prepare the unit,
/// materialize the input, tick through the warm-up pre-roll discarding
/// its output, then capture under the configured discipline.
///
/// The result is pinned exactly: the input shape errors, the warm-up
/// shape errors, an unusable batch chunk size, and the abnormal-sample
/// failure each surface if and only if their condition holds, in that
/// order.
pub fn run_snapshot<U: BatchUnit>(
    unit: &mut U,
    input_source: &InputSource,
    config: &SnapshotConfig,
) -> (r: Result<SnapshotData, SnapshotError>)
    requires
        config.warm_up.spec_count(config.sample_rate) <= usize::MAX,
    ensures
        ({
            let ni = old(unit).spec_inputs();
            let width = old(unit).spec_outputs();
            let u1 = spec_prepared(*old(unit), config.sample_rate);
            let count = config.warm_up.spec_count(config.sample_rate) as nat;
            let input_r = input_source.spec_make_data(ni, config.num_samples as nat);
            let warm_r = config.warm_up.spec_source().spec_make_data(ni, count);
            let wcount: nat = if ni == 0 {
                0
            } else {
                count
            };
            match r {
                Ok(d) => input_r is Ok && warm_r is Ok && config.processing_mode.spec_valid() && ({
                    let u2 = state_after(u1, frames_of(warm_r->Ok_0, wcount));
                    let raw = outputs_after(u2, frames_of(input_r->Ok_0, config.num_samples as nat));
                    &&& d.input_data.deep_view() == input_r->Ok_0
                    &&& spec_capture_result(config.processing_mode, raw, width, config.allow_abnormal_samples) is Ok
                    &&& d.capture.matches(raw, width)
                    &&& *final(unit) == state_after(u2, frames_of(input_r->Ok_0, config.num_samples as nat))
                }),
                Err(e) => if input_r is Err {
                    e == input_r->Err_0
                } else if warm_r is Err {
                    e == warm_r->Err_0
                } else if !config.processing_mode.spec_valid() {
                    e == (SnapshotError::BuildMismatch {
                        chunk_size: config.processing_mode->Batch_0 as usize,
                    })
                } else {
                    let u2 = state_after(u1, frames_of(warm_r->Ok_0, wcount));
                    let raw = outputs_after(u2, frames_of(input_r->Ok_0, config.num_samples as nat));
                    let cap = spec_capture_result(
                        config.processing_mode,
                        raw,
                        width,
                        config.allow_abnormal_samples,
                    );
                    cap is Err && e == cap->Err_0
                },
            }
        }),
{
    let ghost u0 = *unit;
    let num_inputs = unit.num_inputs();

    unit.set_sample_rate(config.sample_rate);
    unit.reset();
    unit.allocate();
    proof {
        u0.lemma_prepare_arity(config.sample_rate);
        u0.spec_set_sample_rate(config.sample_rate).lemma_prepare_arity(config.sample_rate);
    }

    let input_data = match input_source.make_data(num_inputs, config.num_samples) {
        Ok(d) => d,
        Err(e) => {
            return Err(e);
        },
    };
    proof {
        crate::input::lemma_materialized_shape(
            *input_source,
            num_inputs as nat,
            config.num_samples as nat,
        );
    }

    let warmup_data = match config.warm_up.warm_up_samples(config.sample_rate, num_inputs) {
        Ok(d) => d,
        Err(e) => {
            return Err(e);
        },
    };
    proof {
        crate::input::lemma_materialized_shape(
            config.warm_up.spec_source(),
            num_inputs as nat,
            config.warm_up.spec_count(config.sample_rate) as nat,
        );
    }

    let ghost u1 = spec_prepared(u0, config.sample_rate);
    let ghost count = config.warm_up.spec_count(config.sample_rate) as nat;
    let num_warmup: usize = if warmup_data.len() > 0 {
        proof {
            assert(warmup_data.deep_view()[0].len() == warmup_data@[0]@.len());
        }
        warmup_data[0].len()
    } else {
        0
    };
    proof {
        assert(num_warmup as nat == (if num_inputs == 0 {
            0nat
        } else {
            count
        }));
    }
    run_warmup(unit, &warmup_data, num_warmup);
    proof {
        crate::unit::lemma_run_arity(
            u1,
            frames_of(warmup_data.deep_view(), num_warmup as nat),
        );
    }

    let capture = match config.processing_mode {
        Processing::Tick => capture_tick(
            unit,
            &input_data,
            config.num_samples,
            config.allow_abnormal_samples,
        ),
        Processing::Batch(n) => {
            if n == 0 || n as usize > MAX_CHUNK {
                return Err(SnapshotError::BuildMismatch { chunk_size: n as usize });
            }
            capture_batch(
                unit,
                &input_data,
                config.num_samples,
                n as usize,
                config.allow_abnormal_samples,
            )
        },
    };
    match capture {
        Ok(c) => Ok(SnapshotData { input_data, capture: c }),
        Err(e) => Err(e),
    }
}

} // verus!
