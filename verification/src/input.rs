//! Input materialization: turning a declarative input description into
//! concrete per-channel sample buffers of a fixed length.
//!
//! Data-shaped sources live in [`InputSource`] and are materialized by
//! [`InputSource::make_data`].  A pure generator function is materialized by
//! [`make_data_from_generator`], and another (input-less) unit by
//! [`make_data_from_unit`].

use vstd::prelude::*;

use crate::abnormal::ZERO_BITS;
use crate::error::SnapshotError;
use crate::unit::{outputs_after, state_after, Unit};

verus! {

/// Bit pattern of the 32-bit float value 1.0.
pub const ONE_BITS: u32 = 0x3F80_0000;

/// Declarative description of the input driven through a unit.  Samples are
/// 32-bit float bit patterns.
#[derive(Clone, Debug, Default)]
pub enum InputSource {
    /// No input: every sample of every channel is zero.
    #[default]
    Silence,
    /// Exact per-channel data: the outer index is the channel, the inner
    /// index the sample.
    VecByChannel(Vec<Vec<u32>>),
    /// Exact per-tick data: the outer index is the sample (tick), the inner
    /// index the channel.
    VecByTick(Vec<Vec<u32>>),
    /// One value per channel, held constant across all samples.
    Flat(Vec<u32>),
}

/// A silence matrix: `num_inputs` channels of `num_samples` zeros.
pub open spec fn silence_data(num_inputs: nat, num_samples: nat) -> Seq<Seq<u32>> {
    Seq::new(num_inputs, |ch: int| Seq::new(num_samples, |i: int| ZERO_BITS))
}

/// Channel-major view of tick-major data.
pub open spec fn transpose_data(d: Seq<Seq<u32>>, num_inputs: nat) -> Seq<Seq<u32>> {
    Seq::new(num_inputs, |ch: int| Seq::new(d.len(), |i: int| d[i][ch]))
}

/// Each channel's value broadcast across all samples.
pub open spec fn flat_data(vals: Seq<u32>, num_samples: nat) -> Seq<Seq<u32>> {
    Seq::new(vals.len(), |ch: int| Seq::new(num_samples, |i: int| vals[ch]))
}

/// The least index at or after `from` whose row length differs from `want`.
pub open spec fn first_wrong_len(d: Seq<Seq<u32>>, want: nat, from: int) -> Option<int>
    decreases d.len() - from,
{
    if from < 0 || from >= d.len() {
        None
    } else if d[from].len() != want {
        Some(from)
    } else {
        first_wrong_len(d, want, from + 1)
    }
}

impl InputSource {
    /// The outcome of materializing this source for `num_inputs` channels
    /// and `num_samples` samples: the channel-major sample matrix, or the
    /// shape error that rejects the data.
    pub open spec fn spec_make_data(self, num_inputs: nat, num_samples: nat) -> Result<
        Seq<Seq<u32>>,
        SnapshotError,
    > {
        match self {
            InputSource::Silence => Ok(silence_data(num_inputs, num_samples)),
            InputSource::VecByChannel(d) => if d.deep_view().len() != num_inputs {
                Err(
                    SnapshotError::ShapeMismatch {
                        expected: num_inputs as usize,
                        actual: d.deep_view().len() as usize,
                    },
                )
            } else {
                match first_wrong_len(d.deep_view(), num_samples, 0) {
                    Some(k) => Err(
                        SnapshotError::ShapeMismatch {
                            expected: num_samples as usize,
                            actual: d.deep_view()[k].len() as usize,
                        },
                    ),
                    None => Ok(d.deep_view()),
                }
            },
            InputSource::VecByTick(d) => match first_wrong_len(d.deep_view(), num_inputs, 0) {
                Some(k) => Err(
                    SnapshotError::ShapeMismatch {
                        expected: num_inputs as usize,
                        actual: d.deep_view()[k].len() as usize,
                    },
                ),
                None => if d.deep_view().len() != num_samples {
                    Err(
                        SnapshotError::ShapeMismatch {
                            expected: num_samples as usize,
                            actual: d.deep_view().len() as usize,
                        },
                    )
                } else {
                    Ok(transpose_data(d.deep_view(), num_inputs))
                },
            },
            InputSource::Flat(vals) => if vals@.len() != num_inputs {
                Err(
                    SnapshotError::ShapeMismatch {
                        expected: num_inputs as usize,
                        actual: vals@.len() as usize,
                    },
                )
            } else {
                Ok(flat_data(vals@, num_samples))
            },
        }
    }

    /// Materialize this source into `num_inputs` channels of `num_samples`
    /// samples each, validating the data's shape.
    pub fn make_data(&self, num_inputs: usize, num_samples: usize) -> (r: Result<
        Vec<Vec<u32>>,
        SnapshotError,
    >)
        ensures
            match r {
                Ok(data) => self.spec_make_data(num_inputs as nat, num_samples as nat) is Ok
                    && data.deep_view() == self.spec_make_data(
                    num_inputs as nat,
                    num_samples as nat,
                )->Ok_0,
                Err(e) => self.spec_make_data(num_inputs as nat, num_samples as nat) is Err && e
                    == self.spec_make_data(num_inputs as nat, num_samples as nat)->Err_0,
            },
    {
        match self {
            InputSource::Silence => Ok(zero_matrix(num_inputs, num_samples)),
            InputSource::VecByChannel(d) => {
                if d.len() != num_inputs {
                    return Err(
                        SnapshotError::ShapeMismatch { expected: num_inputs, actual: d.len() },
                    );
                }
                if let Some(k) = find_wrong_len(d, num_samples) {
                    return Err(
                        SnapshotError::ShapeMismatch {
                            expected: num_samples,
                            actual: d[k].len(),
                        },
                    );
                }
                let copy = clone_matrix(d);
                Ok(copy)
            },
            InputSource::VecByTick(d) => {
                if let Some(k) = find_wrong_len(d, num_inputs) {
                    return Err(
                        SnapshotError::ShapeMismatch { expected: num_inputs, actual: d[k].len() },
                    );
                }
                if d.len() != num_samples {
                    return Err(
                        SnapshotError::ShapeMismatch { expected: num_samples, actual: d.len() },
                    );
                }
                proof {
                    lemma_first_wrong_len_none_all(d.deep_view(), num_inputs as nat, 0);
                }
                Ok(transpose_matrix(d, num_inputs))
            },
            InputSource::Flat(vals) => {
                if vals.len() != num_inputs {
                    return Err(
                        SnapshotError::ShapeMismatch { expected: num_inputs, actual: vals.len() },
                    );
                }
                Ok(broadcast_matrix(vals, num_samples))
            },
        }
    }
}

/// A channel-major matrix of zeros.
pub fn zero_matrix(channels: usize, samples: usize) -> (r: Vec<Vec<u32>>)
    ensures
        r.deep_view() == silence_data(channels as nat, samples as nat),
{
    let mut data: Vec<Vec<u32>> = Vec::new();
    let mut ch: usize = 0;
    while ch < channels
        invariant
            ch <= channels,
            data.deep_view() =~~= silence_data(channels as nat, samples as nat).take(ch as int),
        decreases channels - ch,
    {
        let ghost pre = data.deep_view();
        let mut row: Vec<u32> = Vec::new();
        let mut i: usize = 0;
        while i < samples
            invariant
                i <= samples,
                row@ =~= Seq::new(i as nat, |k: int| ZERO_BITS),
            decreases samples - i,
        {
            row.push(ZERO_BITS);
            i += 1;
        }
        let ghost pre = data.deep_view();
        let ghost rv = row@;
        data.push(row);
        ch += 1;
        proof {
            assert(data.deep_view() =~~= pre.push(rv));
            assert(data.deep_view() =~~= silence_data(channels as nat, samples as nat).take(
                ch as int,
            ));
        }
    }
    proof {
        assert(data.deep_view() =~~= silence_data(channels as nat, samples as nat));
    }
    data
}

/// The least channel index whose row length differs from `want`.
fn find_wrong_len(d: &Vec<Vec<u32>>, want: usize) -> (r: Option<usize>)
    ensures
        match r {
            Some(k) => first_wrong_len(d.deep_view(), want as nat, 0) == Some(k as int) && k
                < d@.len() && d.deep_view()[k as int].len() != want,
            None => first_wrong_len(d.deep_view(), want as nat, 0) is None,
        },
{
    let mut k: usize = 0;
    while k < d.len()
        invariant
            k <= d@.len(),
            forall|j: int| 0 <= j < k ==> (#[trigger] d.deep_view()[j]).len() == want,
        decreases d@.len() - k,
    {
        if d[k].len() != want {
            proof {
                lemma_first_wrong_len_hit(d.deep_view(), want as nat, k as int);
            }
            return Some(k);
        }
        k += 1;
    }
    proof {
        lemma_first_wrong_len_miss(d.deep_view(), want as nat, d.deep_view().len() as int);
    }
    None
}

/// If all rows before `k` have length `want` and row `k` does not, the scan
/// stops at `k`.
proof fn lemma_first_wrong_len_hit(d: Seq<Seq<u32>>, want: nat, k: int)
    requires
        0 <= k < d.len(),
        forall|j: int| 0 <= j < k ==> (#[trigger] d[j]).len() == want,
        d[k].len() != want,
    ensures
        first_wrong_len(d, want, 0) == Some(k),
{
    lemma_first_wrong_len_from(d, want, 0, k);
}

proof fn lemma_first_wrong_len_from(d: Seq<Seq<u32>>, want: nat, from: int, k: int)
    requires
        0 <= from <= k < d.len(),
        forall|j: int| from <= j < k ==> (#[trigger] d[j]).len() == want,
        d[k].len() != want,
    ensures
        first_wrong_len(d, want, from) == Some(k),
    decreases k - from,
{
    if from < k {
        lemma_first_wrong_len_from(d, want, from + 1, k);
    }
}

/// If all rows up to `upto` have length `want`, the scan finds nothing.
proof fn lemma_first_wrong_len_miss(d: Seq<Seq<u32>>, want: nat, upto: int)
    requires
        upto == d.len(),
        forall|j: int| 0 <= j < upto ==> (#[trigger] d[j]).len() == want,
    ensures
        first_wrong_len(d, want, 0) is None,
{
    lemma_first_wrong_len_miss_from(d, want, 0);
}

proof fn lemma_first_wrong_len_miss_from(d: Seq<Seq<u32>>, want: nat, from: int)
    requires
        0 <= from,
        forall|j: int| from <= j < d.len() ==> (#[trigger] d[j]).len() == want,
    ensures
        first_wrong_len(d, want, from) is None,
    decreases d.len() - from,
{
    if from < d.len() {
        lemma_first_wrong_len_miss_from(d, want, from + 1);
    }
}

/// If the scan finds nothing, every row has length `want`.
proof fn lemma_first_wrong_len_none_all(d: Seq<Seq<u32>>, want: nat, from: int)
    requires
        0 <= from,
        first_wrong_len(d, want, from) is None,
    ensures
        forall|j: int| from <= j < d.len() ==> (#[trigger] d[j]).len() == want,
    decreases d.len() - from,
{
    if from < d.len() {
        lemma_first_wrong_len_none_all(d, want, from + 1);
    }
}

/// An element-for-element copy of a channel-major matrix.
fn clone_matrix(d: &Vec<Vec<u32>>) -> (r: Vec<Vec<u32>>)
    ensures
        r.deep_view() == d.deep_view(),
{
    let mut data: Vec<Vec<u32>> = Vec::new();
    let mut ch: usize = 0;
    while ch < d.len()
        invariant
            ch <= d@.len(),
            data.deep_view() =~~= d.deep_view().take(ch as int),
        decreases d@.len() - ch,
    {
        let mut row: Vec<u32> = Vec::new();
        let mut i: usize = 0;
        while i < d[ch].len()
            invariant
                ch < d@.len(),
                i <= d@[ch as int]@.len(),
                row@ =~= d.deep_view()[ch as int].take(i as int),
            decreases d@[ch as int]@.len() - i,
        {
            row.push(d[ch][i]);
            i += 1;
        }
        let ghost pre = data.deep_view();
        let ghost rv = row@;
        data.push(row);
        ch += 1;
        proof {
            assert(data.deep_view() =~~= pre.push(rv));
            assert(data.deep_view() =~~= d.deep_view().take(ch as int));
        }
    }
    proof {
        assert(data.deep_view() =~~= d.deep_view());
    }
    data
}

/// Transpose tick-major data (every row of length `num_inputs`) into
/// channel-major form.
fn transpose_matrix(d: &Vec<Vec<u32>>, num_inputs: usize) -> (r: Vec<Vec<u32>>)
    requires
        forall|j: int| 0 <= j < d@.len() ==> (#[trigger] d.deep_view()[j]).len() == num_inputs,
    ensures
        r.deep_view() == transpose_data(d.deep_view(), num_inputs as nat),
{
    let n = d.len();
    let mut data: Vec<Vec<u32>> = Vec::new();
    let mut ch: usize = 0;
    while ch < num_inputs
        invariant
            ch <= num_inputs,
            n == d@.len(),
            forall|j: int| 0 <= j < d@.len() ==> (#[trigger] d.deep_view()[j]).len() == num_inputs,
            data.deep_view() =~~= transpose_data(d.deep_view(), num_inputs as nat).take(ch as int),
        decreases num_inputs - ch,
    {
        let mut row: Vec<u32> = Vec::new();
        let mut i: usize = 0;
        while i < n
            invariant
                ch < num_inputs,
                i <= n,
                n == d@.len(),
                forall|j: int|
                    0 <= j < d@.len() ==> (#[trigger] d.deep_view()[j]).len() == num_inputs,
                row@ =~= Seq::new(i as nat, |k: int| d.deep_view()[k][ch as int]),
            decreases n - i,
        {
            proof {
                assert(d.deep_view()[i as int].len() == d@[i as int]@.len());
            }
            row.push(d[i][ch]);
            i += 1;
        }
        let ghost pre = data.deep_view();
        let ghost rv = row@;
        data.push(row);
        ch += 1;
        proof {
            assert(data.deep_view() =~~= pre.push(rv));
            assert(data.deep_view() =~~= transpose_data(d.deep_view(), num_inputs as nat).take(
                ch as int,
            ));
        }
    }
    proof {
        assert(data.deep_view() =~~= transpose_data(d.deep_view(), num_inputs as nat));
    }
    data
}

/// Broadcast each channel's value across `num_samples` samples.
fn broadcast_matrix(vals: &Vec<u32>, num_samples: usize) -> (r: Vec<Vec<u32>>)
    ensures
        r.deep_view() == flat_data(vals@, num_samples as nat),
{
    let mut data: Vec<Vec<u32>> = Vec::new();
    let mut ch: usize = 0;
    while ch < vals.len()
        invariant
            ch <= vals@.len(),
            data.deep_view() =~~= flat_data(vals@, num_samples as nat).take(ch as int),
        decreases vals@.len() - ch,
    {
        let mut row: Vec<u32> = Vec::new();
        let mut i: usize = 0;
        while i < num_samples
            invariant
                ch < vals@.len(),
                i <= num_samples,
                row@ =~= Seq::new(i as nat, |k: int| vals@[ch as int]),
            decreases num_samples - i,
        {
            row.push(vals[ch]);
            i += 1;
        }
        let ghost pre = data.deep_view();
        let ghost rv = row@;
        data.push(row);
        ch += 1;
        proof {
            assert(data.deep_view() =~~= pre.push(rv));
            assert(data.deep_view() =~~= flat_data(vals@, num_samples as nat).take(ch as int));
        }
    }
    proof {
        assert(data.deep_view() =~~= flat_data(vals@, num_samples as nat));
    }
    data
}

/// A pure generator of sample values: a function of the sample index and
/// the channel index alone.
pub trait SampleGenerator {
    /// The value generated for the given sample and channel index.  The
    /// provided model is silence; a verified implementation overrides it.
    open spec fn spec_sample(&self, sample: nat, channel: nat) -> u32 {
        ZERO_BITS
    }

    /// Generate the value for the given sample and channel index.
    fn sample(&self, sample: usize, channel: usize) -> (b: u32)
        ensures
            b == self.spec_sample(sample as nat, channel as nat),
    ;
}

/// A unit impulse: 1.0 at sample index zero on every channel, 0.0 after.
pub struct ImpulseGenerator;

impl SampleGenerator for ImpulseGenerator {
    open spec fn spec_sample(&self, sample: nat, channel: nat) -> u32 {
        if sample == 0 {
            ONE_BITS
        } else {
            ZERO_BITS
        }
    }

    fn sample(&self, sample: usize, channel: usize) -> (b: u32) {
        if sample == 0 {
            ONE_BITS
        } else {
            ZERO_BITS
        }
    }
}

/// The matrix generated by `g`: channel-major, `num_inputs` channels of
/// `num_samples` samples each.
pub open spec fn generator_data<G: SampleGenerator>(
    g: G,
    num_inputs: nat,
    num_samples: nat,
) -> Seq<Seq<u32>> {
    Seq::new(
        num_inputs,
        |ch: int| Seq::new(num_samples, |i: int| g.spec_sample(i as nat, ch as nat)),
    )
}

/// Materialize a generator: the value at `(ch, i)` is the generator applied
/// to sample index `i` and channel index `ch`.
pub fn make_data_from_generator<G: SampleGenerator>(
    g: &G,
    num_inputs: usize,
    num_samples: usize,
) -> (r: Vec<Vec<u32>>)
    ensures
        r.deep_view() == generator_data(*g, num_inputs as nat, num_samples as nat),
{
    let ghost target = generator_data(*g, num_inputs as nat, num_samples as nat);
    let mut data: Vec<Vec<u32>> = Vec::new();
    let mut ch: usize = 0;
    while ch < num_inputs
        invariant
            ch <= num_inputs,
            target == generator_data(*g, num_inputs as nat, num_samples as nat),
            data.deep_view() =~~= target.take(ch as int),
        decreases num_inputs - ch,
    {
        let mut row: Vec<u32> = Vec::new();
        let mut i: usize = 0;
        while i < num_samples
            invariant
                ch < num_inputs,
                i <= num_samples,
                row@ =~= Seq::new(i as nat, |k: int| g.spec_sample(k as nat, ch as nat)),
            decreases num_samples - i,
        {
            row.push(g.sample(i, ch));
            i += 1;
        }
        let ghost pre = data.deep_view();
        let ghost rv = row@;
        data.push(row);
        ch += 1;
        proof {
            assert(data.deep_view() =~~= pre.push(rv));
            assert(data.deep_view() =~~= target.take(ch as int));
        }
    }
    proof {
        assert(data.deep_view() =~~= target);
    }
    data
}

/// A sequence of `n` empty input frames, as consumed by a unit that
/// declares zero inputs.
pub open spec fn empty_frames(n: nat) -> Seq<Seq<u32>> {
    Seq::new(n, |i: int| Seq::<u32>::empty())
}

/// Tick-major reference frames mapped onto `num_inputs` channel-major
/// target channels: the first `min(num_inputs, douts)` channels are
/// copied and any remaining target channels stay silent.
pub open spec fn driver_map(raw: Seq<Seq<u32>>, num_inputs: nat, douts: nat) -> Seq<Seq<u32>> {
    Seq::new(
        num_inputs,
        |ch: int|
            Seq::new(
                raw.len(),
                |i: int|
                    if ch < douts {
                        raw[i][ch]
                    } else {
                        ZERO_BITS
                    },
            ),
    )
}

/// The matrix obtained by driving an input-less unit for `num_samples`
/// ticks and mapping its raw output channels onto `num_inputs` target
/// channels.
pub open spec fn driver_data<U: Unit>(u: U, num_inputs: nat, num_samples: nat) -> Seq<Seq<u32>> {
    driver_map(outputs_after(u, empty_frames(num_samples)), num_inputs, u.spec_outputs())
}

/// Map a driving unit's raw output frames (tick-major) onto `num_inputs`
/// channel-major target channels: the first `min(num_inputs, douts)`
/// channels are copied and any remaining target channels stay silent.
pub fn map_driver_frames(raw_frames: &Vec<Vec<u32>>, num_inputs: usize, douts: usize) -> (r: Vec<
    Vec<u32>,
>)
    requires
        forall|j: int|
            0 <= j < raw_frames.deep_view().len() ==> (#[trigger] raw_frames.deep_view()[j]).len()
                == douts,
    ensures
        r.deep_view() == driver_map(raw_frames.deep_view(), num_inputs as nat, douts as nat),
{
    let ghost raw = raw_frames.deep_view();
    let ghost target = driver_map(raw, num_inputs as nat, douts as nat);
    let num_samples = raw_frames.len();
    let mut data: Vec<Vec<u32>> = Vec::new();
    let mut ch: usize = 0;
    while ch < num_inputs
        invariant
            ch <= num_inputs,
            num_samples == raw_frames@.len(),
            raw == raw_frames.deep_view(),
            forall|j: int| 0 <= j < raw.len() ==> (#[trigger] raw[j]).len() == douts,
            target == driver_map(raw, num_inputs as nat, douts as nat),
            data.deep_view() =~~= target.take(ch as int),
        decreases num_inputs - ch,
    {
        let mut row: Vec<u32> = Vec::new();
        let mut i2: usize = 0;
        while i2 < num_samples
            invariant
                ch < num_inputs,
                i2 <= num_samples,
                num_samples == raw_frames@.len(),
                raw == raw_frames.deep_view(),
                forall|j: int| 0 <= j < raw.len() ==> (#[trigger] raw[j]).len() == douts,
                row@ =~= Seq::new(
                    i2 as nat,
                    |k: int|
                        if ch < douts {
                            raw[k][ch as int]
                        } else {
                            ZERO_BITS
                        },
                ),
            decreases num_samples - i2,
        {
            if ch < douts {
                proof {
                    assert(raw_frames.deep_view()[i2 as int].len() == raw_frames@[i2 as int]@.len());
                }
                row.push(raw_frames[i2][ch]);
            } else {
                row.push(ZERO_BITS);
            }
            i2 += 1;
        }
        let ghost pre = data.deep_view();
        let ghost rv = row@;
        data.push(row);
        ch += 1;
        proof {
            assert(data.deep_view() =~~= pre.push(rv));
            assert(data.deep_view() =~~= target.take(ch as int));
        }
    }
    proof {
        assert(data.deep_view() =~~= target);
    }
    data
}

/// Materialize input by ticking a driving unit that declares zero inputs.
/// The driving unit's own output channel count decides how many target
/// channels receive data; extra target channels stay silent and excess
/// driver channels are dropped.
pub fn make_data_from_unit<U: Unit>(unit: &mut U, num_inputs: usize, num_samples: usize) -> (r:
    Vec<Vec<u32>>)
    requires
        old(unit).spec_inputs() == 0,
    ensures
        r.deep_view() == driver_data(*old(unit), num_inputs as nat, num_samples as nat),
        *final(unit) == state_after(*old(unit), empty_frames(num_samples as nat)),
{
    let ghost u0 = *unit;
    let ghost frames = empty_frames(num_samples as nat);
    let ghost raw = outputs_after(u0, frames);
    let douts = unit.num_outputs();

    // Tick the driving unit, collecting its raw output frames (tick-major).
    let mut raw_frames: Vec<Vec<u32>> = Vec::new();
    let mut i: usize = 0;
    while i < num_samples
        invariant
            i <= num_samples,
            u0 == *old(unit),
            frames == empty_frames(num_samples as nat),
            raw == outputs_after(u0, frames),
            u0.spec_inputs() == 0,
            douts as nat == u0.spec_outputs(),
            *unit == state_after(u0, frames.take(i as int)),
            raw_frames.deep_view() =~~= outputs_after(u0, frames.take(i as int)),
        decreases num_samples - i,
    {
        proof {
            crate::unit::lemma_run_arity(u0, frames.take(i as int));
            assert(frames[i as int] =~= Seq::<u32>::empty());
            assert(frames.take(i as int).push(frames[i as int]) =~= frames.take(i + 1));
            crate::unit::lemma_run_snoc(u0, frames.take(i as int), frames[i as int]);
        }
        let empty_frame: Vec<u32> = Vec::new();
        let produced = unit.tick(&empty_frame);
        let ghost pre = raw_frames.deep_view();
        raw_frames.push(produced);
        i += 1;
        proof {
            assert(raw_frames.deep_view() =~~= pre.push(produced@));
        }
    }
    proof {
        assert(frames.take(num_samples as int) =~= frames);
        crate::unit::lemma_run_arity(u0, frames);
        assert(raw_frames.deep_view() =~~= raw);
    }

    // Map the raw channels onto the target channels.
    map_driver_frames(&raw_frames, num_inputs, douts)
}

/// Channel mapping of driving-unit materialization.  When the driver's
/// output count equals the requested input count, the materialized data is
/// exactly the driver's raw tick sequence in channel-major form; when the
/// driver has fewer outputs, the extra target channels are all zero; when
/// it has more, the excess channels are dropped without affecting the
/// retained ones.
pub proof fn lemma_driver_channel_mapping<U: Unit>(u: U, num_inputs: nat, num_samples: nat)
    ensures
        forall|ch: int, i: int|
            0 <= ch < num_inputs && ch < u.spec_outputs() && 0 <= i < num_samples ==> #[trigger] driver_data(
                u,
                num_inputs,
                num_samples,
            )[ch][i] == outputs_after(u, empty_frames(num_samples))[i][ch],
        forall|ch: int, i: int|
            0 <= ch < num_inputs && ch >= u.spec_outputs() && 0 <= i < num_samples ==> #[trigger] driver_data(
                u,
                num_inputs,
                num_samples,
            )[ch][i] == ZERO_BITS,
        driver_data(u, num_inputs, num_samples).len() == num_inputs,
        forall|ch: int|
            0 <= ch < num_inputs ==> (#[trigger] driver_data(u, num_inputs, num_samples)[ch]).len()
                == num_samples,
{
    crate::unit::lemma_run_arity(u, empty_frames(num_samples));
}

/// Every successfully materialized input has exactly `num_inputs` channel
/// arrays of exactly `num_samples` samples each, whatever the source
/// variant.  The same holds of generator and driving-unit materialization
/// by construction of `generator_data` and `driver_data`.
pub proof fn lemma_materialized_shape(
    source: InputSource,
    num_inputs: nat,
    num_samples: nat,
)
    requires
        source.spec_make_data(num_inputs, num_samples) is Ok,
    ensures
        source.spec_make_data(num_inputs, num_samples)->Ok_0.len() == num_inputs,
        forall|ch: int|
            0 <= ch < num_inputs ==> (#[trigger] source.spec_make_data(
                num_inputs,
                num_samples,
            )->Ok_0[ch]).len() == num_samples,
{
    match source {
        InputSource::Silence => {
        },
        InputSource::VecByChannel(d) => {
            lemma_first_wrong_len_none_all(d.deep_view(), num_samples, 0);
        },
        InputSource::VecByTick(d) => {
        },
        InputSource::Flat(vals) => {
        },
    }
}

} // verus!
