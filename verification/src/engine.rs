//! The execution engine: drives a unit across the full sample count under
//! one of two processing disciplines and classifies every output sample.
//!
//! Both disciplines produce the same captured output: the raw output run of
//! the unit, with every permitted abnormal sample replaced by 0.0 and
//! recorded as a marker.  Under the sequential discipline the unit is
//! ticked one frame at a time; under the buffered discipline it consumes
//! chunks of frames.  Their equivalence is proved in
//! [`lemma_discipline_equivalence`].

use vstd::prelude::*;

use crate::abnormal::{classify, classify_bits, AbnormalSample, ZERO_BITS};
use crate::error::SnapshotError;
use crate::unit::{outputs_after, state_after, BatchUnit, Unit, MAX_CHUNK};

verus! {

/// The input frame at sample index `i` of a channel-major matrix.
pub open spec fn frame_of(d: Seq<Seq<u32>>, i: int) -> Seq<u32> {
    Seq::new(d.len(), |ch: int| d[ch][i])
}

/// The sequence of `n` input frames of a channel-major matrix.
pub open spec fn frames_of(d: Seq<Seq<u32>>, n: nat) -> Seq<Seq<u32>> {
    Seq::new(n, |i: int| frame_of(d, i))
}

/// Column `ch` of the first `n` raw output frames, with every abnormal
/// value replaced by 0.0.
pub open spec fn clean_col(raw: Seq<Seq<u32>>, ch: int, n: int) -> Seq<u32> {
    Seq::new(
        n as nat,
        |i: int|
            if classify_bits(raw[i][ch]) is Some {
                ZERO_BITS
            } else {
                raw[i][ch]
            },
    )
}

/// The abnormal markers of column `ch` over the first `n` raw output
/// frames, in ascending sample order.
pub open spec fn markers_col(raw: Seq<Seq<u32>>, ch: int, n: int) -> Seq<(usize, AbnormalSample)>
    decreases n,
{
    if n <= 0 {
        Seq::empty()
    } else {
        markers_col(raw, ch, n - 1) + (match classify_bits(raw[n - 1][ch]) {
            Some(k) => seq![(((n - 1) as usize), k)],
            None => Seq::empty(),
        })
    }
}

/// The captured per-channel output columns of a raw run.
pub open spec fn captured_cols(raw: Seq<Seq<u32>>, width: nat) -> Seq<Seq<u32>> {
    Seq::new(width, |ch: int| clean_col(raw, ch, raw.len() as int))
}

/// The captured per-channel marker lists of a raw run.
pub open spec fn captured_markers(raw: Seq<Seq<u32>>, width: nat) -> Seq<
    Seq<(usize, AbnormalSample)>,
> {
    Seq::new(width, |ch: int| markers_col(raw, ch, raw.len() as int))
}

/// The first abnormal channel of one frame, at or after channel `from`.
pub open spec fn first_abnormal_in_frame(frame: Seq<u32>, from: int) -> Option<int>
    decreases frame.len() - from,
{
    if from < 0 || from >= frame.len() {
        None
    } else if classify_bits(frame[from]) is Some {
        Some(from)
    } else {
        first_abnormal_in_frame(frame, from + 1)
    }
}

/// The first abnormal sample of a raw run in sequential processing order:
/// frames in order, channels in order within a frame.  Returns the
/// `(sample, channel)` position.
pub open spec fn first_abnormal(raw: Seq<Seq<u32>>, from: int) -> Option<(int, int)>
    decreases raw.len() - from,
{
    if from < 0 || from >= raw.len() {
        None
    } else {
        match first_abnormal_in_frame(raw[from], 0) {
            Some(ch) => Some((from, ch)),
            None => first_abnormal(raw, from + 1),
        }
    }
}

/// The error reported for an abnormal sample at position `(i, ch)`.
pub open spec fn abnormal_error(raw: Seq<Seq<u32>>, i: int, ch: int) -> SnapshotError {
    SnapshotError::AbnormalSampleFatal {
        channel: ch as usize,
        index: i as usize,
        kind: classify_bits(raw[i][ch])->Some_0,
    }
}

/// Outcome of capturing a raw run under the sequential discipline: the
/// captured columns and markers, or the failure at the first abnormal
/// sample in sequential order when abnormal samples are not allowed.
pub open spec fn tick_capture(raw: Seq<Seq<u32>>, width: nat, allow: bool) -> Result<
    (Seq<Seq<u32>>, Seq<Seq<(usize, AbnormalSample)>>),
    SnapshotError,
> {
    if allow {
        Ok((captured_cols(raw, width), captured_markers(raw, width)))
    } else {
        match first_abnormal(raw, 0) {
            Some((i, ch)) => Err(abnormal_error(raw, i, ch)),
            None => Ok((captured_cols(raw, width), captured_markers(raw, width))),
        }
    }
}

/// Captured output of one execution run.
#[derive(Debug)]
pub struct Capture {
    /// Captured output samples, channel-major, abnormal values replaced by
    /// 0.0.
    pub output_data: Vec<Vec<u32>>,
    /// Per output channel, the recorded `(sample index, classification)`
    /// pairs, in ascending sample order.  Empty unless abnormal samples
    /// are allowed.
    pub abnormalities: Vec<Vec<(usize, AbnormalSample)>>,
}

impl Capture {
    /// The capture equals the spec-level payload for the given raw run.
    pub open spec fn matches(self, raw: Seq<Seq<u32>>, width: nat) -> bool {
        &&& self.output_data@.len() == width
        &&& forall|ch: int|
            0 <= ch < width ==> (#[trigger] self.output_data@[ch])@ == clean_col(
                raw,
                ch,
                raw.len() as int,
            )
        &&& self.abnormalities@.len() == width
        &&& forall|ch: int|
            0 <= ch < width ==> (#[trigger] self.abnormalities@[ch])@ == markers_col(
                raw,
                ch,
                raw.len() as int,
            )
    }
}

/// Build the input frame at sample index `i` of a channel-major matrix.
fn input_frame(data: &Vec<Vec<u32>>, i: usize) -> (f: Vec<u32>)
    requires
        forall|ch: int|
            0 <= ch < data.deep_view().len() ==> i < (#[trigger] data.deep_view()[ch]).len(),
    ensures
        f@ == frame_of(data.deep_view(), i as int),
{
    let mut f: Vec<u32> = Vec::new();
    let mut ch: usize = 0;
    while ch < data.len()
        invariant
            ch <= data@.len(),
            forall|c: int|
                0 <= c < data.deep_view().len() ==> i < (#[trigger] data.deep_view()[c]).len(),
            f@ =~= frame_of(data.deep_view(), i as int).take(ch as int),
        decreases data@.len() - ch,
    {
        proof {
            assert(data.deep_view()[ch as int].len() == data@[ch as int]@.len());
        }
        f.push(data[ch][i]);
        ch += 1;
    }
    proof {
        assert(f@ =~= frame_of(data.deep_view(), i as int));
    }
    f
}

/// Scan one output frame for its first abnormal value.
fn scan_frame(frame: &Vec<u32>) -> (r: Option<(usize, AbnormalSample)>)
    ensures
        match r {
            Some((ch, k)) => first_abnormal_in_frame(frame@, 0) == Some(ch as int)
                && classify_bits(frame@[ch as int]) == Some(k),
            None => first_abnormal_in_frame(frame@, 0) is None,
        },
{
    let mut ch: usize = 0;
    while ch < frame.len()
        invariant
            ch <= frame@.len(),
            forall|c: int| 0 <= c < ch ==> classify_bits(#[trigger] frame@[c]) is None,
        decreases frame@.len() - ch,
    {
        if let Some(k) = classify(frame[ch]) {
            proof {
                lemma_first_in_frame_hit(frame@, 0, ch as int);
            }
            return Some((ch, k));
        }
        ch += 1;
    }
    proof {
        lemma_first_in_frame_miss(frame@, 0);
    }
    None
}

proof fn lemma_first_in_frame_hit(frame: Seq<u32>, from: int, ch: int)
    requires
        0 <= from <= ch < frame.len(),
        forall|c: int| from <= c < ch ==> classify_bits(#[trigger] frame[c]) is None,
        classify_bits(frame[ch]) is Some,
    ensures
        first_abnormal_in_frame(frame, from) == Some(ch),
    decreases ch - from,
{
    if from < ch {
        lemma_first_in_frame_hit(frame, from + 1, ch);
    }
}

proof fn lemma_first_in_frame_miss(frame: Seq<u32>, from: int)
    requires
        0 <= from,
        forall|c: int| from <= c < frame.len() ==> classify_bits(#[trigger] frame[c]) is None,
    ensures
        first_abnormal_in_frame(frame, from) is None,
    decreases frame.len() - from,
{
    if from < frame.len() {
        lemma_first_in_frame_miss(frame, from + 1);
    }
}

/// If the frames before `i` are clean and frame `i` has its first abnormal
/// channel at `ch`, the sequential scan of the whole run stops at `(i, ch)`.
proof fn lemma_first_abnormal_hit(raw: Seq<Seq<u32>>, from: int, i: int, ch: int)
    requires
        0 <= from <= i < raw.len(),
        forall|j: int| from <= j < i ==> first_abnormal_in_frame(#[trigger] raw[j], 0) is None,
        first_abnormal_in_frame(raw[i], 0) == Some(ch),
    ensures
        first_abnormal(raw, from) == Some((i, ch)),
    decreases i - from,
{
    if from < i {
        lemma_first_abnormal_hit(raw, from + 1, i, ch);
    }
}

/// If every frame is clean, the sequential scan finds nothing.
proof fn lemma_first_abnormal_miss(raw: Seq<Seq<u32>>, from: int)
    requires
        0 <= from,
        forall|j: int| from <= j < raw.len() ==> first_abnormal_in_frame(#[trigger] raw[j], 0) is None,
    ensures
        first_abnormal(raw, from) is None,
    decreases raw.len() - from,
{
    if from < raw.len() {
        lemma_first_abnormal_miss(raw, from + 1);
    }
}

/// Extract the captured column and markers of channel `ch` from the raw
/// tick-major output frames.
fn scan_column(raw_frames: &Vec<Vec<u32>>, ch: usize) -> (r: (Vec<u32>, Vec<
    (usize, AbnormalSample),
>))
    requires
        forall|j: int|
            0 <= j < raw_frames.deep_view().len() ==> ch < (#[trigger] raw_frames.deep_view()[
                j
            ]).len(),
    ensures
        r.0@ == clean_col(raw_frames.deep_view(), ch as int, raw_frames.deep_view().len() as int),
        r.1@ == markers_col(raw_frames.deep_view(), ch as int, raw_frames.deep_view().len() as int),
{
    let ghost raw = raw_frames.deep_view();
    let n = raw_frames.len();
    let mut clean: Vec<u32> = Vec::new();
    let mut marks: Vec<(usize, AbnormalSample)> = Vec::new();
    let mut j: usize = 0;
    while j < n
        invariant
            j <= n,
            n == raw_frames@.len(),
            raw == raw_frames.deep_view(),
            forall|t: int| 0 <= t < raw.len() ==> ch < (#[trigger] raw[t]).len(),
            clean@ =~= clean_col(raw, ch as int, j as int),
            marks@ =~= markers_col(raw, ch as int, j as int),
        decreases n - j,
    {
        proof {
            assert(raw_frames.deep_view()[j as int].len() == raw_frames@[j as int]@.len());
        }
        let v = raw_frames[j][ch];
        match classify(v) {
            Some(k) => {
                marks.push((j, k));
                clean.push(ZERO_BITS);
            },
            None => {
                clean.push(v);
            },
        }
        j += 1;
        proof {
            assert(clean@ =~= clean_col(raw, ch as int, j as int));
            assert(marks@ =~= markers_col(raw, ch as int, j as int));
        }
    }
    (clean, marks)
}

/// Assemble the capture from the raw tick-major output frames.
fn collect_capture(raw_frames: &Vec<Vec<u32>>, width: usize) -> (c: Capture)
    requires
        forall|j: int|
            0 <= j < raw_frames.deep_view().len() ==> (#[trigger] raw_frames.deep_view()[j]).len()
                == width,
    ensures
        c.matches(raw_frames.deep_view(), width as nat),
{
    let mut output_data: Vec<Vec<u32>> = Vec::new();
    let mut abnormalities: Vec<Vec<(usize, AbnormalSample)>> = Vec::new();
    let mut ch: usize = 0;
    while ch < width
        invariant
            ch <= width,
            forall|j: int|
                0 <= j < raw_frames.deep_view().len() ==> (#[trigger] raw_frames.deep_view()[
                    j
                ]).len() == width,
            output_data@.len() == ch,
            abnormalities@.len() == ch,
            forall|c: int|
                0 <= c < ch ==> (#[trigger] output_data@[c])@ == clean_col(
                    raw_frames.deep_view(),
                    c,
                    raw_frames.deep_view().len() as int,
                ),
            forall|c: int|
                0 <= c < ch ==> (#[trigger] abnormalities@[c])@ == markers_col(
                    raw_frames.deep_view(),
                    c,
                    raw_frames.deep_view().len() as int,
                ),
        decreases width - ch,
    {
        let (clean, marks) = scan_column(raw_frames, ch);
        output_data.push(clean);
        abnormalities.push(marks);
        ch += 1;
    }
    Capture { output_data, abnormalities }
}

/// Drive the unit for `num_samples` ticks, one frame at a time, checking
/// every output value as it is produced.  On the first abnormal value,
/// when abnormal samples are not allowed, the run fails immediately.
pub fn capture_tick<U: Unit>(
    unit: &mut U,
    input: &Vec<Vec<u32>>,
    num_samples: usize,
    allow: bool,
) -> (r: Result<Capture, SnapshotError>)
    requires
        input.deep_view().len() == old(unit).spec_inputs(),
        forall|ch: int|
            0 <= ch < input.deep_view().len() ==> (#[trigger] input.deep_view()[ch]).len()
                == num_samples,
    ensures
        ({
            let raw = outputs_after(*old(unit), frames_of(input.deep_view(), num_samples as nat));
            let width = old(unit).spec_outputs();
            match r {
                Ok(c) => tick_capture(raw, width, allow) is Ok && c.matches(raw, width)
                    && *final(unit) == state_after(
                    *old(unit),
                    frames_of(input.deep_view(), num_samples as nat),
                ),
                Err(e) => tick_capture(raw, width, allow) is Err && e == tick_capture(
                    raw,
                    width,
                    allow,
                )->Err_0,
            }
        }),
{
    let ghost dv = input.deep_view();
    let ghost u0 = *unit;
    let ghost frames = frames_of(dv, num_samples as nat);
    let ghost raw = outputs_after(u0, frames);
    let width = unit.num_outputs();

    let mut raw_frames: Vec<Vec<u32>> = Vec::new();
    let mut i: usize = 0;
    while i < num_samples
        invariant
            i <= num_samples,
            u0 == *old(unit),
            dv == input.deep_view(),
            dv.len() == u0.spec_inputs(),
            forall|ch: int| 0 <= ch < dv.len() ==> (#[trigger] dv[ch]).len() == num_samples,
            frames == frames_of(dv, num_samples as nat),
            raw == outputs_after(u0, frames),
            width as nat == u0.spec_outputs(),
            *unit == state_after(u0, frames.take(i as int)),
            raw_frames.deep_view() =~~= outputs_after(u0, frames.take(i as int)),
            !allow ==> forall|j: int|
                0 <= j < i ==> first_abnormal_in_frame(#[trigger] raw[j], 0) is None,
        decreases num_samples - i,
    {
        proof {
            crate::unit::lemma_run_arity(u0, frames.take(i as int));
            assert(frames[i as int] =~= frame_of(dv, i as int));
            assert(frames.take(i as int).push(frames[i as int]) =~= frames.take(i + 1));
            crate::unit::lemma_run_snoc(u0, frames.take(i as int), frames[i as int]);
        }
        let frame = input_frame(input, i);
        let produced = unit.tick(&frame);
        proof {
            assert(outputs_after(u0, frames.take(i + 1)) == outputs_after(
                u0,
                frames.take(i as int),
            ).push(produced@));
            assert(frames =~= frames.take(i + 1) + frames.skip(i + 1));
            crate::unit::lemma_run_append(u0, frames.take(i + 1), frames.skip(i + 1));
            crate::unit::lemma_run_arity(u0, frames.take(i + 1));
            assert(raw[i as int] == outputs_after(u0, frames.take(i + 1))[i as int]);
            assert(produced@ == raw[i as int]);
        }
        if !allow {
            if let Some((ch, k)) = scan_frame(&produced) {
                proof {
                    lemma_first_abnormal_hit(raw, 0, i as int, ch as int);
                }
                return Err(
                    SnapshotError::AbnormalSampleFatal { channel: ch, index: i, kind: k },
                );
            }
        }
        let ghost pre = raw_frames.deep_view();
        raw_frames.push(produced);
        i += 1;
        proof {
            assert(raw_frames.deep_view() =~~= pre.push(produced@));
        }
    }
    proof {
        assert(frames.take(num_samples as int) =~= frames);
        crate::unit::lemma_run_arity(u0, frames);
        assert(raw_frames.deep_view() =~~= raw);
        if !allow {
            lemma_first_abnormal_miss(raw, 0);
        }
    }
    let capture = collect_capture(&raw_frames, width);
    Ok(capture)
}

/// The first abnormal sample of column `ch` within sample range
/// `[from, hi)`.
pub open spec fn first_abn_in_col(raw: Seq<Seq<u32>>, ch: int, from: int, hi: int) -> Option<int>
    decreases hi - from,
{
    if from < 0 || from >= hi {
        None
    } else if classify_bits(raw[from][ch]) is Some {
        Some(from)
    } else {
        first_abn_in_col(raw, ch, from + 1, hi)
    }
}

/// The first abnormal sample of the chunk `[lo, hi)` in buffered
/// processing order: channels in order, samples in order within a channel.
/// Returns the `(sample, channel)` position.
pub open spec fn first_abn_in_chunk(
    raw: Seq<Seq<u32>>,
    width: nat,
    lo: int,
    hi: int,
    ch: int,
) -> Option<(int, int)>
    decreases width - ch,
{
    if ch < 0 || ch >= width {
        None
    } else {
        match first_abn_in_col(raw, ch, lo, hi) {
            Some(i) => Some((i, ch)),
            None => first_abn_in_chunk(raw, width, lo, hi, ch + 1),
        }
    }
}

/// The first abnormal sample of a raw run in buffered processing order:
/// chunks of `chunk` frames in order, each scanned channel-major.
pub open spec fn first_abn_batched(
    raw: Seq<Seq<u32>>,
    width: nat,
    chunk: int,
    from: int,
) -> Option<(int, int)>
    decreases raw.len() - from,
{
    if from < 0 || from >= raw.len() || chunk <= 0 {
        None
    } else {
        let hi = if from + chunk <= raw.len() {
            from + chunk
        } else {
            raw.len() as int
        };
        match first_abn_in_chunk(raw, width, from, hi, 0) {
            Some(p) => Some(p),
            None => first_abn_batched(raw, width, chunk, hi),
        }
    }
}

/// Outcome of capturing a raw run under the buffered discipline: the same
/// captured columns and markers as the sequential discipline, or the
/// failure at the first abnormal sample in buffered processing order.
pub open spec fn batch_capture(raw: Seq<Seq<u32>>, width: nat, allow: bool, chunk: int) -> Result<
    (Seq<Seq<u32>>, Seq<Seq<(usize, AbnormalSample)>>),
    SnapshotError,
> {
    if allow {
        Ok((captured_cols(raw, width), captured_markers(raw, width)))
    } else {
        match first_abn_batched(raw, width, chunk, 0) {
            Some((i, ch)) => Err(abnormal_error(raw, i, ch)),
            None => Ok((captured_cols(raw, width), captured_markers(raw, width))),
        }
    }
}

/// Copy one frame out of a tick-major frame list.
fn copy_frame(src: &Vec<Vec<u32>>, j: usize) -> (r: Vec<u32>)
    requires
        j < src.deep_view().len(),
    ensures
        r@ == src.deep_view()[j as int],
{
    let mut r: Vec<u32> = Vec::new();
    let mut t: usize = 0;
    proof {
        assert(src.deep_view()[j as int].len() == src@[j as int]@.len());
    }
    while t < src[j].len()
        invariant
            j < src@.len(),
            t <= src@[j as int]@.len(),
            r@ =~= src.deep_view()[j as int].take(t as int),
        decreases src@[j as int]@.len() - t,
    {
        proof {
            assert(src.deep_view()[j as int].len() == src@[j as int]@.len());
        }
        r.push(src[j][t]);
        t += 1;
    }
    proof {
        assert(src.deep_view()[j as int].len() == src@[j as int]@.len());
        assert(r@ =~= src.deep_view()[j as int]);
    }
    r
}

/// Scan one chunk of output frames in buffered order (channel-major) for
/// its first abnormal value; positions are local to the chunk.
fn scan_chunk(chunk_out: &Vec<Vec<u32>>, width: usize) -> (r: Option<(usize, usize, AbnormalSample)>)
    requires
        forall|j: int|
            0 <= j < chunk_out.deep_view().len() ==> (#[trigger] chunk_out.deep_view()[j]).len()
                == width,
    ensures
        ({
            let cdv = chunk_out.deep_view();
            match r {
                Some((j, ch, k)) => j < cdv.len() && ch < width && first_abn_in_chunk(
                    cdv,
                    width as nat,
                    0,
                    cdv.len() as int,
                    0,
                ) == Some((j as int, ch as int)) && classify_bits(cdv[j as int][ch as int])
                    == Some(k),
                None => first_abn_in_chunk(cdv, width as nat, 0, cdv.len() as int, 0) is None,
            }
        }),
{
    let ghost cdv = chunk_out.deep_view();
    let n = chunk_out.len();
    let mut ch: usize = 0;
    while ch < width
        invariant
            ch <= width,
            n == chunk_out@.len(),
            cdv == chunk_out.deep_view(),
            forall|t: int| 0 <= t < cdv.len() ==> (#[trigger] cdv[t]).len() == width,
            forall|c: int|
                0 <= c < ch ==> first_abn_in_col(cdv, c, 0, cdv.len() as int) is None,
        decreases width - ch,
    {
        let mut j: usize = 0;
        while j < n
            invariant
                ch < width,
                j <= n,
                n == chunk_out@.len(),
                cdv == chunk_out.deep_view(),
                forall|t: int| 0 <= t < cdv.len() ==> (#[trigger] cdv[t]).len() == width,
                forall|c: int|
                    0 <= c < ch ==> first_abn_in_col(cdv, c, 0, cdv.len() as int) is None,
                forall|t: int| 0 <= t < j ==> classify_bits(#[trigger] cdv[t][ch as int]) is None,
            decreases n - j,
        {
            proof {
                assert(cdv[j as int] =~= chunk_out@[j as int]@);
            }
            if let Some(k) = classify(chunk_out[j][ch]) {
                proof {
                    lemma_first_abn_in_col_hit(cdv, ch as int, 0, j as int, cdv.len() as int);
                    lemma_first_abn_in_chunk_hit(cdv, width as nat, 0, cdv.len() as int, ch as int, j as int);
                }
                return Some((j, ch, k));
            }
            j += 1;
        }
        proof {
            lemma_first_abn_in_col_miss(cdv, ch as int, 0, cdv.len() as int);
        }
        ch += 1;
    }
    proof {
        lemma_first_abn_in_chunk_miss(cdv, width as nat, 0, cdv.len() as int, 0);
    }
    None
}

proof fn lemma_first_abn_in_col_hit(raw: Seq<Seq<u32>>, ch: int, from: int, j: int, hi: int)
    requires
        0 <= from <= j < hi,
        forall|t: int| from <= t < j ==> classify_bits(#[trigger] raw[t][ch]) is None,
        classify_bits(raw[j][ch]) is Some,
    ensures
        first_abn_in_col(raw, ch, from, hi) == Some(j),
    decreases j - from,
{
    if from < j {
        lemma_first_abn_in_col_hit(raw, ch, from + 1, j, hi);
    }
}

proof fn lemma_first_abn_in_col_miss(raw: Seq<Seq<u32>>, ch: int, from: int, hi: int)
    requires
        0 <= from,
        forall|t: int| from <= t < hi ==> classify_bits(#[trigger] raw[t][ch]) is None,
    ensures
        first_abn_in_col(raw, ch, from, hi) is None,
    decreases hi - from,
{
    if from < hi {
        lemma_first_abn_in_col_miss(raw, ch, from + 1, hi);
    }
}

proof fn lemma_first_abn_in_chunk_hit(
    raw: Seq<Seq<u32>>,
    width: nat,
    lo: int,
    hi: int,
    ch: int,
    j: int,
)
    requires
        0 <= ch < width,
        forall|c: int| 0 <= c < ch ==> first_abn_in_col(raw, c, lo, hi) is None,
        first_abn_in_col(raw, ch, lo, hi) == Some(j),
    ensures
        first_abn_in_chunk(raw, width, lo, hi, 0) == Some((j, ch)),
{
    lemma_first_abn_in_chunk_hit_from(raw, width, lo, hi, ch, j, 0);
}

proof fn lemma_first_abn_in_chunk_hit_from(
    raw: Seq<Seq<u32>>,
    width: nat,
    lo: int,
    hi: int,
    ch: int,
    j: int,
    from: int,
)
    requires
        0 <= from <= ch < width,
        forall|c: int| from <= c < ch ==> first_abn_in_col(raw, c, lo, hi) is None,
        first_abn_in_col(raw, ch, lo, hi) == Some(j),
    ensures
        first_abn_in_chunk(raw, width, lo, hi, from) == Some((j, ch)),
    decreases ch - from,
{
    if from < ch {
        lemma_first_abn_in_chunk_hit_from(raw, width, lo, hi, ch, j, from + 1);
    }
}

proof fn lemma_first_abn_in_chunk_miss(raw: Seq<Seq<u32>>, width: nat, lo: int, hi: int, from: int)
    requires
        0 <= from,
        forall|c: int| from <= c < width ==> first_abn_in_col(raw, c, lo, hi) is None,
    ensures
        first_abn_in_chunk(raw, width, lo, hi, from) is None,
    decreases width - from,
{
    if from < width {
        lemma_first_abn_in_chunk_miss(raw, width, lo, hi, from + 1);
    }
}

/// A column scan over a chunk only reads the frames in its range, so it is
/// unchanged when the chunk is read out of the full run instead of out of
/// the chunk's own frame list.
proof fn lemma_col_scan_frame_agreement(
    a: Seq<Seq<u32>>,
    b: Seq<Seq<u32>>,
    ch: int,
    from: int,
    hi: int,
    shift: int,
)
    requires
        forall|t: int| from <= t < hi ==> #[trigger] a[t] == b[t + shift],
        0 <= from,
        0 <= from + shift,
    ensures
        match first_abn_in_col(a, ch, from, hi) {
            Some(j) => first_abn_in_col(b, ch, from + shift, hi + shift) == Some(j + shift),
            None => first_abn_in_col(b, ch, from + shift, hi + shift) is None,
        },
    decreases hi - from,
{
    if from < hi {
        lemma_col_scan_frame_agreement(a, b, ch, from + 1, hi, shift);
    }
}

/// The chunk scan agrees between a chunk's own frame list and the same
/// frames inside the full run.
proof fn lemma_chunk_scan_frame_agreement(
    a: Seq<Seq<u32>>,
    b: Seq<Seq<u32>>,
    width: nat,
    hi: int,
    shift: int,
    from_ch: int,
)
    requires
        forall|t: int| 0 <= t < hi ==> #[trigger] a[t] == b[t + shift],
        0 <= from_ch,
        0 <= shift,
    ensures
        match first_abn_in_chunk(a, width, 0, hi, from_ch) {
            Some(p) => first_abn_in_chunk(b, width, shift, hi + shift, from_ch) == Some(
                (p.0 + shift, p.1),
            ),
            None => first_abn_in_chunk(b, width, shift, hi + shift, from_ch) is None,
        },
    decreases width - from_ch,
{
    if 0 <= from_ch < width {
        lemma_col_scan_frame_agreement(a, b, from_ch, 0, hi, shift);
        lemma_chunk_scan_frame_agreement(a, b, width, hi, shift, from_ch + 1);
    }
}

/// Drive the unit across the full sample count in chunks of `chunk_size`
/// frames, checking every output value with its absolute sample index.  On
/// the first abnormal value in buffered order, when abnormal samples are
/// not allowed, the run fails immediately.
pub fn capture_batch<U: BatchUnit>(
    unit: &mut U,
    input: &Vec<Vec<u32>>,
    num_samples: usize,
    chunk_size: usize,
    allow: bool,
) -> (r: Result<Capture, SnapshotError>)
    requires
        1 <= chunk_size <= MAX_CHUNK,
        input.deep_view().len() == old(unit).spec_inputs(),
        forall|ch: int|
            0 <= ch < input.deep_view().len() ==> (#[trigger] input.deep_view()[ch]).len()
                == num_samples,
    ensures
        ({
            let raw = outputs_after(*old(unit), frames_of(input.deep_view(), num_samples as nat));
            let width = old(unit).spec_outputs();
            match r {
                Ok(c) => batch_capture(raw, width, allow, chunk_size as int) is Ok && c.matches(
                    raw,
                    width,
                ) && *final(unit) == state_after(
                    *old(unit),
                    frames_of(input.deep_view(), num_samples as nat),
                ),
                Err(e) => batch_capture(raw, width, allow, chunk_size as int) is Err && e
                    == batch_capture(raw, width, allow, chunk_size as int)->Err_0,
            }
        }),
{
    let ghost dv = input.deep_view();
    let ghost u0 = *unit;
    let ghost frames = frames_of(dv, num_samples as nat);
    let ghost raw = outputs_after(u0, frames);
    let width = unit.num_outputs();

    proof {
        crate::unit::lemma_run_arity(u0, frames);
    }

    let mut raw_frames: Vec<Vec<u32>> = Vec::new();
    let mut start: usize = 0;
    while start < num_samples
        invariant
            start <= num_samples,
            u0 == *old(unit),
            1 <= chunk_size <= MAX_CHUNK,
            dv == input.deep_view(),
            dv.len() == u0.spec_inputs(),
            forall|ch: int| 0 <= ch < dv.len() ==> (#[trigger] dv[ch]).len() == num_samples,
            frames == frames_of(dv, num_samples as nat),
            raw == outputs_after(u0, frames),
            raw.len() == num_samples,
            forall|j: int| 0 <= j < raw.len() ==> (#[trigger] raw[j]).len() == u0.spec_outputs(),
            width as nat == u0.spec_outputs(),
            *unit == state_after(u0, frames.take(start as int)),
            raw_frames.deep_view() =~~= raw.take(start as int),
            !allow ==> first_abn_batched(raw, width as nat, chunk_size as int, 0)
                == first_abn_batched(raw, width as nat, chunk_size as int, start as int),
        decreases num_samples - start,
    {
        let len = if num_samples - start < chunk_size {
            num_samples - start
        } else {
            chunk_size
        };

        // Build the chunk's input frames, tick-major.
        let mut chunk_frames: Vec<Vec<u32>> = Vec::new();
        let mut j: usize = 0;
        while j < len
            invariant
                j <= len,
                start + len <= num_samples,
                dv == input.deep_view(),
                forall|ch: int| 0 <= ch < dv.len() ==> (#[trigger] dv[ch]).len() == num_samples,
                frames == frames_of(dv, num_samples as nat),
                chunk_frames.deep_view() =~~= frames.subrange(start as int, start + j),
            decreases len - j,
        {
            let f = input_frame(input, start + j);
            let ghost pre = chunk_frames.deep_view();
            chunk_frames.push(f);
            j += 1;
            proof {
                assert(chunk_frames.deep_view() =~~= pre.push(frames[start + j - 1]));
                assert(chunk_frames.deep_view() =~~= frames.subrange(start as int, start + j));
            }
        }

        let ghost pre_state = *unit;
        let ghost cdv = chunk_frames.deep_view();
        proof {
            crate::unit::lemma_run_arity(u0, frames.take(start as int));
            assert(cdv.len() == len as int);
            assert(forall|t: int|
                0 <= t < cdv.len() ==> (#[trigger] cdv[t]).len() == u0.spec_inputs());
            assert(forall|t: int|
                0 <= t < chunk_frames@.len() ==> (#[trigger] chunk_frames@[t])@.len() == cdv[
                    t
                ].len());
        }
        let chunk_out = unit.process(&chunk_frames);
        proof {
            assert(frames.take(start + len) =~= frames.take(start as int) + frames.subrange(
                start as int,
                start + len,
            ));
            crate::unit::lemma_run_append(u0, frames.take(start as int), frames.subrange(start as int, start + len));
            assert(*unit == state_after(u0, frames.take(start + len)));
            assert(frames =~= frames.take(start + len) + frames.skip(start + len));
            crate::unit::lemma_run_append(u0, frames.take(start + len), frames.skip(start + len));
            crate::unit::lemma_run_arity(u0, frames.take(start as int));
            crate::unit::lemma_run_arity(u0, frames.take(start + len));
            assert(outputs_after(u0, frames.take(start + len)) =~= raw.take(start + len));
            assert(chunk_out.deep_view() =~= raw.subrange(start as int, start + len));
            assert(forall|t: int|
                0 <= t < len ==> #[trigger] chunk_out.deep_view()[t] == raw[t + start]);
        }

        if !allow {
            if let Some((j_local, ch, k)) = scan_chunk(&chunk_out, width) {
                proof {
                    let cod = chunk_out.deep_view();
                    lemma_chunk_scan_frame_agreement(cod, raw, width as nat, len as int, start as int, 0);
                    assert(first_abn_in_chunk(raw, width as nat, start as int, start + len, 0)
                        == Some((j_local + start, ch as int)));
                    assert(first_abn_batched(raw, width as nat, chunk_size as int, start as int)
                        == Some((j_local + start, ch as int)));
                }
                return Err(
                    SnapshotError::AbnormalSampleFatal {
                        channel: ch,
                        index: start + j_local,
                        kind: k,
                    },
                );
            }
            proof {
                let cod = chunk_out.deep_view();
                lemma_chunk_scan_frame_agreement(cod, raw, width as nat, len as int, start as int, 0);
                assert(first_abn_in_chunk(raw, width as nat, start as int, start + len, 0)
                    is None);
                assert(first_abn_batched(raw, width as nat, chunk_size as int, start as int)
                    == first_abn_batched(raw, width as nat, chunk_size as int, start + len));
            }
        }

        // Append the chunk's output frames to the collected raw run.
        let mut t: usize = 0;
        while t < chunk_out.len()
            invariant
                t <= chunk_out@.len(),
                chunk_out.deep_view() == raw.subrange(start as int, start + len),
                len == chunk_out@.len(),
                start + len <= raw.len(),
                raw_frames.deep_view() =~~= raw.take(start + t),
            decreases chunk_out@.len() - t,
        {
            let row = copy_frame(&chunk_out, t);
            let ghost pre = raw_frames.deep_view();
            raw_frames.push(row);
            t += 1;
            proof {
                assert(raw_frames.deep_view() =~~= pre.push(raw[start + t - 1]));
                assert(raw_frames.deep_view() =~~= raw.take(start + t));
            }
        }
        start += len;
    }
    proof {
        assert(frames.take(num_samples as int) =~= frames);
        assert(raw_frames.deep_view() =~~= raw);
        if !allow {
            assert(first_abn_batched(raw, width as nat, chunk_size as int, num_samples as int)
                is None);
        }
    }
    let capture = collect_capture(&raw_frames, width);
    Ok(capture)
}

proof fn lemma_frame_none_all(frame: Seq<u32>, from: int)
    requires
        0 <= from,
        first_abnormal_in_frame(frame, from) is None,
    ensures
        forall|c: int| from <= c < frame.len() ==> classify_bits(#[trigger] frame[c]) is None,
    decreases frame.len() - from,
{
    if from < frame.len() {
        lemma_frame_none_all(frame, from + 1);
    }
}

proof fn lemma_seq_none_all(raw: Seq<Seq<u32>>, from: int)
    requires
        0 <= from,
        first_abnormal(raw, from) is None,
    ensures
        forall|j: int|
            from <= j < raw.len() ==> first_abnormal_in_frame(#[trigger] raw[j], 0) is None,
    decreases raw.len() - from,
{
    if from < raw.len() {
        lemma_seq_none_all(raw, from + 1);
    }
}

proof fn lemma_col_none_all(raw: Seq<Seq<u32>>, ch: int, from: int, hi: int)
    requires
        0 <= from,
        first_abn_in_col(raw, ch, from, hi) is None,
    ensures
        forall|t: int| from <= t < hi ==> classify_bits(#[trigger] raw[t][ch]) is None,
    decreases hi - from,
{
    if from < hi {
        lemma_col_none_all(raw, ch, from + 1, hi);
    }
}

proof fn lemma_chunk_none_all(raw: Seq<Seq<u32>>, width: nat, lo: int, hi: int, from_ch: int)
    requires
        0 <= from_ch,
        first_abn_in_chunk(raw, width, lo, hi, from_ch) is None,
    ensures
        forall|c: int|
            from_ch <= c < width ==> #[trigger] first_abn_in_col(raw, c, lo, hi) is None,
    decreases width - from_ch,
{
    if from_ch < width {
        lemma_chunk_none_all(raw, width, lo, hi, from_ch + 1);
    }
}

proof fn lemma_batched_none_all(raw: Seq<Seq<u32>>, width: nat, chunk: int, from: int)
    requires
        0 <= from,
        1 <= chunk,
        first_abn_batched(raw, width, chunk, from) is None,
    ensures
        forall|j: int, c: int|
            from <= j < raw.len() && 0 <= c < width ==> classify_bits(
                #[trigger] raw[j][c],
            ) is None,
    decreases raw.len() - from,
{
    if from < raw.len() {
        let hi = if from + chunk <= raw.len() {
            from + chunk
        } else {
            raw.len() as int
        };
        lemma_chunk_none_all(raw, width, from, hi, 0);
        assert forall|j: int, c: int|
            from <= j < hi && 0 <= c < width implies classify_bits(
            #[trigger] raw[j][c],
        ) is None by {
            lemma_col_none_all(raw, c, from, hi);
        }
        lemma_batched_none_all(raw, width, chunk, hi);
    }
}

proof fn lemma_batched_miss(raw: Seq<Seq<u32>>, width: nat, chunk: int, from: int)
    requires
        0 <= from,
        forall|j: int, c: int|
            0 <= j < raw.len() && 0 <= c < width ==> classify_bits(
                #[trigger] raw[j][c],
            ) is None,
    ensures
        first_abn_batched(raw, width, chunk, from) is None,
    decreases raw.len() - from,
{
    if 0 < chunk && from < raw.len() {
        let hi = if from + chunk <= raw.len() {
            from + chunk
        } else {
            raw.len() as int
        };
        assert forall|c: int| 0 <= c < width implies #[trigger] first_abn_in_col(
            raw,
            c,
            from,
            hi,
        ) is None by {
            lemma_first_abn_in_col_miss(raw, c, from, hi);
        }
        lemma_first_abn_in_chunk_miss(raw, width, from, hi, 0);
        lemma_batched_miss(raw, width, chunk, hi);
    }
}

/// The sequential scan finds no abnormal sample exactly when the run holds
/// none.
pub proof fn lemma_no_abnormal_iff(raw: Seq<Seq<u32>>, width: nat)
    requires
        forall|j: int| 0 <= j < raw.len() ==> (#[trigger] raw[j]).len() == width,
    ensures
        first_abnormal(raw, 0) is None <==> (forall|j: int, c: int|
            0 <= j < raw.len() && 0 <= c < width ==> classify_bits(
                #[trigger] raw[j][c],
            ) is None),
{
    if first_abnormal(raw, 0) is None {
        lemma_seq_none_all(raw, 0);
        assert forall|j: int, c: int|
            0 <= j < raw.len() && 0 <= c < width implies classify_bits(
            #[trigger] raw[j][c],
        ) is None by {
            lemma_frame_none_all(raw[j], 0);
        }
    }
    if forall|j: int, c: int|
        0 <= j < raw.len() && 0 <= c < width ==> classify_bits(#[trigger] raw[j][c]) is None {
        assert forall|j: int| 0 <= j < raw.len() implies first_abnormal_in_frame(
            #[trigger] raw[j],
            0,
        ) is None by {
            lemma_first_in_frame_miss(raw[j], 0);
        }
        lemma_first_abnormal_miss(raw, 0);
    }
}

/// The buffered scan finds no abnormal sample exactly when the run holds
/// none, for any chunk size of at least one.
pub proof fn lemma_batched_no_abnormal_iff(raw: Seq<Seq<u32>>, width: nat, chunk: int)
    requires
        1 <= chunk,
        forall|j: int| 0 <= j < raw.len() ==> (#[trigger] raw[j]).len() == width,
    ensures
        first_abn_batched(raw, width, chunk, 0) is None <==> (forall|j: int, c: int|
            0 <= j < raw.len() && 0 <= c < width ==> classify_bits(
                #[trigger] raw[j][c],
            ) is None),
{
    if first_abn_batched(raw, width, chunk, 0) is None {
        lemma_batched_none_all(raw, width, chunk, 0);
    }
    if forall|j: int, c: int|
        0 <= j < raw.len() && 0 <= c < width ==> classify_bits(#[trigger] raw[j][c]) is None {
        lemma_batched_miss(raw, width, chunk, 0);
    }
}

/// Discipline equivalence over a raw run: for any chunk size between one
/// and the supported maximum, the buffered capture succeeds exactly when
/// the sequential capture does, and every successful capture carries the
/// same substituted output columns and the same abnormal-marker lists.
pub proof fn lemma_discipline_equivalence(raw: Seq<Seq<u32>>, width: nat, allow: bool, chunk: int)
    requires
        1 <= chunk,
        forall|j: int| 0 <= j < raw.len() ==> (#[trigger] raw[j]).len() == width,
    ensures
        tick_capture(raw, width, allow) is Ok <==> batch_capture(raw, width, allow, chunk) is Ok,
        tick_capture(raw, width, allow) is Ok ==> tick_capture(raw, width, allow)->Ok_0
            == batch_capture(raw, width, allow, chunk)->Ok_0,
{
    lemma_no_abnormal_iff(raw, width);
    lemma_batched_no_abnormal_iff(raw, width, chunk);
}

/// Discipline equivalence over a unit: starting from the same unit state,
/// the same input frames and the same sample count, the sequential and the
/// buffered discipline either both fail or both produce identical captured
/// output and identical abnormal-marker lists, for any chunk size between
/// one and the supported maximum.
pub proof fn lemma_tick_batch_agree<U: Unit>(
    u: U,
    input: Seq<Seq<u32>>,
    num_samples: nat,
    allow: bool,
    chunk: int,
)
    requires
        1 <= chunk <= MAX_CHUNK,
    ensures
        ({
            let raw = outputs_after(u, frames_of(input, num_samples));
            let width = u.spec_outputs();
            &&& (tick_capture(raw, width, allow) is Ok <==> batch_capture(
                raw,
                width,
                allow,
                chunk,
            ) is Ok)
            &&& tick_capture(raw, width, allow) is Ok ==> tick_capture(raw, width, allow)->Ok_0
                == batch_capture(raw, width, allow, chunk)->Ok_0
        }),
{
    crate::unit::lemma_run_arity(u, frames_of(input, num_samples));
    lemma_discipline_equivalence(
        outputs_after(u, frames_of(input, num_samples)),
        u.spec_outputs(),
        allow,
        chunk,
    );
}

/// Exactness of the marker lists and of the substitution: every recorded
/// marker points at an abnormal sample with its correct classification;
/// every abnormal sample index is recorded; indices are strictly
/// ascending, so each index appears exactly once; and the captured column
/// holds 0.0 exactly at the abnormal indices, the raw value elsewhere.
pub proof fn lemma_marker_exactness(raw: Seq<Seq<u32>>, ch: int, n: int)
    requires
        0 <= n <= usize::MAX,
    ensures
        forall|t: int|
            0 <= t < markers_col(raw, ch, n).len() ==> 0 <= (#[trigger] markers_col(
                raw,
                ch,
                n,
            )[t]).0 < n && classify_bits(raw[markers_col(raw, ch, n)[t].0 as int][ch]) == Some(
                markers_col(raw, ch, n)[t].1,
            ),
        forall|i: int|
            0 <= i < n && classify_bits(raw[i][ch]) is Some ==> exists|t: int|
                0 <= t < markers_col(raw, ch, n).len() && #[trigger] markers_col(raw, ch, n)[t]
                    == ((i as usize), classify_bits(raw[i][ch])->Some_0),
        forall|t1: int, t2: int|
            0 <= t1 < t2 < markers_col(raw, ch, n).len() ==> (#[trigger] markers_col(
                raw,
                ch,
                n,
            )[t1]).0 < (#[trigger] markers_col(raw, ch, n)[t2]).0,
        forall|i: int|
            0 <= i < n ==> #[trigger] clean_col(raw, ch, n)[i] == (if classify_bits(
                raw[i][ch],
            ) is Some {
                ZERO_BITS
            } else {
                raw[i][ch]
            }),
    decreases n,
{
    if n > 0 {
        lemma_marker_exactness(raw, ch, n - 1);
        let prev = markers_col(raw, ch, n - 1);
        let cur = markers_col(raw, ch, n);
        if classify_bits(raw[n - 1][ch]) is Some {
            assert(cur =~= prev.push((((n - 1) as usize), classify_bits(raw[n - 1][ch])->Some_0)));
            assert forall|i: int|
                0 <= i < n && classify_bits(raw[i][ch]) is Some implies exists|t: int|
                0 <= t < cur.len() && #[trigger] cur[t] == (
                (i as usize),
                classify_bits(raw[i][ch])->Some_0,
            ) by {
                if i < n - 1 {
                    let t0 = choose|t0: int|
                        0 <= t0 < prev.len() && prev[t0] == (
                        (i as usize),
                        classify_bits(raw[i][ch])->Some_0,
                        );
                    assert(cur[t0] == ((i as usize), classify_bits(raw[i][ch])->Some_0));
                } else {
                    assert(cur[cur.len() - 1] == ((i as usize), classify_bits(raw[i][ch])->Some_0));
                }
            }
        } else {
            assert(cur =~= prev);
        }
    }
}

/// Tick the unit through the pre-roll input, discarding every output.
/// Only the unit's internal state changes.
pub fn run_warmup<U: Unit>(unit: &mut U, data: &Vec<Vec<u32>>, count: usize)
    requires
        data.deep_view().len() == old(unit).spec_inputs(),
        forall|ch: int|
            0 <= ch < data.deep_view().len() ==> (#[trigger] data.deep_view()[ch]).len() == count,
    ensures
        *final(unit) == state_after(*old(unit), frames_of(data.deep_view(), count as nat)),
{
    let ghost dv = data.deep_view();
    let ghost u0 = *unit;
    let ghost frames = frames_of(dv, count as nat);
    let mut i: usize = 0;
    while i < count
        invariant
            i <= count,
            u0 == *old(unit),
            dv == data.deep_view(),
            dv.len() == u0.spec_inputs(),
            forall|ch: int| 0 <= ch < dv.len() ==> (#[trigger] dv[ch]).len() == count,
            frames == frames_of(dv, count as nat),
            *unit == state_after(u0, frames.take(i as int)),
        decreases count - i,
    {
        proof {
            crate::unit::lemma_run_arity(u0, frames.take(i as int));
            assert(frames[i as int] =~= frame_of(dv, i as int));
            assert(frames.take(i as int).push(frames[i as int]) =~= frames.take(i + 1));
            crate::unit::lemma_run_snoc(u0, frames.take(i as int), frames[i as int]);
        }
        let frame = input_frame(data, i);
        let _discarded = unit.tick(&frame);
        i += 1;
    }
    proof {
        assert(frames.take(count as int) =~= frames);
    }
}

/// A capture in progress, fed by an outside driver one output frame or
/// one output chunk at a time.
///
/// The session owns the engine's whole checking policy: it classifies
/// every ingested value, fails fast on the first abnormal value in
/// processing order when abnormal samples are not allowed, and assembles
/// the capture.  A driver only moves raw frames between its unit and the
/// session, so everything the session states holds whatever the unit
/// returned.
pub struct CaptureSession {
    /// Number of output channels of the captured unit.
    pub width: usize,
    /// Whether abnormal samples are permitted.
    pub allow: bool,
    /// The raw output frames ingested so far, in tick order.
    pub raw_frames: Vec<Vec<u32>>,
}

impl CaptureSession {
    /// The raw output run ingested so far.
    pub open spec fn raw(&self) -> Seq<Seq<u32>> {
        self.raw_frames.deep_view()
    }

    /// Every ingested frame is full, and when abnormal samples are not
    /// allowed every ingested frame is clean.
    pub open spec fn wf(&self) -> bool {
        &&& forall|j: int|
            0 <= j < self.raw().len() ==> (#[trigger] self.raw()[j]).len() == self.width
        &&& !self.allow ==> forall|j: int|
            0 <= j < self.raw().len() ==> first_abnormal_in_frame(
                #[trigger] self.raw()[j],
                0,
            ) is None
    }

    /// Open a capture session.
    pub fn new(width: usize, allow: bool) -> (s: CaptureSession)
        ensures
            s.width == width,
            s.allow == allow,
            s.raw().len() == 0,
            s.wf(),
    {
        let s = CaptureSession { width, allow, raw_frames: Vec::new() };
        proof {
            assert(s.raw() =~~= Seq::<Seq<u32>>::empty());
        }
        s
    }

    /// Ingest one output frame, checking every value.  When abnormal
    /// samples are not allowed, the first abnormal channel of the frame
    /// fails the run with the frame's absolute sample index; the session
    /// is unchanged.
    pub fn ingest_frame(&mut self, frame: Vec<u32>) -> (r: Result<(), SnapshotError>)
        requires
            old(self).wf(),
            frame@.len() == old(self).width,
        ensures
            final(self).width == old(self).width,
            final(self).allow == old(self).allow,
            final(self).wf(),
            r is Err <==> !old(self).allow && first_abnormal_in_frame(frame@, 0) is Some,
            match r {
                Ok(()) => final(self).raw() == old(self).raw().push(frame@),
                Err(e) => *final(self) == *old(self) && e == (SnapshotError::AbnormalSampleFatal {
                    channel: first_abnormal_in_frame(frame@, 0)->Some_0 as usize,
                    index: old(self).raw().len() as usize,
                    kind: classify_bits(
                        frame@[first_abnormal_in_frame(frame@, 0)->Some_0],
                    )->Some_0,
                }),
            },
    {
        if !self.allow {
            if let Some((ch, k)) = scan_frame(&frame) {
                let index = self.raw_frames.len();
                return Err(SnapshotError::AbnormalSampleFatal { channel: ch, index, kind: k });
            }
        }
        let ghost pre = self.raw();
        let ghost fv = frame@;
        self.raw_frames.push(frame);
        proof {
            assert(self.raw() =~~= pre.push(fv));
        }
        Ok(())
    }

    /// Ingest one chunk of output frames (outer index is time), checking
    /// every value in buffered order: channels in order, samples in order
    /// within a channel.  When abnormal samples are not allowed, the
    /// first abnormal value of the chunk fails the run with its absolute
    /// sample index; the session is unchanged.
    pub fn ingest_chunk(&mut self, chunk: Vec<Vec<u32>>) -> (r: Result<(), SnapshotError>)
        requires
            old(self).wf(),
            old(self).raw().len() + chunk.deep_view().len() <= usize::MAX,
            forall|j: int|
                0 <= j < chunk.deep_view().len() ==> (#[trigger] chunk.deep_view()[j]).len()
                    == old(self).width,
        ensures
            final(self).width == old(self).width,
            final(self).allow == old(self).allow,
            forall|j: int|
                0 <= j < final(self).raw().len() ==> (#[trigger] final(self).raw()[j]).len()
                    == final(self).width,
            r is Err <==> !old(self).allow && first_abn_in_chunk(
                chunk.deep_view(),
                old(self).width as nat,
                0,
                chunk.deep_view().len() as int,
                0,
            ) is Some,
            match r {
                Ok(()) => final(self).raw() == old(self).raw() + chunk.deep_view()
                    && final(self).wf(),
                Err(e) => *final(self) == *old(self) && ({
                    let p = first_abn_in_chunk(
                        chunk.deep_view(),
                        old(self).width as nat,
                        0,
                        chunk.deep_view().len() as int,
                        0,
                    )->Some_0;
                    e == (SnapshotError::AbnormalSampleFatal {
                        channel: p.1 as usize,
                        index: (old(self).raw().len() + p.0) as usize,
                        kind: classify_bits(chunk.deep_view()[p.0][p.1])->Some_0,
                    })
                }),
            },
    {
        let ghost cdv = chunk.deep_view();
        if !self.allow {
            if let Some((j_local, ch, k)) = scan_chunk(&chunk, self.width) {
                let index = self.raw_frames.len() + j_local;
                return Err(SnapshotError::AbnormalSampleFatal { channel: ch, index, kind: k });
            }
        }
        proof {
            if !self.allow {
                lemma_chunk_none_all(cdv, self.width as nat, 0, cdv.len() as int, 0);
                assert forall|j: int|
                    0 <= j < cdv.len() implies first_abnormal_in_frame(
                    #[trigger] cdv[j],
                    0,
                ) is None by {
                    lemma_col_all_none_frame(cdv, self.width as nat, j);
                }
            }
            assert(self.raw() =~~= self.raw() + cdv.take(0));
        }
        let ghost pre = self.raw();
        let mut t: usize = 0;
        while t < chunk.len()
            invariant
                t <= chunk@.len(),
                cdv == chunk.deep_view(),
                self.width == old(self).width,
                self.allow == old(self).allow,
                forall|j: int| 0 <= j < cdv.len() ==> (#[trigger] cdv[j]).len() == self.width,
                !self.allow ==> forall|j: int|
                    0 <= j < cdv.len() ==> first_abnormal_in_frame(#[trigger] cdv[j], 0) is None,
                !self.allow ==> forall|j: int|
                    0 <= j < pre.len() ==> first_abnormal_in_frame(#[trigger] pre[j], 0) is None,
                forall|j: int| 0 <= j < pre.len() ==> (#[trigger] pre[j]).len() == self.width,
                self.raw() =~~= pre + cdv.take(t as int),
            decreases chunk@.len() - t,
        {
            let row = copy_frame(&chunk, t);
            let ghost pre_raw = self.raw();
            self.raw_frames.push(row);
            t += 1;
            proof {
                assert(self.raw() =~~= pre_raw.push(cdv[t - 1]));
                assert(self.raw() =~~= pre + cdv.take(t as int));
            }
        }
        proof {
            assert(cdv.take(cdv.len() as int) =~= cdv);
            assert(self.raw() =~= pre + cdv);
        }
        Ok(())
    }

    /// Finish the capture: the substituted output columns and the
    /// abnormal markers of everything ingested.
    pub fn finish(self) -> (c: Capture)
        requires
            forall|j: int|
                0 <= j < self.raw().len() ==> (#[trigger] self.raw()[j]).len() == self.width,
        ensures
            c.matches(self.raw(), self.width as nat),
    {
        proof {
            assert forall|j: int|
                0 <= j < self.raw_frames.deep_view().len() implies (#[trigger] self
                .raw_frames
                .deep_view()[j]).len() == self.width by {
                assert(self.raw()[j].len() == self.width);
            }
        }
        collect_capture(&self.raw_frames, self.width)
    }
}

/// In a frame of a run where every column up to `width` is clean and the
/// frame has width `width`, the frame scan finds nothing.
proof fn lemma_col_all_none_frame(raw: Seq<Seq<u32>>, width: nat, j: int)
    requires
        0 <= j < raw.len(),
        raw[j].len() == width,
        forall|c: int|
            0 <= c < width ==> #[trigger] first_abn_in_col(raw, c, 0, raw.len() as int) is None,
    ensures
        first_abnormal_in_frame(raw[j], 0) is None,
{
    assert forall|c: int| 0 <= c < raw[j].len() implies classify_bits(
        #[trigger] raw[j][c],
    ) is None by {
        lemma_col_none_all(raw, c, 0, raw.len() as int);
    }
    lemma_first_in_frame_miss(raw[j], 0);
}

} // verus!
