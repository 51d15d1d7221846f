use insta_fun::abnormal::AbnormalSample;
use insta_fun::config::{Processing, SnapshotConfigBuilder};
use insta_fun::error::SnapshotError;
use insta_fun::input::{make_data_from_generator, make_data_from_unit, ImpulseGenerator, InputSource};
use insta_fun::snapshot::run_snapshot;
use insta_fun::units::{DelayUnit, MultiSeqUnit, PassUnit, SeqUnit};
use insta_fun::warmup::WarmUp;

fn bits(v: f32) -> u32 {
    v.to_bits()
}

/// The abnormal-sample fixture: NaN at indices divisible by 15, negative
/// infinity at indices divisible by 3 (not 15), positive infinity at
/// indices divisible by 5 (not 15), the index itself elsewhere.
fn abnormal_fixture(n: usize) -> Vec<u32> {
    (0..n)
        .map(|i| {
            if i % 3 == 0 && i % 5 == 0 {
                bits(f32::NAN)
            } else if i % 3 == 0 {
                bits(f32::NEG_INFINITY)
            } else if i % 5 == 0 {
                bits(f32::INFINITY)
            } else {
                bits(i as f32)
            }
        })
        .collect()
}

#[test]
fn impulse_end_to_end() {
    // A unit with no inputs and one output playing 1.0, 0.0, 0.0, 0.0.
    let samples = vec![bits(1.0), bits(0.0), bits(0.0), bits(0.0)];
    let mut unit = SeqUnit::new(samples.clone());
    let config = SnapshotConfigBuilder::default().num_samples(4).build().unwrap();
    let data = run_snapshot(&mut unit, &InputSource::Silence, &config).expect("impulse run");
    assert_eq!(data.capture.output_data, vec![samples]);
    assert_eq!(data.capture.abnormalities, vec![vec![]]);
    let chart = match config.output_mode {
        insta_fun::config::SnapshotOutputMode::SvgChart(c) => c,
        _ => unreachable!(),
    };
    let plan = insta_fun::chart::plan_chart(
        &data.input_data,
        &data.capture.output_data,
        &data.capture.abnormalities,
        &chart,
        4,
    );
    assert!(matches!(plan, insta_fun::chart::ChartPlan::Draw(_)));
}

#[test]
fn test_abnormal_allowed() {
    let fixture = abnormal_fixture(800);
    let mut unit = PassUnit::new(1);
    let config = SnapshotConfigBuilder::default()
        .allow_abnormal_samples(true)
        .num_samples(800)
        .build()
        .unwrap();
    let source = InputSource::VecByChannel(vec![fixture.clone()]);
    let data = run_snapshot(&mut unit, &source, &config).expect("abnormal samples are allowed");

    let mut expected_marks: Vec<(usize, AbnormalSample)> = Vec::new();
    for i in 0..800usize {
        let captured = data.capture.output_data[0][i];
        if i % 3 == 0 && i % 5 == 0 {
            expected_marks.push((i, AbnormalSample::Nan));
            assert_eq!(captured, 0, "NaN at {i} must capture as 0.0");
        } else if i % 3 == 0 {
            expected_marks.push((i, AbnormalSample::NegInf));
            assert_eq!(captured, 0, "-inf at {i} must capture as 0.0");
        } else if i % 5 == 0 {
            expected_marks.push((i, AbnormalSample::PosInf));
            assert_eq!(captured, 0, "+inf at {i} must capture as 0.0");
        } else {
            assert_eq!(captured, fixture[i]);
        }
    }
    assert_eq!(data.capture.abnormalities, vec![expected_marks]);
}

#[test]
fn abnormal_disallowed_reports_first() {
    let fixture = abnormal_fixture(800);
    let mut unit = PassUnit::new(1);
    let config = SnapshotConfigBuilder::default()
        .allow_abnormal_samples(false)
        .num_samples(800)
        .build()
        .unwrap();
    let source = InputSource::VecByChannel(vec![fixture]);
    let err = run_snapshot(&mut unit, &source, &config).unwrap_err();
    assert_eq!(
        err,
        SnapshotError::AbnormalSampleFatal { channel: 0, index: 0, kind: AbnormalSample::Nan }
    );
}

#[test]
#[should_panic]
fn test_abnormal_disallowed_panic() {
    let fixture = abnormal_fixture(800);
    let mut unit = PassUnit::new(1);
    let config = SnapshotConfigBuilder::default()
        .allow_abnormal_samples(false)
        .num_samples(800)
        .build()
        .unwrap();
    let source = InputSource::VecByChannel(vec![fixture]);
    run_snapshot(&mut unit, &source, &config).unwrap();
}

#[test]
fn tick_and_batch_agree() {
    // Identical unit, input and sample count under both disciplines, for
    // several chunk sizes, including ones that do not divide the total.
    let fixture = abnormal_fixture(200);
    let second: Vec<u32> = (0..200).map(|i| bits((i as f32) * 0.25 - 10.0)).collect();
    let source = InputSource::VecByChannel(vec![fixture, second]);
    let tick_config = SnapshotConfigBuilder::default()
        .allow_abnormal_samples(true)
        .num_samples(200)
        .build()
        .unwrap();
    let mut unit = PassUnit::new(2);
    let tick_run = run_snapshot(&mut unit, &source, &tick_config).expect("tick run");
    for chunk in [1u8, 7, 64] {
        let batch_config = SnapshotConfigBuilder::default()
            .allow_abnormal_samples(true)
            .num_samples(200)
            .processing_mode(Processing::Batch(chunk))
            .build()
            .unwrap();
        let mut unit = PassUnit::new(2);
        let batch_run = run_snapshot(&mut unit, &source, &batch_config).expect("batch run");
        assert_eq!(tick_run.capture.output_data, batch_run.capture.output_data);
        assert_eq!(tick_run.capture.abnormalities, batch_run.capture.abnormalities);
    }
}

#[test]
fn driver_channel_count_equal() {
    let samples = vec![bits(0.5), bits(-0.25), bits(3.0)];
    let mut driver = SeqUnit::new(samples.clone());
    let data = make_data_from_unit(&mut driver, 1, 3);
    assert_eq!(data, vec![samples]);
}

#[test]
fn driver_fewer_outputs_pads_with_silence() {
    let samples = vec![bits(0.5), bits(-0.25), bits(3.0)];
    let mut driver = SeqUnit::new(samples.clone());
    let data = make_data_from_unit(&mut driver, 3, 3);
    assert_eq!(data, vec![samples, vec![0, 0, 0], vec![0, 0, 0]]);
}

#[test]
fn driver_more_outputs_drops_excess() {
    // A driving unit with two outputs mapped onto one requested channel:
    // the retained channel is unaffected.
    let a = vec![bits(1.0), bits(2.0)];
    let b = vec![bits(9.0), bits(8.0)];
    let mut driver = MultiSeqUnit::new(vec![a.clone(), b]);
    let data = make_data_from_unit(&mut driver, 1, 2);
    assert_eq!(data, vec![a]);
}

#[test]
fn generator_is_a_function_of_indices() {
    let data = make_data_from_generator(&ImpulseGenerator, 2, 3);
    assert_eq!(data, vec![vec![bits(1.0), 0, 0], vec![bits(1.0), 0, 0]]);
}

#[test]
fn make_data_shapes() {
    // Every variant materializes to num_inputs rows of num_samples each.
    let sources = [
        InputSource::Silence,
        InputSource::VecByChannel(vec![vec![1, 2, 3], vec![4, 5, 6]]),
        InputSource::VecByTick(vec![vec![1, 4], vec![2, 5], vec![3, 6]]),
        InputSource::Flat(vec![7, 8]),
    ];
    for source in sources {
        let data = source.make_data(2, 3).expect("valid shape");
        assert_eq!(data.len(), 2);
        assert!(data.iter().all(|row| row.len() == 3));
    }
}

#[test]
fn make_data_transposes_ticks() {
    let source = InputSource::VecByTick(vec![vec![1, 4], vec![2, 5], vec![3, 6]]);
    let data = source.make_data(2, 3).unwrap();
    assert_eq!(data, vec![vec![1, 2, 3], vec![4, 5, 6]]);
}

#[test]
fn make_data_broadcasts_flat() {
    let source = InputSource::Flat(vec![7, 8]);
    let data = source.make_data(2, 3).unwrap();
    assert_eq!(data, vec![vec![7, 7, 7], vec![8, 8, 8]]);
}

#[test]
fn make_data_rejects_wrong_channel_count() {
    let source = InputSource::VecByChannel(vec![vec![1, 2, 3]]);
    let err = source.make_data(2, 3).unwrap_err();
    assert_eq!(err, SnapshotError::ShapeMismatch { expected: 2, actual: 1 });
}

#[test]
fn make_data_rejects_wrong_sample_count() {
    let source = InputSource::VecByChannel(vec![vec![1, 2, 3], vec![4, 5]]);
    let err = source.make_data(2, 3).unwrap_err();
    assert_eq!(err, SnapshotError::ShapeMismatch { expected: 3, actual: 2 });
}

#[test]
fn make_data_rejects_wrong_tick_width() {
    let source = InputSource::VecByTick(vec![vec![1, 2], vec![3]]);
    let err = source.make_data(2, 2).unwrap_err();
    assert_eq!(err, SnapshotError::ShapeMismatch { expected: 2, actual: 1 });
}

#[test]
fn warm_up_sample_counts() {
    let none = WarmUp::Off.warm_up_samples(44_100, 2).unwrap();
    assert_eq!(none, vec![vec![], vec![]]);

    let fixed = WarmUp::Samples(5).warm_up_samples(44_100, 1).unwrap();
    assert_eq!(fixed, vec![vec![0, 0, 0, 0, 0]]);

    // 10 milliseconds at 44.1 kHz round to 441 samples.
    let timed = WarmUp::Seconds { micros: 10_000 }.warm_up_samples(44_100, 1).unwrap();
    assert_eq!(timed.len(), 1);
    assert_eq!(timed[0].len(), 441);

    let with_input = WarmUp::SamplesWithInput {
        samples: 3,
        input: InputSource::Flat(vec![9]),
    }
    .warm_up_samples(44_100, 1)
    .unwrap();
    assert_eq!(with_input, vec![vec![9, 9, 9]]);
}

#[test]
fn zero_input_unit_gets_no_pre_roll() {
    // A unit that declares zero inputs receives no warm-up pre-roll, so
    // its capture starts from its initial state.
    let samples = vec![bits(1.0), bits(2.0), bits(3.0), bits(4.0)];
    let mut unit = SeqUnit::new(samples);
    let config = SnapshotConfigBuilder::default()
        .warm_up(WarmUp::Samples(2))
        .num_samples(2)
        .build()
        .unwrap();
    let data = run_snapshot(&mut unit, &InputSource::Silence, &config).expect("warmup run");
    assert_eq!(data.capture.output_data, vec![vec![bits(1.0), bits(2.0)]]);
}

#[test]
fn warm_up_advances_unit_state() {
    // Warming a delaying unit with one sample of a flat source leaves
    // that sample in its state, so the first captured output carries it.
    let x = bits(0.75);
    let y = bits(-0.5);
    let mut unit = DelayUnit::new();
    let config = SnapshotConfigBuilder::default()
        .warm_up(WarmUp::SamplesWithInput { samples: 1, input: InputSource::Flat(vec![x]) })
        .num_samples(2)
        .build()
        .unwrap();
    let data =
        run_snapshot(&mut unit, &InputSource::Flat(vec![y]), &config).expect("warmup run");
    assert_eq!(data.capture.output_data, vec![vec![x, y]]);
}
