use fundsp::audiounit::AudioUnit;
use fundsp::buffer::BufferVec;
use fundsp::prelude::{lowpass_hz, pass, resonator_hz, sine_hz};

use insta_fun::config::{Processing, SnapshotConfig, SnapshotConfigBuilder};
use insta_fun::engine::{Capture, CaptureSession};
use insta_fun::error::SnapshotError;
use insta_fun::input::InputSource;
use insta_fun::warmup::WarmUp;

/// Drive a fundsp unit through the verified pipeline: materialize input,
/// warm up, then feed every raw output frame into a capture session.
/// Samples cross into the library as 32-bit float bit patterns.
fn run_fundsp(
    unit: &mut dyn AudioUnit,
    source: &InputSource,
    config: &SnapshotConfig,
) -> Result<(Vec<Vec<u32>>, Capture), SnapshotError> {
    let ni = unit.inputs();
    let width = unit.outputs();
    unit.set_sample_rate(config.sample_rate as f64);
    unit.reset();
    unit.allocate();
    let input_data = source.make_data(ni, config.num_samples)?;
    let warm = config.warm_up.warm_up_samples(config.sample_rate, ni)?;
    let warm_n = warm.first().map(|r| r.len()).unwrap_or(0);
    for i in 0..warm_n {
        let fin: Vec<f32> = (0..ni).map(|ch| f32::from_bits(warm[ch][i])).collect();
        let mut fout = vec![0f32; width];
        unit.tick(&fin, &mut fout);
    }
    let mut session = CaptureSession::new(width, config.allow_abnormal_samples);
    match config.processing_mode {
        Processing::Tick => {
            for i in 0..config.num_samples {
                let fin: Vec<f32> =
                    (0..ni).map(|ch| f32::from_bits(input_data[ch][i])).collect();
                let mut fout = vec![0f32; width];
                unit.tick(&fin, &mut fout);
                session.ingest_frame(fout.iter().map(|v| v.to_bits()).collect())?;
            }
        }
        Processing::Batch(chunk) => {
            let chunk = chunk as usize;
            let mut start = 0;
            while start < config.num_samples {
                let len = chunk.min(config.num_samples - start);
                let mut ibuf = BufferVec::new(ni);
                for j in 0..len {
                    for ch in 0..ni {
                        ibuf.set_f32(ch, j, f32::from_bits(input_data[ch][start + j]));
                    }
                }
                let mut obuf = BufferVec::new(width);
                unit.process(len, &ibuf.buffer_ref(), &mut obuf.buffer_mut());
                let frames: Vec<Vec<u32>> = (0..len)
                    .map(|j| (0..width).map(|ch| obuf.at_f32(ch, j).to_bits()).collect())
                    .collect();
                session.ingest_chunk(frames)?;
                start += len;
            }
        }
    }
    Ok((input_data, session.finish()))
}

#[test]
fn test_sine() {
    let config = SnapshotConfigBuilder::default().build().unwrap();
    let mut unit = sine_hz::<f32>(440.0);
    let (_input, capture) =
        run_fundsp(&mut unit, &InputSource::Silence, &config).expect("sine run");
    assert_eq!(capture.output_data.len(), 1);
    assert_eq!(capture.output_data[0].len(), 1024);
    assert!(capture.abnormalities[0].is_empty());

    // The captured run is bit-exact against driving fundsp directly.
    let mut reference = sine_hz::<f32>(440.0);
    AudioUnit::set_sample_rate(&mut reference, 44_100.0);
    AudioUnit::reset(&mut reference);
    AudioUnit::allocate(&mut reference);
    for i in 0..1024 {
        let mut out = [0f32; 1];
        AudioUnit::tick(&mut reference, &[], &mut out);
        assert_eq!(capture.output_data[0][i], out[0].to_bits(), "sample {i}");
    }
}

#[test]
fn test_custom_input() {
    let config = SnapshotConfigBuilder::default().num_samples(100).build().unwrap();
    let input: Vec<u32> = (0..100).map(|i| ((i as f32 / 50.0).sin()).to_bits()).collect();
    let mut unit = lowpass_hz::<f32>(500.0, 0.7);
    let (input_data, capture) = run_fundsp(
        &mut unit,
        &InputSource::VecByChannel(vec![input.clone()]),
        &config,
    )
    .expect("lowpass run");
    assert_eq!(input_data, vec![input]);
    assert_eq!(capture.output_data[0].len(), 100);
}

#[test]
fn test_batch_prcessing() {
    // The buffered discipline captures fundsp's own buffered output bit
    // for bit, with absolute sample indices intact.
    let batch_config = SnapshotConfigBuilder::default()
        .processing_mode(Processing::Batch(64))
        .build()
        .unwrap();
    let mut batch_unit = sine_hz::<f32>(440.0);
    let (_, batch_run) =
        run_fundsp(&mut batch_unit, &InputSource::Silence, &batch_config).expect("batch run");
    assert_eq!(batch_run.output_data.len(), 1);
    assert_eq!(batch_run.output_data[0].len(), 1024);

    let mut reference = sine_hz::<f32>(440.0);
    AudioUnit::set_sample_rate(&mut reference, 44_100.0);
    AudioUnit::reset(&mut reference);
    AudioUnit::allocate(&mut reference);
    let mut start = 0;
    while start < 1024 {
        let ibuf = BufferVec::new(0);
        let mut obuf = BufferVec::new(1);
        AudioUnit::process(&mut reference, 64, &ibuf.buffer_ref(), &mut obuf.buffer_mut());
        for j in 0..64 {
            assert_eq!(
                batch_run.output_data[0][start + j],
                obuf.at_f32(0, j).to_bits(),
                "sample {}",
                start + j
            );
        }
        start += 64;
    }
}

#[test]
fn test_vec_by_tick() {
    let config = SnapshotConfigBuilder::default().num_samples(100).build().unwrap();
    // Input data organized by ticks: 100 ticks of one channel each.
    let ticks: Vec<Vec<u32>> = (0..100).map(|i| vec![((i as f32 / 50.0).cos()).to_bits()]).collect();
    let mut unit = lowpass_hz::<f32>(800.0, 0.5);
    let (input_data, capture) =
        run_fundsp(&mut unit, &InputSource::VecByTick(ticks.clone()), &config)
            .expect("tick-major run");
    // The materializer transposes tick-major data into channel-major form.
    let expected: Vec<u32> = ticks.iter().map(|t| t[0]).collect();
    assert_eq!(input_data, vec![expected]);
    assert_eq!(capture.output_data[0].len(), 100);
}

#[test]
fn test_stereo() {
    let config = SnapshotConfigBuilder::default().build().unwrap();
    let mut unit = sine_hz::<f32>(440.0) | sine_hz::<f32>(880.0);
    let (_, capture) =
        run_fundsp(&mut unit, &InputSource::Silence, &config).expect("stereo run");
    assert_eq!(capture.output_data.len(), 2);
    assert!(capture.output_data.iter().all(|row| row.len() == 1024));
}

#[test]
fn test_flat_input() {
    let config = SnapshotConfigBuilder::default().num_samples(200).build().unwrap();
    let mut unit = pass();
    let flat = 0.5f32.to_bits();
    let (input_data, capture) =
        run_fundsp(&mut unit, &InputSource::Flat(vec![flat]), &config).expect("flat input run");
    assert_eq!(input_data, vec![vec![flat; 200]]);
    // A pass-through unit reproduces its flat input.
    assert_eq!(capture.output_data, vec![vec![flat; 200]]);
}

#[test]
fn test_warmup_none() {
    let config = SnapshotConfigBuilder::default()
        .warm_up(WarmUp::Off)
        .num_samples(256)
        .build()
        .unwrap();
    let impulse: Vec<u32> = (0..256).map(|i| if i == 0 { 1f32.to_bits() } else { 0 }).collect();
    let mut unit = lowpass_hz::<f32>(500.0, 0.8);
    let (_, capture) = run_fundsp(&mut unit, &InputSource::VecByChannel(vec![impulse]), &config)
        .expect("no warmup run");
    assert_eq!(capture.output_data[0].len(), 256);
}

#[test]
fn test_warmup_samples() {
    // Warming the filter with silence settles it: the warmed run matches
    // a unit manually ticked through the same pre-roll.
    let impulse: Vec<u32> = (0..64).map(|i| if i == 0 { 1f32.to_bits() } else { 0 }).collect();
    let config = SnapshotConfigBuilder::default()
        .warm_up(WarmUp::Samples(1000))
        .num_samples(64)
        .build()
        .unwrap();
    let mut unit = lowpass_hz::<f32>(500.0, 0.8);
    let (_, warmed) =
        run_fundsp(&mut unit, &InputSource::VecByChannel(vec![impulse.clone()]), &config)
            .expect("warmup run");

    let mut reference = lowpass_hz::<f32>(500.0, 0.8);
    AudioUnit::set_sample_rate(&mut reference, 44_100.0);
    AudioUnit::reset(&mut reference);
    AudioUnit::allocate(&mut reference);
    for _ in 0..1000 {
        let mut out = [0f32; 1];
        AudioUnit::tick(&mut reference, &[0.0], &mut out);
    }
    for i in 0..64 {
        let mut out = [0f32; 1];
        AudioUnit::tick(&mut reference, &[f32::from_bits(impulse[i])], &mut out);
        assert_eq!(warmed.output_data[0][i], out[0].to_bits(), "sample {i}");
    }
}

#[test]
fn test_warmup_seconds() {
    let config = SnapshotConfigBuilder::default()
        .warm_up(WarmUp::Seconds { micros: 10_000 })
        .num_samples(600)
        .build()
        .unwrap();
    let mut unit = lowpass_hz::<f32>(500.0, 0.8);
    let (_, capture) =
        run_fundsp(&mut unit, &InputSource::Silence, &config).expect("timed warmup run");
    assert_eq!(capture.output_data[0].len(), 600);
}

#[test]
fn test_warmup_samples_with_input() {
    let impulse: Vec<u32> = (0..128).map(|i| if i == 0 { 1f32.to_bits() } else { 0 }).collect();
    let config = SnapshotConfigBuilder::default()
        .warm_up(WarmUp::SamplesWithInput {
            samples: 128,
            input: InputSource::VecByChannel(vec![impulse]),
        })
        .num_samples(256)
        .build()
        .unwrap();
    let capture_input: Vec<u32> =
        (0..256).map(|i| if i == 0 { 1f32.to_bits() } else { 0 }).collect();
    let mut unit = resonator_hz::<f32>(440.0, 50.0);
    let (_, capture) = run_fundsp(
        &mut unit,
        &InputSource::VecByChannel(vec![capture_input]),
        &config,
    )
    .expect("warmup with input run");
    assert_eq!(capture.output_data[0].len(), 256);
}
