use insta_fun::config::{
    Processing, SnapshotConfig, SnapshotConfigBuilder, SnapshotOutputMode, SvgChartConfigBuilder,
    WavOutput,
};
use insta_fun::error::SnapshotError;

#[test]
fn test_default_builder() {
    SnapshotConfigBuilder::default()
        .build()
        .expect("defaul config builds");
}

#[test]
fn legacy_config_compat() {
    SnapshotConfigBuilder::default()
        .chart_title("Complete Waveform Test")
        .show_grid(true)
        .show_labels(true)
        .with_inputs(true)
        .output_color("#FF6B6B")
        .input_color("#95E77E")
        .background_color("#2C3E50")
        .line_width(3)
        .svg_width(1200)
        .svg_height_per_channel(120)
        .build()
        .expect("legacy config builds");
}

#[test]
fn default_config_values() {
    let c = SnapshotConfig::default();
    assert_eq!(c.sample_rate, 44_100);
    assert_eq!(c.num_samples, 1024);
    assert!(matches!(c.processing_mode, Processing::Tick));
    assert!(!c.allow_abnormal_samples);
    match c.output_mode {
        SnapshotOutputMode::SvgChart(chart) => {
            assert_eq!(chart.svg_height_per_channel, 500);
            assert_eq!(chart.background_color, "#000000");
            assert_eq!(chart.line_width, 2);
            assert_eq!(chart.max_labels_x_axis, Some(5));
            assert!(chart.show_labels);
            assert!(!chart.show_grid);
            assert!(!chart.with_inputs);
        }
        SnapshotOutputMode::Wav(_) => panic!("default output mode must be a chart"),
    }
}

#[test]
fn build_rejects_zero_chunk() {
    let r = SnapshotConfigBuilder::default()
        .processing_mode(Processing::Batch(0))
        .build();
    assert_eq!(r.unwrap_err(), SnapshotError::BuildMismatch { chunk_size: 0 });
}

#[test]
fn build_rejects_oversized_chunk() {
    let r = SnapshotConfigBuilder::default()
        .processing_mode(Processing::Batch(65))
        .build();
    assert_eq!(r.unwrap_err(), SnapshotError::BuildMismatch { chunk_size: 65 });
}

#[test]
fn build_accepts_max_chunk() {
    let c = SnapshotConfigBuilder::default()
        .processing_mode(Processing::Batch(64))
        .build()
        .expect("chunk of 64 builds");
    assert!(matches!(c.processing_mode, Processing::Batch(64)));
}

#[test]
fn wav_output_discards_chart_settings() {
    let c = SnapshotConfigBuilder::default()
        .chart_title("gone")
        .output_mode(SnapshotOutputMode::Wav(WavOutput::Wav16))
        .build()
        .expect("wav config builds");
    assert!(matches!(c.output_mode, SnapshotOutputMode::Wav(WavOutput::Wav16)));
}

#[test]
fn chart_setter_after_wav_restores_default_chart() {
    let c = SnapshotConfigBuilder::default()
        .chart_title("gone")
        .output_mode(SnapshotOutputMode::Wav(WavOutput::Wav16))
        .show_grid(true)
        .build()
        .expect("chart config builds");
    match c.output_mode {
        SnapshotOutputMode::SvgChart(chart) => {
            assert!(chart.show_grid);
            assert_eq!(chart.chart_title, None);
        }
        SnapshotOutputMode::Wav(_) => panic!("chart setter must switch back to chart output"),
    }
}

#[test]
fn svg_chart_builder_collects_settings() {
    let chart = SvgChartConfigBuilder::default()
        .with_inputs(true)
        .output_color("#FF0000")
        .output_color("#00FF00")
        .input_title("left")
        .build()
        .expect("chart builds");
    assert!(chart.with_inputs);
    assert_eq!(
        chart.output_colors,
        Some(vec!["#FF0000".to_string(), "#00FF00".to_string()])
    );
    assert_eq!(chart.input_titles, vec!["left".to_string()]);
}

#[test]
fn file_name_uses_name_then_title() {
    let c = SnapshotConfigBuilder::default()
        .chart_title("my_title")
        .build()
        .unwrap();
    assert_eq!(c.file_name(Some("explicit")), "explicit.svg");
    assert_eq!(c.file_name(None), "my_title.svg");
    let plain = SnapshotConfig::default();
    assert_eq!(plain.file_name(None), ".svg");
    let wav = SnapshotConfigBuilder::default()
        .output_mode(SnapshotOutputMode::Wav(WavOutput::Wav32))
        .build()
        .unwrap();
    assert_eq!(wav.file_name(Some("audio")), "audio.wav");
    assert_eq!(wav.file_name(None), ".wav");
}

#[test]
fn maybe_title_fills_only_missing_title() {
    let mut c = SnapshotConfig::default();
    c.maybe_title("from_name");
    match &c.output_mode {
        SnapshotOutputMode::SvgChart(chart) => {
            assert_eq!(chart.chart_title.as_deref(), Some("from_name"));
        }
        SnapshotOutputMode::Wav(_) => panic!("default mode is a chart"),
    }
    c.maybe_title("second");
    match &c.output_mode {
        SnapshotOutputMode::SvgChart(chart) => {
            assert_eq!(chart.chart_title.as_deref(), Some("from_name"));
        }
        SnapshotOutputMode::Wav(_) => panic!("default mode is a chart"),
    }
}
