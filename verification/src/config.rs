//! Snapshot configuration: an immutable value object built once per
//! snapshot assertion, with grouped settings for execution and for
//! rendering, and a builder with defaults.
//!
//! The sample rate is carried in integer hertz and the waveform line width
//! in whole pixels, so that every derived quantity stays exact.

use vstd::prelude::*;

use crate::chart::Layout;
use crate::error::SnapshotError;
use crate::unit::MAX_CHUNK;
use crate::warmup::WarmUp;

verus! {

/// Default sample rate in hertz.
pub const DEFAULT_SAMPLE_RATE: u32 = 44_100;

/// Default number of captured samples.
pub const DEFAULT_NUM_SAMPLES: usize = 1024;

/// Default height of one channel's chart region.
pub const DEFAULT_HEIGHT: usize = 500;

/// Default waveform line width in pixels.
pub const DEFAULT_LINE_WIDTH: u32 = 2;

/// Processing discipline for driving the unit.
#[derive(Debug, Clone, Copy, Default, PartialEq, Eq, Structural)]
pub enum Processing {
    /// Process one sample at a time.
    #[default]
    Tick,
    /// Process a batch of samples at a time; the chunk size must be
    /// between 1 and [`MAX_CHUNK`].
    Batch(u8),
}

impl Processing {
    /// The discipline is usable: a batch chunk size is at least one frame
    /// and no larger than the supported maximum.
    pub open spec fn spec_valid(self) -> bool {
        match self {
            Processing::Tick => true,
            Processing::Batch(n) => 1 <= n && n <= MAX_CHUNK,
        }
    }
}

/// Bit depth of the audio artifact.
#[derive(Debug, Clone, Copy, PartialEq, Eq, Structural)]
pub enum WavOutput {
    Wav16,
    Wav32,
}

/// How a snapshot is rendered: a configurable chart for visual snapshots,
/// or a lossless audio container for audible snapshots.
#[derive(Debug, Clone)]
pub enum SnapshotOutputMode {
    SvgChart(SvgChartConfig),
    Wav(WavOutput),
}

/// Chart rendering configuration.
#[derive(Debug, Clone)]
pub struct SvgChartConfig {
    /// Whether to plot channels on separate charts or combined charts.
    pub chart_layout: Layout,
    /// Whether input channels are plotted in the chart.
    pub with_inputs: bool,
    /// Fixed width of the drawing; `None` means proportional to the
    /// number of samples.
    pub svg_width: Option<usize>,
    /// Height of one channel's chart region.
    pub svg_height_per_channel: usize,
    /// Whether to draw axis labels.
    pub show_labels: bool,
    /// Whether to format X axis labels as wall-clock time.
    pub format_x_axis_labels_as_time: bool,
    /// Maximum number of labels along the X axis.
    pub max_labels_x_axis: Option<usize>,
    /// Optional chart title.
    pub chart_title: Option<String>,
    /// Optional titles for output channels.
    pub output_titles: Vec<String>,
    /// Optional titles for input channels.
    pub input_titles: Vec<String>,
    /// Whether to draw grid lines.
    pub show_grid: bool,
    /// Waveform line width in pixels.
    pub line_width: u32,
    /// Background color as a hex string.
    pub background_color: String,
    /// Custom colors for output channels; `None` uses the default palette.
    pub output_colors: Option<Vec<String>>,
    /// Custom colors for input channels; `None` uses the default palette.
    pub input_colors: Option<Vec<String>>,
}

impl SvgChartConfig {
    /// The chart configuration holds its documented defaults.
    pub open spec fn spec_is_default(self) -> bool {
        &&& self.chart_layout == Layout::SeparateChannels
        &&& !self.with_inputs
        &&& self.svg_width is None
        &&& self.svg_height_per_channel == DEFAULT_HEIGHT
        &&& self.show_labels
        &&& !self.format_x_axis_labels_as_time
        &&& self.max_labels_x_axis == Some(5usize)
        &&& self.chart_title is None
        &&& self.output_titles@.len() == 0
        &&& self.input_titles@.len() == 0
        &&& !self.show_grid
        &&& self.line_width == DEFAULT_LINE_WIDTH
        &&& self.background_color@ == "#000000"@
        &&& self.output_colors is None
        &&& self.input_colors is None
    }
}

impl Default for SvgChartConfig {
    /// The documented chart defaults.
    fn default() -> (c: Self)
        ensures
            c.spec_is_default(),
    {
        SvgChartConfig {
            chart_layout: Layout::SeparateChannels,
            with_inputs: false,
            svg_width: None,
            svg_height_per_channel: DEFAULT_HEIGHT,
            show_labels: true,
            format_x_axis_labels_as_time: false,
            max_labels_x_axis: Some(5),
            chart_title: None,
            output_titles: Vec::new(),
            input_titles: Vec::new(),
            show_grid: false,
            line_width: DEFAULT_LINE_WIDTH,
            background_color: "#000000".to_owned(),
            output_colors: None,
            input_colors: None,
        }
    }
}

/// Configuration for snapshotting a unit.
#[derive(Debug, Clone)]
pub struct SnapshotConfig {
    /// Sample rate of the unit, in hertz.
    pub sample_rate: u32,
    /// Number of samples to capture.
    pub num_samples: usize,
    /// Processing discipline.
    pub processing_mode: Processing,
    /// Warm-up policy.
    pub warm_up: WarmUp,
    /// Whether abnormal samples are permitted: when on, they are replaced
    /// by 0.0 in the captured output and annotated; when off, the first
    /// abnormal sample fails the run.
    pub allow_abnormal_samples: bool,
    /// How the snapshot is rendered.
    pub output_mode: SnapshotOutputMode,
}

impl SnapshotConfig {
    /// The execution settings hold their documented defaults.
    pub open spec fn spec_is_default(self) -> bool {
        &&& self.sample_rate == DEFAULT_SAMPLE_RATE
        &&& self.num_samples == DEFAULT_NUM_SAMPLES
        &&& self.processing_mode == Processing::Tick
        &&& self.warm_up is Off
        &&& !self.allow_abnormal_samples
        &&& self.output_mode matches SnapshotOutputMode::SvgChart(c) && c.spec_is_default()
    }
}

impl Default for SnapshotConfig {
    /// The documented execution and rendering defaults.
    fn default() -> (c: Self)
        ensures
            c.spec_is_default(),
    {
        SnapshotConfig {
            sample_rate: DEFAULT_SAMPLE_RATE,
            num_samples: DEFAULT_NUM_SAMPLES,
            processing_mode: Processing::Tick,
            warm_up: WarmUp::Off,
            allow_abnormal_samples: false,
            output_mode: SnapshotOutputMode::SvgChart(SvgChartConfig::default()),
        }
    }
}

/// Builder for [`SvgChartConfig`], starting from the documented defaults.
#[derive(Debug, Clone)]
pub struct SvgChartConfigBuilder {
    /// The chart configuration assembled so far.
    pub c: SvgChartConfig,
}

impl Default for SvgChartConfigBuilder {
    /// A builder holding the documented chart defaults.
    fn default() -> (b: Self)
        ensures
            b.c.spec_is_default(),
    {
        SvgChartConfigBuilder { c: SvgChartConfig::default() }
    }
}

impl SvgChartConfigBuilder {
    /// Finish the builder; a chart configuration has no invariants to
    /// violate, so building always succeeds.
    pub fn build(self) -> (r: Result<SvgChartConfig, SnapshotError>)
        ensures
            r == Result::<SvgChartConfig, SnapshotError>::Ok(self.c),
    {
        Ok(self.c)
    }

    /// Set the chart layout.
    pub fn chart_layout(self, value: Layout) -> (r: Self)
        ensures
            r.c == (SvgChartConfig { chart_layout: value, ..self.c }),
    {
        let mut b = self;
        b.c.chart_layout = value;
        b
    }

    /// Include inputs in the chart.
    pub fn with_inputs(self, value: bool) -> (r: Self)
        ensures
            r.c == (SvgChartConfig { with_inputs: value, ..self.c }),
    {
        let mut b = self;
        b.c.with_inputs = value;
        b
    }

    /// Set a fixed drawing width.
    pub fn svg_width(self, value: usize) -> (r: Self)
        ensures
            r.c == (SvgChartConfig { svg_width: Some(value), ..self.c }),
    {
        let mut b = self;
        b.c.svg_width = Some(value);
        b
    }

    /// Set the height of one channel's chart region.
    pub fn svg_height_per_channel(self, value: usize) -> (r: Self)
        ensures
            r.c == (SvgChartConfig { svg_height_per_channel: value, ..self.c }),
    {
        let mut b = self;
        b.c.svg_height_per_channel = value;
        b
    }

    /// Toggle label visibility.
    pub fn show_labels(self, value: bool) -> (r: Self)
        ensures
            r.c == (SvgChartConfig { show_labels: value, ..self.c }),
    {
        let mut b = self;
        b.c.show_labels = value;
        b
    }

    /// Format X axis labels as time.
    pub fn format_x_axis_labels_as_time(self, value: bool) -> (r: Self)
        ensures
            r.c == (SvgChartConfig { format_x_axis_labels_as_time: value, ..self.c }),
    {
        let mut b = self;
        b.c.format_x_axis_labels_as_time = value;
        b
    }

    /// Set the maximum number of X axis labels.
    pub fn max_labels_x_axis(self, value: Option<usize>) -> (r: Self)
        ensures
            r.c == (SvgChartConfig { max_labels_x_axis: value, ..self.c }),
    {
        let mut b = self;
        b.c.max_labels_x_axis = value;
        b
    }

    /// Set the chart title.
    pub fn chart_title(self, value: &str) -> (r: Self)
        ensures
            r.c == (SvgChartConfig { chart_title: r.c.chart_title, ..self.c }),
            r.c.chart_title matches Some(t) && t@ == value@,
    {
        let mut b = self;
        b.c.chart_title = Some(value.to_owned());
        b
    }

    /// Append one output channel title.
    pub fn output_title(self, value: &str) -> (r: Self)
        ensures
            r.c == (SvgChartConfig { output_titles: r.c.output_titles, ..self.c }),
            r.c.output_titles.deep_view() == self.c.output_titles.deep_view().push(value@),
    {
        let mut b = self;
        let ghost pre = b.c.output_titles.deep_view();
        b.c.output_titles.push(value.to_owned());
        proof {
            assert(b.c.output_titles.deep_view() =~~= pre.push(value@));
        }
        b
    }

    /// Append one input channel title.
    pub fn input_title(self, value: &str) -> (r: Self)
        ensures
            r.c == (SvgChartConfig { input_titles: r.c.input_titles, ..self.c }),
            r.c.input_titles.deep_view() == self.c.input_titles.deep_view().push(value@),
    {
        let mut b = self;
        let ghost pre = b.c.input_titles.deep_view();
        b.c.input_titles.push(value.to_owned());
        proof {
            assert(b.c.input_titles.deep_view() =~~= pre.push(value@));
        }
        b
    }

    /// Replace all output channel titles.
    pub fn output_titles(self, value: Vec<String>) -> (r: Self)
        ensures
            r.c == (SvgChartConfig { output_titles: value, ..self.c }),
    {
        let mut b = self;
        b.c.output_titles = value;
        b
    }

    /// Replace all input channel titles.
    pub fn input_titles(self, value: Vec<String>) -> (r: Self)
        ensures
            r.c == (SvgChartConfig { input_titles: value, ..self.c }),
    {
        let mut b = self;
        b.c.input_titles = value;
        b
    }

    /// Show grid lines.
    pub fn show_grid(self, value: bool) -> (r: Self)
        ensures
            r.c == (SvgChartConfig { show_grid: value, ..self.c }),
    {
        let mut b = self;
        b.c.show_grid = value;
        b
    }

    /// Set the waveform line width in pixels.
    pub fn line_width(self, value: u32) -> (r: Self)
        ensures
            r.c == (SvgChartConfig { line_width: value, ..self.c }),
    {
        let mut b = self;
        b.c.line_width = value;
        b
    }

    /// Set the background color.
    pub fn background_color(self, value: &str) -> (r: Self)
        ensures
            r.c == (SvgChartConfig { background_color: r.c.background_color, ..self.c }),
            r.c.background_color@ == value@,
    {
        let mut b = self;
        b.c.background_color = value.to_owned();
        b
    }

    /// Replace all output channel colors.
    pub fn output_colors(self, value: Vec<String>) -> (r: Self)
        ensures
            r.c == (SvgChartConfig { output_colors: Some(value), ..self.c }),
    {
        let mut b = self;
        b.c.output_colors = Some(value);
        b
    }

    /// Append one output channel color.
    pub fn output_color(self, value: &str) -> (r: Self)
        ensures
            r.c == (SvgChartConfig { output_colors: r.c.output_colors, ..self.c }),
            r.c.output_colors matches Some(cs) && cs.deep_view() == (match self.c.output_colors {
                Some(o) => o.deep_view(),
                None => Seq::empty(),
            }).push(value@),
    {
        let mut b = self;
        let mut cs = match b.c.output_colors {
            Some(cs) => cs,
            None => Vec::new(),
        };
        let ghost pre = cs.deep_view();
        cs.push(value.to_owned());
        proof {
            assert(cs.deep_view() =~~= pre.push(value@));
        }
        b.c.output_colors = Some(cs);
        b
    }

    /// Replace all input channel colors.
    pub fn input_colors(self, value: Vec<String>) -> (r: Self)
        ensures
            r.c == (SvgChartConfig { input_colors: Some(value), ..self.c }),
    {
        let mut b = self;
        b.c.input_colors = Some(value);
        b
    }

    /// Append one input channel color.
    pub fn input_color(self, value: &str) -> (r: Self)
        ensures
            r.c == (SvgChartConfig { input_colors: r.c.input_colors, ..self.c }),
            r.c.input_colors matches Some(cs) && cs.deep_view() == (match self.c.input_colors {
                Some(o) => o.deep_view(),
                None => Seq::empty(),
            }).push(value@),
    {
        let mut b = self;
        let mut cs = match b.c.input_colors {
            Some(cs) => cs,
            None => Vec::new(),
        };
        let ghost pre = cs.deep_view();
        cs.push(value.to_owned());
        proof {
            assert(cs.deep_view() =~~= pre.push(value@));
        }
        b.c.input_colors = Some(cs);
        b
    }
}

/// Builder for [`SnapshotConfig`], starting from the documented defaults.
///
/// Chart settings apply to the chart configuration under construction;
/// selecting an audio output mode discards them, and a later chart
/// setting switches back to a fresh default chart.
#[derive(Debug, Clone)]
pub struct SnapshotConfigBuilder {
    /// Sample rate in hertz.
    pub sample_rate: u32,
    /// Number of samples to capture.
    pub num_samples: usize,
    /// Processing discipline.
    pub processing_mode: Processing,
    /// Warm-up policy.
    pub warm_up: WarmUp,
    /// Whether abnormal samples are permitted.
    pub allow_abnormal_samples: bool,
    /// Selected audio output, if any; `None` builds a chart output.
    pub wav: Option<WavOutput>,
    /// The chart configuration assembled so far.
    pub chart: SvgChartConfig,
}

impl Default for SnapshotConfigBuilder {
    /// A builder holding the documented defaults.
    fn default() -> (b: Self)
        ensures
            b.sample_rate == DEFAULT_SAMPLE_RATE,
            b.num_samples == DEFAULT_NUM_SAMPLES,
            b.processing_mode == Processing::Tick,
            b.warm_up is Off,
            !b.allow_abnormal_samples,
            b.wav is None,
            b.chart.spec_is_default(),
    {
        SnapshotConfigBuilder {
            sample_rate: DEFAULT_SAMPLE_RATE,
            num_samples: DEFAULT_NUM_SAMPLES,
            processing_mode: Processing::Tick,
            warm_up: WarmUp::Off,
            allow_abnormal_samples: false,
            wav: None,
            chart: SvgChartConfig::default(),
        }
    }
}

impl SnapshotConfigBuilder {
    /// Finish the builder.  Fails with `BuildMismatch` exactly when the
    /// processing discipline is unusable: a batch chunk size of zero or
    /// above the supported maximum.
    pub fn build(self) -> (r: Result<SnapshotConfig, SnapshotError>)
        ensures
            self.processing_mode.spec_valid() ==> (r matches Ok(c) && c == (SnapshotConfig {
                sample_rate: self.sample_rate,
                num_samples: self.num_samples,
                processing_mode: self.processing_mode,
                warm_up: self.warm_up,
                allow_abnormal_samples: self.allow_abnormal_samples,
                output_mode: match self.wav {
                    Some(w) => SnapshotOutputMode::Wav(w),
                    None => SnapshotOutputMode::SvgChart(self.chart),
                },
            })),
            !self.processing_mode.spec_valid() ==> (r matches Err(e) && e
                == (SnapshotError::BuildMismatch {
                chunk_size: self.processing_mode->Batch_0 as usize,
            })),
    {
        if let Processing::Batch(n) = self.processing_mode {
            if n == 0 || n as usize > MAX_CHUNK {
                return Err(SnapshotError::BuildMismatch { chunk_size: n as usize });
            }
        }
        let output_mode = match self.wav {
            Some(w) => SnapshotOutputMode::Wav(w),
            None => SnapshotOutputMode::SvgChart(self.chart),
        };
        Ok(
            SnapshotConfig {
                sample_rate: self.sample_rate,
                num_samples: self.num_samples,
                processing_mode: self.processing_mode,
                warm_up: self.warm_up,
                allow_abnormal_samples: self.allow_abnormal_samples,
                output_mode,
            },
        )
    }

    /// Set the sample rate in hertz.
    pub fn sample_rate(self, value: u32) -> (r: Self)
        ensures
            r == (SnapshotConfigBuilder { sample_rate: value, ..self }),
    {
        let mut b = self;
        b.sample_rate = value;
        b
    }

    /// Set the number of samples to capture.
    pub fn num_samples(self, value: usize) -> (r: Self)
        ensures
            r == (SnapshotConfigBuilder { num_samples: value, ..self }),
    {
        let mut b = self;
        b.num_samples = value;
        b
    }

    /// Set the processing discipline.
    pub fn processing_mode(self, value: Processing) -> (r: Self)
        ensures
            r == (SnapshotConfigBuilder { processing_mode: value, ..self }),
    {
        let mut b = self;
        b.processing_mode = value;
        b
    }

    /// Set the warm-up policy.
    pub fn warm_up(self, value: WarmUp) -> (r: Self)
        ensures
            r == (SnapshotConfigBuilder { warm_up: value, ..self }),
    {
        let mut b = self;
        b.warm_up = value;
        b
    }

    /// Allow or reject abnormal samples.
    pub fn allow_abnormal_samples(self, value: bool) -> (r: Self)
        ensures
            r == (SnapshotConfigBuilder { allow_abnormal_samples: value, ..self }),
    {
        let mut b = self;
        b.allow_abnormal_samples = value;
        b
    }

    /// Set the output mode.  An audio mode discards any chart settings
    /// made so far.
    pub fn output_mode(self, value: SnapshotOutputMode) -> (r: Self)
        ensures
            match value {
                SnapshotOutputMode::SvgChart(c) => r == (SnapshotConfigBuilder {
                    wav: None,
                    chart: c,
                    ..self
                }),
                SnapshotOutputMode::Wav(w) => r == (SnapshotConfigBuilder {
                    wav: Some(w),
                    chart: r.chart,
                    ..self
                }) && r.chart.spec_is_default(),
            },
    {
        let mut b = self;
        match value {
            SnapshotOutputMode::SvgChart(c) => {
                b.wav = None;
                b.chart = c;
            },
            SnapshotOutputMode::Wav(w) => {
                b.wav = Some(w);
                b.chart = SvgChartConfig::default();
            },
        }
        b
    }

    /// Set the chart layout.
    pub fn chart_layout(self, value: Layout) -> (r: Self)
        ensures
            r == (SnapshotConfigBuilder {
                wav: None,
                chart: (SvgChartConfig { chart_layout: value, ..self.chart }),
                ..self
            }),
    {
        let mut b = self;
        b.wav = None;
        b.chart.chart_layout = value;
        b
    }

    /// Include inputs in the chart.
    pub fn with_inputs(self, value: bool) -> (r: Self)
        ensures
            r == (SnapshotConfigBuilder {
                wav: None,
                chart: (SvgChartConfig { with_inputs: value, ..self.chart }),
                ..self
            }),
    {
        let mut b = self;
        b.wav = None;
        b.chart.with_inputs = value;
        b
    }

    /// Set a fixed drawing width.
    pub fn svg_width(self, value: usize) -> (r: Self)
        ensures
            r == (SnapshotConfigBuilder {
                wav: None,
                chart: (SvgChartConfig { svg_width: Some(value), ..self.chart }),
                ..self
            }),
    {
        let mut b = self;
        b.wav = None;
        b.chart.svg_width = Some(value);
        b
    }

    /// Set the height of one channel's chart region.
    pub fn svg_height_per_channel(self, value: usize) -> (r: Self)
        ensures
            r == (SnapshotConfigBuilder {
                wav: None,
                chart: (SvgChartConfig { svg_height_per_channel: value, ..self.chart }),
                ..self
            }),
    {
        let mut b = self;
        b.wav = None;
        b.chart.svg_height_per_channel = value;
        b
    }

    /// Toggle label visibility.
    pub fn show_labels(self, value: bool) -> (r: Self)
        ensures
            r == (SnapshotConfigBuilder {
                wav: None,
                chart: (SvgChartConfig { show_labels: value, ..self.chart }),
                ..self
            }),
    {
        let mut b = self;
        b.wav = None;
        b.chart.show_labels = value;
        b
    }

    /// Format X axis labels as time.
    pub fn format_x_axis_labels_as_time(self, value: bool) -> (r: Self)
        ensures
            r == (SnapshotConfigBuilder {
                wav: None,
                chart: (SvgChartConfig { format_x_axis_labels_as_time: value, ..self.chart }),
                ..self
            }),
    {
        let mut b = self;
        b.wav = None;
        b.chart.format_x_axis_labels_as_time = value;
        b
    }

    /// Set the maximum number of X axis labels.
    pub fn max_labels_x_axis(self, value: Option<usize>) -> (r: Self)
        ensures
            r == (SnapshotConfigBuilder {
                wav: None,
                chart: (SvgChartConfig { max_labels_x_axis: value, ..self.chart }),
                ..self
            }),
    {
        let mut b = self;
        b.wav = None;
        b.chart.max_labels_x_axis = value;
        b
    }

    /// Set the chart title.
    pub fn chart_title(self, value: &str) -> (r: Self)
        ensures
            r == (SnapshotConfigBuilder {
                wav: None,
                chart: (SvgChartConfig { chart_title: r.chart.chart_title, ..self.chart }),
                ..self
            }),
            r.chart.chart_title matches Some(t) && t@ == value@,
    {
        let mut b = self;
        b.wav = None;
        b.chart.chart_title = Some(value.to_owned());
        b
    }

    /// Append one output channel title.
    pub fn output_title(self, value: &str) -> (r: Self)
        ensures
            r == (SnapshotConfigBuilder {
                wav: None,
                chart: (SvgChartConfig { output_titles: r.chart.output_titles, ..self.chart }),
                ..self
            }),
            r.chart.output_titles.deep_view() == self.chart.output_titles.deep_view().push(value@),
    {
        let mut b = self;
        b.wav = None;
        let ghost pre = b.chart.output_titles.deep_view();
        b.chart.output_titles.push(value.to_owned());
        proof {
            assert(b.chart.output_titles.deep_view() =~~= pre.push(value@));
        }
        b
    }

    /// Append one input channel title.
    pub fn input_title(self, value: &str) -> (r: Self)
        ensures
            r == (SnapshotConfigBuilder {
                wav: None,
                chart: (SvgChartConfig { input_titles: r.chart.input_titles, ..self.chart }),
                ..self
            }),
            r.chart.input_titles.deep_view() == self.chart.input_titles.deep_view().push(value@),
    {
        let mut b = self;
        b.wav = None;
        let ghost pre = b.chart.input_titles.deep_view();
        b.chart.input_titles.push(value.to_owned());
        proof {
            assert(b.chart.input_titles.deep_view() =~~= pre.push(value@));
        }
        b
    }

    /// Replace all output channel titles.
    pub fn output_titles(self, value: Vec<String>) -> (r: Self)
        ensures
            r == (SnapshotConfigBuilder {
                wav: None,
                chart: (SvgChartConfig { output_titles: value, ..self.chart }),
                ..self
            }),
    {
        let mut b = self;
        b.wav = None;
        b.chart.output_titles = value;
        b
    }

    /// Replace all input channel titles.
    pub fn input_titles(self, value: Vec<String>) -> (r: Self)
        ensures
            r == (SnapshotConfigBuilder {
                wav: None,
                chart: (SvgChartConfig { input_titles: value, ..self.chart }),
                ..self
            }),
    {
        let mut b = self;
        b.wav = None;
        b.chart.input_titles = value;
        b
    }

    /// Show grid lines.
    pub fn show_grid(self, value: bool) -> (r: Self)
        ensures
            r == (SnapshotConfigBuilder {
                wav: None,
                chart: (SvgChartConfig { show_grid: value, ..self.chart }),
                ..self
            }),
    {
        let mut b = self;
        b.wav = None;
        b.chart.show_grid = value;
        b
    }

    /// Set the waveform line width in pixels.
    pub fn line_width(self, value: u32) -> (r: Self)
        ensures
            r == (SnapshotConfigBuilder {
                wav: None,
                chart: (SvgChartConfig { line_width: value, ..self.chart }),
                ..self
            }),
    {
        let mut b = self;
        b.wav = None;
        b.chart.line_width = value;
        b
    }

    /// Set the background color.
    pub fn background_color(self, value: &str) -> (r: Self)
        ensures
            r == (SnapshotConfigBuilder {
                wav: None,
                chart: (SvgChartConfig {
                    background_color: r.chart.background_color,
                    ..self.chart
                }),
                ..self
            }),
            r.chart.background_color@ == value@,
    {
        let mut b = self;
        b.wav = None;
        b.chart.background_color = value.to_owned();
        b
    }

    /// Replace all output channel colors.
    pub fn output_colors(self, value: Vec<String>) -> (r: Self)
        ensures
            r == (SnapshotConfigBuilder {
                wav: None,
                chart: (SvgChartConfig { output_colors: Some(value), ..self.chart }),
                ..self
            }),
    {
        let mut b = self;
        b.wav = None;
        b.chart.output_colors = Some(value);
        b
    }

    /// Append one output channel color.
    pub fn output_color(self, value: &str) -> (r: Self)
        ensures
            r == (SnapshotConfigBuilder {
                wav: None,
                chart: (SvgChartConfig { output_colors: r.chart.output_colors, ..self.chart }),
                ..self
            }),
            r.chart.output_colors matches Some(cs) && cs.deep_view() == (match self
                .chart
                .output_colors {
                Some(o) => o.deep_view(),
                None => Seq::empty(),
            }).push(value@),
    {
        let mut b = self;
        b.wav = None;
        let mut cs = match b.chart.output_colors {
            Some(cs) => cs,
            None => Vec::new(),
        };
        let ghost pre = cs.deep_view();
        cs.push(value.to_owned());
        proof {
            assert(cs.deep_view() =~~= pre.push(value@));
        }
        b.chart.output_colors = Some(cs);
        b
    }

    /// Replace all input channel colors.
    pub fn input_colors(self, value: Vec<String>) -> (r: Self)
        ensures
            r == (SnapshotConfigBuilder {
                wav: None,
                chart: (SvgChartConfig { input_colors: Some(value), ..self.chart }),
                ..self
            }),
    {
        let mut b = self;
        b.wav = None;
        b.chart.input_colors = Some(value);
        b
    }

    /// Append one input channel color.
    pub fn input_color(self, value: &str) -> (r: Self)
        ensures
            r == (SnapshotConfigBuilder {
                wav: None,
                chart: (SvgChartConfig { input_colors: r.chart.input_colors, ..self.chart }),
                ..self
            }),
            r.chart.input_colors matches Some(cs) && cs.deep_view() == (match self
                .chart
                .input_colors {
                Some(o) => o.deep_view(),
                None => Seq::empty(),
            }).push(value@),
    {
        let mut b = self;
        b.wav = None;
        let mut cs = match b.chart.input_colors {
            Some(cs) => cs,
            None => Vec::new(),
        };
        let ghost pre = cs.deep_view();
        cs.push(value.to_owned());
        proof {
            assert(cs.deep_view() =~~= pre.push(value@));
        }
        b.chart.input_colors = Some(cs);
        b
    }
}

impl SnapshotConfig {
    /// The artifact file name: the given name when one is supplied, else
    /// the chart title for chart output, with the extension of the output
    /// mode.
    pub open spec fn spec_file_name(self, name: Option<Seq<char>>) -> Seq<char> {
        match self.output_mode {
            SnapshotOutputMode::SvgChart(c) => match name {
                Some(n) => n + ".svg"@,
                None => match c.chart_title {
                    Some(t) => t@ + ".svg"@,
                    None => ".svg"@,
                },
            },
            SnapshotOutputMode::Wav(_) => match name {
                Some(n) => n + ".wav"@,
                None => ".wav"@,
            },
        }
    }

    /// Derive the artifact file name for this configuration.
    pub fn file_name(&self, name: Option<&str>) -> (r: String)
        ensures
            r@ == self.spec_file_name(
                match name {
                    Some(n) => Some(n@),
                    None => None,
                },
            ),
    {
        match &self.output_mode {
            SnapshotOutputMode::SvgChart(c) => match name {
                Some(n) => n.to_owned().concat(".svg"),
                None => match &c.chart_title {
                    Some(t) => t.clone().concat(".svg"),
                    None => ".svg".to_owned(),
                },
            },
            SnapshotOutputMode::Wav(_) => match name {
                Some(n) => n.to_owned().concat(".wav"),
                None => ".wav".to_owned(),
            },
        }
    }

    /// Fill in the chart title from the snapshot name when no title is
    /// set; any other configuration is left unchanged.
    pub fn maybe_title(&mut self, name: &str)
        ensures
            *final(self) == (SnapshotConfig { output_mode: final(self).output_mode, ..*old(self) }),
            match (old(self).output_mode, final(self).output_mode) {
                (SnapshotOutputMode::SvgChart(c), SnapshotOutputMode::SvgChart(c2)) => if c
                    .chart_title is None {
                    c2 == (SvgChartConfig { chart_title: c2.chart_title, ..c }) && (c2.chart_title
                        matches Some(t) && t@ == name@)
                } else {
                    c2 == c
                },
                (m1, m2) => m2 == m1,
            },
    {
        if let SnapshotOutputMode::SvgChart(c) = &mut self.output_mode {
            if c.chart_title.is_none() {
                c.chart_title = Some(name.to_owned());
            }
        }
    }
}

} // verus!
