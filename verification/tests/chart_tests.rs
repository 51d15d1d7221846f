use insta_fun::abnormal::AbnormalSample;
use insta_fun::chart::{plan_chart, ChartPlan, Layout};
use insta_fun::chart_data::{output_palette, ChannelChartData};
use insta_fun::config::SvgChartConfigBuilder;
use insta_fun::util::{parse_hex_color, Rgb};

fn sample_rows(n: usize, len: usize) -> Vec<Vec<u32>> {
    (0..n).map(|ch| (0..len).map(|i| (ch * 1000 + i) as u32).collect()).collect()
}

fn no_marks(n: usize) -> Vec<Vec<(usize, AbnormalSample)>> {
    (0..n).map(|_| Vec::new()).collect()
}

#[test]
fn placeholder_on_zero_samples() {
    let chart = SvgChartConfigBuilder::default().build().unwrap();
    let plan = plan_chart(&Vec::new(), &sample_rows(2, 0), &no_marks(2), &chart, 0);
    match plan {
        ChartPlan::Placeholder(s) => {
            assert_eq!(
                s,
                "<svg xmlns=\"http://www.w3.org/2000/svg\" viewBox=\"0 0 100 100\"><text>Empty</text></svg>"
            );
        }
        ChartPlan::Draw(_) => panic!("zero samples must plan the placeholder"),
    }
}

#[test]
fn placeholder_on_zero_channels() {
    let chart = SvgChartConfigBuilder::default().build().unwrap();
    let plan = plan_chart(&Vec::new(), &Vec::new(), &Vec::new(), &chart, 16);
    assert!(matches!(plan, ChartPlan::Placeholder(_)));
    // Input channels alone do not count when inputs are not plotted.
    let plan = plan_chart(&sample_rows(2, 16), &Vec::new(), &Vec::new(), &chart, 16);
    assert!(matches!(plan, ChartPlan::Placeholder(_)));
}

#[test]
fn separate_layout_orders_inputs_then_outputs() {
    let chart = SvgChartConfigBuilder::default().with_inputs(true).build().unwrap();
    let inputs = sample_rows(2, 8);
    let outputs = sample_rows(3, 8);
    let plan = plan_chart(&inputs, &outputs, &no_marks(3), &chart, 8);
    let d = match plan {
        ChartPlan::Draw(d) => d,
        ChartPlan::Placeholder(_) => panic!("data must plan a drawing"),
    };
    assert_eq!(d.regions.len(), 5);
    for (k, region) in d.regions.iter().enumerate() {
        assert_eq!(region.charts.len(), 1);
        let c: &ChannelChartData = &region.charts[0];
        if k < 2 {
            assert!(c.is_input);
            assert_eq!(c.idx, k);
            assert_eq!(c.data, inputs[k]);
        } else {
            assert!(!c.is_input);
            assert_eq!(c.idx, k - 2);
            assert_eq!(c.data, outputs[k - 2]);
        }
        assert!(region.solid_input);
        assert_eq!(region.axis_color, c.color);
    }
}

#[test]
fn combined_layout_orders_outputs_then_inputs() {
    let chart = SvgChartConfigBuilder::default()
        .with_inputs(true)
        .chart_layout(Layout::Combined)
        .build()
        .unwrap();
    let inputs = sample_rows(1, 4);
    let outputs = sample_rows(2, 4);
    let plan = plan_chart(&inputs, &outputs, &no_marks(2), &chart, 4);
    let d = match plan {
        ChartPlan::Draw(d) => d,
        ChartPlan::Placeholder(_) => panic!("data must plan a drawing"),
    };
    assert_eq!(d.regions.len(), 1);
    let region = &d.regions[0];
    assert_eq!(region.charts.len(), 3);
    assert!(!region.charts[0].is_input);
    assert!(!region.charts[1].is_input);
    assert!(region.charts[2].is_input);
    assert!(!region.solid_input, "combined layout draws inputs dashed");
    assert_eq!(region.axis_color, parse_hex_color(output_palette(0)));
}

#[test]
fn combined_per_type_layout_splits_by_kind() {
    let chart = SvgChartConfigBuilder::default()
        .with_inputs(true)
        .chart_layout(Layout::CombinedPerChannelType)
        .build()
        .unwrap();
    let inputs = sample_rows(2, 4);
    let outputs = sample_rows(2, 4);
    let plan = plan_chart(&inputs, &outputs, &no_marks(2), &chart, 4);
    let d = match plan {
        ChartPlan::Draw(d) => d,
        ChartPlan::Placeholder(_) => panic!("data must plan a drawing"),
    };
    assert_eq!(d.regions.len(), 2);
    assert!(d.regions[0].charts.iter().all(|c| c.is_input));
    assert!(d.regions[1].charts.iter().all(|c| !c.is_input));
    assert!(d.regions[0].solid_input && d.regions[1].solid_input);

    // Without inputs there is a single output region.
    let chart = SvgChartConfigBuilder::default()
        .chart_layout(Layout::CombinedPerChannelType)
        .build()
        .unwrap();
    let plan = plan_chart(&Vec::new(), &outputs, &no_marks(2), &chart, 4);
    match plan {
        ChartPlan::Draw(d) => assert_eq!(d.regions.len(), 1),
        ChartPlan::Placeholder(_) => panic!("data must plan a drawing"),
    }
}

#[test]
fn plan_dimensions() {
    let chart = SvgChartConfigBuilder::default().build().unwrap();
    let outputs = sample_rows(2, 8);
    match plan_chart(&Vec::new(), &outputs, &no_marks(2), &chart, 8) {
        ChartPlan::Draw(d) => {
            assert_eq!(d.width, 16, "default width is twice the sample count");
            assert_eq!(d.total_height, 1000, "two channels at the default height");
        }
        ChartPlan::Placeholder(_) => panic!("data must plan a drawing"),
    }
    let chart = SvgChartConfigBuilder::default()
        .svg_width(800)
        .svg_height_per_channel(150)
        .build()
        .unwrap();
    match plan_chart(&Vec::new(), &outputs, &no_marks(2), &chart, 8) {
        ChartPlan::Draw(d) => {
            assert_eq!(d.width, 800);
            assert_eq!(d.total_height, 300);
        }
        ChartPlan::Placeholder(_) => panic!("data must plan a drawing"),
    }
}

#[test]
fn channel_colors_and_labels() {
    let chart = SvgChartConfigBuilder::default()
        .output_color("#FF0000")
        .output_title("first")
        .build()
        .unwrap();
    let outputs = sample_rows(2, 4);
    let marks = vec![vec![(1usize, AbnormalSample::PosInf)], Vec::new()];
    let plan = plan_chart(&Vec::new(), &outputs, &marks, &chart, 4);
    let d = match plan {
        ChartPlan::Draw(d) => d,
        ChartPlan::Placeholder(_) => panic!("data must plan a drawing"),
    };
    let first = &d.regions[0].charts[0];
    assert_eq!(first.color, Rgb { r: 255, g: 0, b: 0 }, "explicit override wins");
    assert_eq!(first.label.as_deref(), Some("first"));
    assert_eq!(first.abnormalities, vec![(1usize, AbnormalSample::PosInf)]);
    let second = &d.regions[1].charts[0];
    assert_eq!(
        second.color,
        parse_hex_color(output_palette(1)),
        "channels without an override use the palette"
    );
    assert_eq!(second.label.as_deref(), Some("Output Ch#1"));
    assert!(second.abnormalities.is_empty());
}

#[test]
fn labels_can_be_disabled() {
    let chart = SvgChartConfigBuilder::default().show_labels(false).build().unwrap();
    let outputs = sample_rows(1, 4);
    let plan = plan_chart(&Vec::new(), &outputs, &no_marks(1), &chart, 4);
    match plan {
        ChartPlan::Draw(d) => assert_eq!(d.regions[0].charts[0].label, None),
        ChartPlan::Placeholder(_) => panic!("data must plan a drawing"),
    }
}

#[test]
fn palette_cycles_modulo_length() {
    assert_eq!(output_palette(0), output_palette(32));
    assert_eq!(output_palette(5), output_palette(37));
    assert_eq!(output_palette(0), "#4285F4");
}
