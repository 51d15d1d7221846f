//! Chart layout policy and chart planning.
//!
//! The layout policy governs how the plotted channels are grouped into
//! chart sub-regions; the planner turns captured data and a chart
//! configuration into a deterministic drawing plan.

use vstd::prelude::*;

use crate::abnormal::AbnormalSample;
use crate::chart_data::{
    input_palette, output_palette, spec_input_palette, spec_output_palette, ChannelChartData,
};
use crate::config::SvgChartConfig;
use crate::util::{parse_hex_color, spec_parse_hex_color, Rgb};

verus! {

/// Chart layout: whether channels plot on separate charts or on combined
/// charts.
#[derive(Debug, Default, Clone, Copy, PartialEq, Eq, Structural)]
pub enum Layout {
    /// Each channel plots on its own chart.
    #[default]
    SeparateChannels,
    /// All input channels plot on one chart and all output channels on
    /// another; the same as `Combined` when inputs are not plotted.
    CombinedPerChannelType,
    /// All channels plot on one chart.
    Combined,
}

/// The fixed minimal placeholder image returned when there is nothing to
/// draw.
pub open spec fn spec_placeholder_svg() -> Seq<char> {
    "<svg xmlns=\"http://www.w3.org/2000/svg\" viewBox=\"0 0 100 100\"><text>Empty</text></svg>"@
}

/// One chart sub-region: the channel records plotted in it, whether input
/// channels are drawn solid, and the axis color.
pub struct RegionPlan {
    /// The channels plotted in this region, in drawing order.
    pub charts: Vec<ChannelChartData>,
    /// Whether input channels are drawn with a solid stroke; when off,
    /// input channels are dashed.
    pub solid_input: bool,
    /// The axis color of the region.
    pub axis_color: Rgb,
}

/// A complete drawing plan: the canvas size and the sub-regions from top
/// to bottom.
pub struct DrawPlan {
    /// Canvas width in pixels.
    pub width: usize,
    /// Canvas height in pixels.
    pub total_height: usize,
    /// The sub-regions, in top-to-bottom order.
    pub regions: Vec<RegionPlan>,
}

/// The outcome of planning a chart: the fixed placeholder image when
/// there is nothing to draw, else a drawing plan.
pub enum ChartPlan {
    /// Nothing to draw: the fixed minimal placeholder image.
    Placeholder(String),
    /// A drawing plan for the renderer.
    Draw(DrawPlan),
}

/// The number of channels a chart plots.
pub open spec fn spec_plotted_channels(inputs: nat, outputs: nat, with_inputs: bool) -> nat {
    outputs + if with_inputs {
        inputs
    } else {
        0
    }
}

/// Plan a chart from captured data.
///
/// With zero samples or zero plotted channels the result is the fixed
/// placeholder image.  Otherwise the channels are grouped into regions by
/// the layout policy:
///
/// * `SeparateChannels`: one region per plotted channel, all enabled
///   input channels first in channel order, then all output channels in
///   channel order, each with its own axis color;
/// * `CombinedPerChannelType`: one region overlaying all input channels
///   and one overlaying all output channels (only the latter when inputs
///   are not plotted), every stroke solid;
/// * `Combined`: a single region with the output channels first and then
///   the enabled input channels, inputs dashed.
pub fn plan_chart(
    input_data: &Vec<Vec<u32>>,
    output_data: &Vec<Vec<u32>>,
    abnormalities: &Vec<Vec<(usize, AbnormalSample)>>,
    config: &SvgChartConfig,
    num_samples: usize,
) -> (p: ChartPlan)
    requires
        abnormalities@.len() == output_data@.len(),
        spec_plotted_channels(
            input_data@.len() as nat,
            output_data@.len() as nat,
            config.with_inputs,
        ) <= usize::MAX,
        config.svg_width is None ==> num_samples * 2 <= usize::MAX,
        config.svg_height_per_channel * spec_plotted_channels(
            input_data@.len() as nat,
            output_data@.len() as nat,
            config.with_inputs,
        ) <= usize::MAX,
    ensures
        ({
            let n_in: nat = if config.with_inputs {
                input_data@.len() as nat
            } else {
                0
            };
            let n_out = output_data@.len() as nat;
            let total = n_in + n_out;
            match p {
                ChartPlan::Placeholder(s) => (num_samples == 0 || total == 0) && s@
                    == spec_placeholder_svg(),
                ChartPlan::Draw(d) => num_samples > 0 && total > 0 && ({
                    &&& d.width == (match config.svg_width {
                        Some(w) => w as int,
                        None => num_samples * 2,
                    })
                    &&& d.total_height == config.svg_height_per_channel * total
                    &&& (match config.chart_layout {
                        Layout::SeparateChannels => {
                            &&& d.regions@.len() == total
                            &&& forall|k: int|
                                0 <= k < n_in ==> {
                                    let rg = #[trigger] d.regions@[k];
                                    &&& rg.charts@.len() == 1
                                    &&& rg.charts@[0].is_input_chart(
                                        input_data.deep_view()[k],
                                        k as nat,
                                        *config,
                                    )
                                    &&& rg.solid_input
                                    &&& rg.axis_color == rg.charts@[0].color
                                }
                            &&& forall|k: int|
                                n_in <= k < total ==> {
                                    let rg = #[trigger] d.regions@[k];
                                    &&& rg.charts@.len() == 1
                                    &&& rg.charts@[0].is_output_chart(
                                        output_data.deep_view()[k - n_in],
                                        abnormalities.deep_view()[k - n_in],
                                        (k - n_in) as nat,
                                        *config,
                                    )
                                    &&& rg.solid_input
                                    &&& rg.axis_color == rg.charts@[0].color
                                }
                        },
                        Layout::CombinedPerChannelType => {
                            &&& d.regions@.len() == (if config.with_inputs {
                                2int
                            } else {
                                1int
                            })
                            &&& (config.with_inputs ==> {
                                let rg = d.regions@[0];
                                &&& rg.charts@.len() == input_data@.len()
                                &&& forall|j: int|
                                    0 <= j < input_data@.len()
                                        ==> (#[trigger] rg.charts@[j]).is_input_chart(
                                        input_data.deep_view()[j],
                                        j as nat,
                                        *config,
                                    )
                                &&& rg.solid_input
                                &&& rg.axis_color == spec_parse_hex_color(spec_input_palette(0))
                            })
                            &&& {
                                let rg = d.regions@[d.regions@.len() - 1];
                                &&& rg.charts@.len() == n_out
                                &&& forall|j: int|
                                    0 <= j < n_out ==> (#[trigger] rg.charts@[j]).is_output_chart(
                                        output_data.deep_view()[j],
                                        abnormalities.deep_view()[j],
                                        j as nat,
                                        *config,
                                    )
                                &&& rg.solid_input
                                &&& rg.axis_color == spec_parse_hex_color(spec_output_palette(0))
                            }
                        },
                        Layout::Combined => {
                            &&& d.regions@.len() == 1
                            &&& {
                                let rg = d.regions@[0];
                                &&& rg.charts@.len() == total
                                &&& forall|j: int|
                                    0 <= j < n_out ==> (#[trigger] rg.charts@[j]).is_output_chart(
                                        output_data.deep_view()[j],
                                        abnormalities.deep_view()[j],
                                        j as nat,
                                        *config,
                                    )
                                &&& forall|j: int|
                                    n_out <= j < total ==> (#[trigger] rg.charts@[j]).is_input_chart(
                                        input_data.deep_view()[j - n_out],
                                        (j - n_out) as nat,
                                        *config,
                                    )
                                &&& !rg.solid_input
                                &&& rg.axis_color == spec_parse_hex_color(spec_output_palette(0))
                            }
                        },
                    })
                }),
            }
        }),
{
    let n_in = if config.with_inputs {
        input_data.len()
    } else {
        0
    };
    let n_out = output_data.len();
    let total = n_in + n_out;
    if num_samples == 0 || total == 0 {
        return ChartPlan::Placeholder(
            "<svg xmlns=\"http://www.w3.org/2000/svg\" viewBox=\"0 0 100 100\"><text>Empty</text></svg>".to_owned(),
        );
    }
    let width = match config.svg_width {
        Some(w) => w,
        None => num_samples * 2,
    };
    let total_height = config.svg_height_per_channel * total;

    let mut regions: Vec<RegionPlan> = Vec::new();
    match config.chart_layout {
        Layout::SeparateChannels => {
            let mut ch: usize = 0;
            while ch < n_in
                invariant
                    ch <= n_in,
                    n_in == (if config.with_inputs {
                        input_data@.len()
                    } else {
                        0
                    }),
                    regions@.len() == ch,
                    forall|k: int|
                        0 <= k < ch ==> {
                            let rg = #[trigger] regions@[k];
                            &&& rg.charts@.len() == 1
                            &&& rg.charts@[0].is_input_chart(
                                input_data.deep_view()[k],
                                k as nat,
                                *config,
                            )
                            &&& rg.solid_input
                            &&& rg.axis_color == rg.charts@[0].color
                        },
                decreases n_in - ch,
            {
                proof {
                    assert(input_data.deep_view()[ch as int] == input_data@[ch as int]@);
                }
                let c = ChannelChartData::from_input_data(&input_data[ch], ch, config);
                let axis_color = c.color;
                let mut charts: Vec<ChannelChartData> = Vec::new();
                charts.push(c);
                regions.push(RegionPlan { charts, solid_input: true, axis_color });
                ch += 1;
            }
            let mut och: usize = 0;
            while och < n_out
                invariant
                    och <= n_out,
                    n_out == output_data@.len(),
                    abnormalities@.len() == output_data@.len(),
                    n_in == (if config.with_inputs {
                        input_data@.len()
                    } else {
                        0
                    }),
                    regions@.len() == n_in + och,
                    forall|k: int|
                        0 <= k < n_in ==> {
                            let rg = #[trigger] regions@[k];
                            &&& rg.charts@.len() == 1
                            &&& rg.charts@[0].is_input_chart(
                                input_data.deep_view()[k],
                                k as nat,
                                *config,
                            )
                            &&& rg.solid_input
                            &&& rg.axis_color == rg.charts@[0].color
                        },
                    forall|k: int|
                        n_in <= k < n_in + och ==> {
                            let rg = #[trigger] regions@[k];
                            &&& rg.charts@.len() == 1
                            &&& rg.charts@[0].is_output_chart(
                                output_data.deep_view()[k - n_in],
                                abnormalities.deep_view()[k - n_in],
                                (k - n_in) as nat,
                                *config,
                            )
                            &&& rg.solid_input
                            &&& rg.axis_color == rg.charts@[0].color
                        },
                decreases n_out - och,
            {
                proof {
                    assert(output_data.deep_view()[och as int] == output_data@[och as int]@);
                    assert(abnormalities.deep_view()[och as int] == abnormalities@[och as int]@);
                }
                let c = ChannelChartData::from_output_data(
                    &output_data[och],
                    &abnormalities[och],
                    och,
                    config,
                );
                let axis_color = c.color;
                let mut charts: Vec<ChannelChartData> = Vec::new();
                charts.push(c);
                regions.push(RegionPlan { charts, solid_input: true, axis_color });
                och += 1;
            }
        },
        Layout::CombinedPerChannelType => {
            if config.with_inputs {
                let charts = build_input_charts(input_data, config);
                regions.push(
                    RegionPlan {
                        charts,
                        solid_input: true,
                        axis_color: parse_hex_color(input_palette(0)),
                    },
                );
            }
            let charts = build_output_charts(output_data, abnormalities, config);
            regions.push(
                RegionPlan {
                    charts,
                    solid_input: true,
                    axis_color: parse_hex_color(output_palette(0)),
                },
            );
        },
        Layout::Combined => {
            let mut charts = build_output_charts(output_data, abnormalities, config);
            if config.with_inputs {
                let mut och: usize = 0;
                while och < input_data.len()
                    invariant
                        och <= input_data@.len(),
                        n_out == output_data@.len(),
                        abnormalities@.len() == output_data@.len(),
                        charts@.len() == n_out + och,
                        forall|j: int|
                            0 <= j < n_out ==> (#[trigger] charts@[j]).is_output_chart(
                                output_data.deep_view()[j],
                                abnormalities.deep_view()[j],
                                j as nat,
                                *config,
                            ),
                        forall|j: int|
                            n_out <= j < n_out + och ==> (#[trigger] charts@[j]).is_input_chart(
                                input_data.deep_view()[j - n_out],
                                (j - n_out) as nat,
                                *config,
                            ),
                    decreases input_data@.len() - och,
                {
                    proof {
                        assert(input_data.deep_view()[och as int] == input_data@[och as int]@);
                    }
                    let c = ChannelChartData::from_input_data(&input_data[och], och, config);
                    charts.push(c);
                    och += 1;
                }
            }
            regions.push(
                RegionPlan {
                    charts,
                    solid_input: false,
                    axis_color: parse_hex_color(output_palette(0)),
                },
            );
        },
    }
    ChartPlan::Draw(DrawPlan { width, total_height, regions })
}

/// Build the rendering records of all input channels, in channel order.
fn build_input_charts(input_data: &Vec<Vec<u32>>, config: &SvgChartConfig) -> (r: Vec<
    ChannelChartData,
>)
    ensures
        r@.len() == input_data@.len(),
        forall|j: int|
            0 <= j < input_data@.len() ==> (#[trigger] r@[j]).is_input_chart(
                input_data.deep_view()[j],
                j as nat,
                *config,
            ),
{
    let mut charts: Vec<ChannelChartData> = Vec::new();
    let mut ch: usize = 0;
    while ch < input_data.len()
        invariant
            ch <= input_data@.len(),
            charts@.len() == ch,
            forall|j: int|
                0 <= j < ch ==> (#[trigger] charts@[j]).is_input_chart(
                    input_data.deep_view()[j],
                    j as nat,
                    *config,
                ),
        decreases input_data@.len() - ch,
    {
        proof {
            assert(input_data.deep_view()[ch as int] == input_data@[ch as int]@);
        }
        let c = ChannelChartData::from_input_data(&input_data[ch], ch, config);
        charts.push(c);
        ch += 1;
    }
    charts
}

/// Build the rendering records of all output channels, in channel order.
fn build_output_charts(
    output_data: &Vec<Vec<u32>>,
    abnormalities: &Vec<Vec<(usize, AbnormalSample)>>,
    config: &SvgChartConfig,
) -> (r: Vec<ChannelChartData>)
    requires
        abnormalities@.len() == output_data@.len(),
    ensures
        r@.len() == output_data@.len(),
        forall|j: int|
            0 <= j < output_data@.len() ==> (#[trigger] r@[j]).is_output_chart(
                output_data.deep_view()[j],
                abnormalities.deep_view()[j],
                j as nat,
                *config,
            ),
{
    let mut charts: Vec<ChannelChartData> = Vec::new();
    let mut ch: usize = 0;
    while ch < output_data.len()
        invariant
            ch <= output_data@.len(),
            abnormalities@.len() == output_data@.len(),
            charts@.len() == ch,
            forall|j: int|
                0 <= j < ch ==> (#[trigger] charts@[j]).is_output_chart(
                    output_data.deep_view()[j],
                    abnormalities.deep_view()[j],
                    j as nat,
                    *config,
                ),
        decreases output_data@.len() - ch,
    {
        proof {
            assert(output_data.deep_view()[ch as int] == output_data@[ch as int]@);
            assert(abnormalities.deep_view()[ch as int] == abnormalities@[ch as int]@);
        }
        let c = ChannelChartData::from_output_data(
            &output_data[ch],
            &abnormalities[ch],
            ch,
            config,
        );
        charts.push(c);
        ch += 1;
    }
    charts
}

} // verus!
