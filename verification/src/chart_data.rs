//! Per-channel chart records: sample data, abnormal markers, the
//! assigned color and label.
//!
//! Channel colors come from an explicit configuration override when one
//! is given, else from a fixed per-kind palette cycled by channel index.

use vstd::prelude::*;

use crate::abnormal::AbnormalSample;
use crate::config::SvgChartConfig;
use crate::util::{parse_hex_color, push_decimal, spec_decimal, spec_parse_hex_color, Rgb};

verus! {

/// The default output-channel palette color at index `i`.
pub open spec fn spec_output_palette(i: nat) -> Seq<char> {
    if i == 0 {
        "#4285F4"@
    } else if i == 1 {
        "#EA4335"@
    } else if i == 2 {
        "#FBBC04"@
    } else if i == 3 {
        "#34A853"@
    } else if i == 4 {
        "#FF6D00"@
    } else if i == 5 {
        "#AB47BC"@
    } else if i == 6 {
        "#00ACC1"@
    } else if i == 7 {
        "#7CB342"@
    } else if i == 8 {
        "#9C27B0"@
    } else if i == 9 {
        "#3F51B5"@
    } else if i == 10 {
        "#009688"@
    } else if i == 11 {
        "#8BC34A"@
    } else if i == 12 {
        "#FFEB3B"@
    } else if i == 13 {
        "#FF9800"@
    } else if i == 14 {
        "#795548"@
    } else if i == 15 {
        "#607D8B"@
    } else if i == 16 {
        "#E91E63"@
    } else if i == 17 {
        "#673AB7"@
    } else if i == 18 {
        "#2196F3"@
    } else if i == 19 {
        "#00BCD4"@
    } else if i == 20 {
        "#4CAF50"@
    } else if i == 21 {
        "#CDDC39"@
    } else if i == 22 {
        "#FFC107"@
    } else if i == 23 {
        "#FF5722"@
    } else if i == 24 {
        "#9E9E9E"@
    } else if i == 25 {
        "#03A9F4"@
    } else if i == 26 {
        "#8D6E63"@
    } else if i == 27 {
        "#78909C"@
    } else if i == 28 {
        "#880E4F"@
    } else if i == 29 {
        "#4A148C"@
    } else if i == 30 {
        "#0D47A1"@
    } else {
        "#004D40"@
    }
}

/// The default input-channel palette color at index `i`.
pub open spec fn spec_input_palette(i: nat) -> Seq<char> {
    if i == 0 {
        "#B39DDB"@
    } else if i == 1 {
        "#FFAB91"@
    } else if i == 2 {
        "#FFF59D"@
    } else if i == 3 {
        "#A5D6A7"@
    } else if i == 4 {
        "#FFCC80"@
    } else if i == 5 {
        "#CE93D8"@
    } else if i == 6 {
        "#80DEEA"@
    } else if i == 7 {
        "#C5E1A5"@
    } else if i == 8 {
        "#BA68C8"@
    } else if i == 9 {
        "#9FA8DA"@
    } else if i == 10 {
        "#80CBC4"@
    } else if i == 11 {
        "#DCE775"@
    } else if i == 12 {
        "#FFF176"@
    } else if i == 13 {
        "#FFB74D"@
    } else if i == 14 {
        "#BCAAA4"@
    } else if i == 15 {
        "#B0BEC5"@
    } else if i == 16 {
        "#F48FB1"@
    } else if i == 17 {
        "#B39DDB"@
    } else if i == 18 {
        "#90CAF9"@
    } else if i == 19 {
        "#80DEEA"@
    } else if i == 20 {
        "#A5D6A7"@
    } else if i == 21 {
        "#E6EE9C"@
    } else if i == 22 {
        "#FFD54F"@
    } else if i == 23 {
        "#FF8A65"@
    } else if i == 24 {
        "#BDBDBD"@
    } else if i == 25 {
        "#81D4FA"@
    } else if i == 26 {
        "#A1887F"@
    } else if i == 27 {
        "#90A4AE"@
    } else if i == 28 {
        "#C2185B"@
    } else if i == 29 {
        "#7B1FA2"@
    } else if i == 30 {
        "#1976D2"@
    } else {
        "#00796B"@
    }
}

/// The default palette color for channel `idx`, cycling modulo the
/// palette length.
pub fn output_palette(idx: usize) -> (s: &'static str)
    ensures
        s@ == spec_output_palette((idx % 32) as nat),
{
    let i = idx % 32;
    if i == 0 {
        "#4285F4"
    } else if i == 1 {
        "#EA4335"
    } else if i == 2 {
        "#FBBC04"
    } else if i == 3 {
        "#34A853"
    } else if i == 4 {
        "#FF6D00"
    } else if i == 5 {
        "#AB47BC"
    } else if i == 6 {
        "#00ACC1"
    } else if i == 7 {
        "#7CB342"
    } else if i == 8 {
        "#9C27B0"
    } else if i == 9 {
        "#3F51B5"
    } else if i == 10 {
        "#009688"
    } else if i == 11 {
        "#8BC34A"
    } else if i == 12 {
        "#FFEB3B"
    } else if i == 13 {
        "#FF9800"
    } else if i == 14 {
        "#795548"
    } else if i == 15 {
        "#607D8B"
    } else if i == 16 {
        "#E91E63"
    } else if i == 17 {
        "#673AB7"
    } else if i == 18 {
        "#2196F3"
    } else if i == 19 {
        "#00BCD4"
    } else if i == 20 {
        "#4CAF50"
    } else if i == 21 {
        "#CDDC39"
    } else if i == 22 {
        "#FFC107"
    } else if i == 23 {
        "#FF5722"
    } else if i == 24 {
        "#9E9E9E"
    } else if i == 25 {
        "#03A9F4"
    } else if i == 26 {
        "#8D6E63"
    } else if i == 27 {
        "#78909C"
    } else if i == 28 {
        "#880E4F"
    } else if i == 29 {
        "#4A148C"
    } else if i == 30 {
        "#0D47A1"
    } else {
        "#004D40"
    }
}

/// The default palette color for channel `idx`, cycling modulo the
/// palette length.
pub fn input_palette(idx: usize) -> (s: &'static str)
    ensures
        s@ == spec_input_palette((idx % 32) as nat),
{
    let i = idx % 32;
    if i == 0 {
        "#B39DDB"
    } else if i == 1 {
        "#FFAB91"
    } else if i == 2 {
        "#FFF59D"
    } else if i == 3 {
        "#A5D6A7"
    } else if i == 4 {
        "#FFCC80"
    } else if i == 5 {
        "#CE93D8"
    } else if i == 6 {
        "#80DEEA"
    } else if i == 7 {
        "#C5E1A5"
    } else if i == 8 {
        "#BA68C8"
    } else if i == 9 {
        "#9FA8DA"
    } else if i == 10 {
        "#80CBC4"
    } else if i == 11 {
        "#DCE775"
    } else if i == 12 {
        "#FFF176"
    } else if i == 13 {
        "#FFB74D"
    } else if i == 14 {
        "#BCAAA4"
    } else if i == 15 {
        "#B0BEC5"
    } else if i == 16 {
        "#F48FB1"
    } else if i == 17 {
        "#B39DDB"
    } else if i == 18 {
        "#90CAF9"
    } else if i == 19 {
        "#80DEEA"
    } else if i == 20 {
        "#A5D6A7"
    } else if i == 21 {
        "#E6EE9C"
    } else if i == 22 {
        "#FFD54F"
    } else if i == 23 {
        "#FF8A65"
    } else if i == 24 {
        "#BDBDBD"
    } else if i == 25 {
        "#81D4FA"
    } else if i == 26 {
        "#A1887F"
    } else if i == 27 {
        "#90A4AE"
    } else if i == 28 {
        "#C2185B"
    } else if i == 29 {
        "#7B1FA2"
    } else if i == 30 {
        "#1976D2"
    } else {
        "#00796B"
    }
}

/// The deep view of an optional color list.
pub open spec fn spec_colors(o: Option<Vec<String>>) -> Option<Seq<Seq<char>>> {
    match o {
        Some(v) => Some(v.deep_view()),
        None => None,
    }
}

/// The color string assigned to a channel: the configured override when
/// one covers the index, else the palette color for the channel's kind.
pub open spec fn spec_color_string(custom: Option<Seq<Seq<char>>>, is_input: bool, idx: nat) -> Seq<
    char,
> {
    if custom is Some && idx < custom->Some_0.len() {
        custom->Some_0[idx as int]
    } else if is_input {
        spec_input_palette(idx % 32)
    } else {
        spec_output_palette(idx % 32)
    }
}

/// The label assigned to a channel: nothing when labels are off, the
/// configured title when one covers the index, else the kind's prefix
/// followed by the channel index.
pub open spec fn spec_channel_label(
    show_labels: bool,
    titles: Seq<Seq<char>>,
    prefix: Seq<char>,
    idx: nat,
) -> Option<Seq<char>> {
    if !show_labels {
        None
    } else if idx < titles.len() {
        Some(titles[idx as int])
    } else {
        Some(prefix + spec_decimal(idx))
    }
}

/// Per-channel rendering record: sample data, abnormal markers (output
/// channels only), assigned color, optional label, kind and index.
pub struct ChannelChartData {
    /// The channel's samples, as 32-bit float bit patterns.
    pub data: Vec<u32>,
    /// The channel's abnormal markers.
    pub abnormalities: Vec<(usize, AbnormalSample)>,
    /// The assigned stroke color.
    pub color: Rgb,
    /// The legend label, when labels are on.
    pub label: Option<String>,
    /// Whether this is an input channel.
    pub is_input: bool,
    /// The channel index within its kind.
    pub idx: usize,
}

impl ChannelChartData {
    /// The record is the one built for input channel `idx` with the given
    /// samples under `config`.
    pub open spec fn is_input_chart(self, data: Seq<u32>, idx: nat, config: SvgChartConfig) -> bool {
        &&& self.data@ == data
        &&& self.abnormalities@.len() == 0
        &&& self.is_input
        &&& self.idx == idx
        &&& self.color == spec_parse_hex_color(
            spec_color_string(spec_colors(config.input_colors), true, idx),
        )
        &&& (match self.label {
            Some(t) => spec_channel_label(
                config.show_labels,
                config.input_titles.deep_view(),
                "Input Ch#"@,
                idx,
            ) == Some(t@),
            None => spec_channel_label(
                config.show_labels,
                config.input_titles.deep_view(),
                "Input Ch#"@,
                idx,
            ) is None,
        })
    }

    /// The record is the one built for output channel `idx` with the
    /// given samples and markers under `config`.
    pub open spec fn is_output_chart(
        self,
        data: Seq<u32>,
        marks: Seq<(usize, AbnormalSample)>,
        idx: nat,
        config: SvgChartConfig,
    ) -> bool {
        &&& self.data@ == data
        &&& self.abnormalities@ == marks
        &&& !self.is_input
        &&& self.idx == idx
        &&& self.color == spec_parse_hex_color(
            spec_color_string(spec_colors(config.output_colors), false, idx),
        )
        &&& (match self.label {
            Some(t) => spec_channel_label(
                config.show_labels,
                config.output_titles.deep_view(),
                "Output Ch#"@,
                idx,
            ) == Some(t@),
            None => spec_channel_label(
                config.show_labels,
                config.output_titles.deep_view(),
                "Output Ch#"@,
                idx,
            ) is None,
        })
    }

    /// Build the rendering record of one input channel.
    pub fn from_input_data(data: &Vec<u32>, idx: usize, config: &SvgChartConfig) -> (r:
        ChannelChartData)
        ensures
            r.is_input_chart(data@, idx as nat, *config),
    {
        let color = channel_color(&config.input_colors, true, idx);
        let label = channel_label(
            config.show_labels,
            &config.input_titles,
            "Input Ch#",
            idx,
        );
        ChannelChartData {
            data: copy_samples(data),
            abnormalities: Vec::new(),
            color,
            label,
            is_input: true,
            idx,
        }
    }

    /// Build the rendering record of one output channel.
    pub fn from_output_data(
        data: &Vec<u32>,
        abnormalities: &Vec<(usize, AbnormalSample)>,
        idx: usize,
        config: &SvgChartConfig,
    ) -> (r: ChannelChartData)
        ensures
            r.is_output_chart(data@, abnormalities@, idx as nat, *config),
    {
        let color = channel_color(&config.output_colors, false, idx);
        let label = channel_label(
            config.show_labels,
            &config.output_titles,
            "Output Ch#",
            idx,
        );
        ChannelChartData {
            data: copy_samples(data),
            abnormalities: copy_markers(abnormalities),
            color,
            label,
            is_input: false,
            idx,
        }
    }
}

/// Pick and parse the color of a channel.
fn channel_color(custom: &Option<Vec<String>>, is_input: bool, idx: usize) -> (c: Rgb)
    ensures
        c == spec_parse_hex_color(spec_color_string(spec_colors(*custom), is_input, idx as nat)),
{
    let chosen: &str = if let Some(cs) = custom {
        if idx < cs.len() {
            proof {
                assert(cs.deep_view()[idx as int] == cs@[idx as int]@);
            }
            cs[idx].as_str()
        } else if is_input {
            input_palette(idx)
        } else {
            output_palette(idx)
        }
    } else if is_input {
        input_palette(idx)
    } else {
        output_palette(idx)
    };
    parse_hex_color(chosen)
}

/// Pick or derive the label of a channel.
fn channel_label(show_labels: bool, titles: &Vec<String>, prefix: &str, idx: usize) -> (r: Option<
    String,
>)
    ensures
        match r {
            Some(t) => spec_channel_label(show_labels, titles.deep_view(), prefix@, idx as nat)
                == Some(t@),
            None => spec_channel_label(show_labels, titles.deep_view(), prefix@, idx as nat) is None,
        },
{
    if !show_labels {
        None
    } else if idx < titles.len() {
        proof {
            assert(titles.deep_view()[idx as int] == titles@[idx as int]@);
        }
        Some(titles[idx].clone())
    } else {
        let mut t = prefix.to_owned();
        push_decimal(&mut t, idx as u128);
        Some(t)
    }
}

/// Copy a channel's samples.
fn copy_samples(data: &Vec<u32>) -> (r: Vec<u32>)
    ensures
        r@ == data@,
{
    let mut r: Vec<u32> = Vec::new();
    let mut i: usize = 0;
    while i < data.len()
        invariant
            i <= data@.len(),
            r@ =~= data@.take(i as int),
        decreases data@.len() - i,
    {
        r.push(data[i]);
        i += 1;
    }
    proof {
        assert(r@ =~= data@);
    }
    r
}

/// Copy a channel's abnormal markers.
fn copy_markers(marks: &Vec<(usize, AbnormalSample)>) -> (r: Vec<(usize, AbnormalSample)>)
    ensures
        r@ == marks@,
{
    let mut r: Vec<(usize, AbnormalSample)> = Vec::new();
    let mut i: usize = 0;
    while i < marks.len()
        invariant
            i <= marks@.len(),
            r@ =~= marks@.take(i as int),
        decreases marks@.len() - i,
    {
        r.push(marks[i]);
        i += 1;
    }
    proof {
        assert(r@ =~= marks@);
    }
    r
}

} // verus!
