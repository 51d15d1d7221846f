//! A deterministic textual description of a composed network's wiring.
//!
//! A network is modeled as units with numeric identities, each input
//! channel wired to another unit's output channel, to one of the
//! network's own input channels, or to a fixed zero.  Determinism comes
//! from sorting the units by identity; node and edge captions are built
//! here as exact strings, with HTML-sensitive characters escaped and
//! whitespace preserved.

use vstd::multiset::Multiset;
use vstd::prelude::*;

use crate::util::{push_decimal, spec_decimal};

verus! {

/// Where one input channel of a unit draws its signal from.
#[derive(Clone, Debug, PartialEq, Eq, Structural)]
pub enum WireSource {
    /// Output channel `port` of the unit with the given identity.
    Local { id: u64, port: usize },
    /// Global input channel `port` of the network.
    Global { port: usize },
    /// A fixed zero signal.
    Zero,
}

/// One unit of a composed network.
#[derive(Clone, Debug)]
pub struct UnitModel {
    /// The unit's numeric identity, used for stable ordering.
    pub id: u64,
    /// The unit's display caption.
    pub label: String,
    /// The source of each input channel.
    pub inputs: Vec<WireSource>,
}

/// Sort a network's units by their numeric identity: the result is
/// ordered and holds exactly the given units.
pub fn sort_units_by_id(units: Vec<UnitModel>) -> (r: Vec<UnitModel>)
    ensures
        r@.len() == units@.len(),
        forall|i: int, j: int| 0 <= i < j < r@.len() ==> r@[i].id <= r@[j].id,
        r@.to_multiset() == units@.to_multiset(),
{
    broadcast use vstd::seq_lib::group_to_multiset_ensures;
    broadcast use vstd::multiset::group_multiset_axioms;

    let ghost orig = units@;
    let mut input = units;
    let mut out: Vec<UnitModel> = Vec::new();
    while input.len() > 0
        invariant
            out@.len() + input@.len() == orig.len(),
            forall|i: int, j: int| 0 <= i < j < out@.len() ==> out@[i].id <= out@[j].id,
            forall|i: int, j: int|
                0 <= i < out@.len() && 0 <= j < input@.len() ==> out@[i].id <= input@[j].id,
            out@.to_multiset().add(input@.to_multiset()) =~= orig.to_multiset(),
        decreases input@.len(),
    {
        // Find the position of a minimal identity.
        let mut m: usize = 0;
        let mut j: usize = 1;
        while j < input.len()
            invariant
                m < j <= input@.len(),
                input@.len() > 0,
                forall|t: int| 0 <= t < j ==> input@[m as int].id <= input@[t].id,
            decreases input@.len() - j,
        {
            if input[j].id < input[m].id {
                m = j;
            }
            j += 1;
        }
        let ghost pre_input = input@;
        let ghost pre_out = out@;
        let u = input.remove(m);
        let ghost uu = u;
        out.push(u);
        proof {
            vstd::seq_lib::to_multiset_build(pre_out, uu);
            vstd::seq_lib::to_multiset_remove(pre_input, m as int);
            assert(out@ == pre_out.push(uu));
            assert(pre_out.push(uu).to_multiset() =~= pre_out.to_multiset().insert(uu));
            assert(input@ == pre_input.remove(m as int));
            assert(pre_input.remove(m as int).to_multiset() =~= pre_input.to_multiset().remove(
                pre_input[m as int],
            ));
            assert(pre_input.contains(pre_input[m as int]));
            vstd::seq_lib::to_multiset_contains(pre_input, pre_input[m as int]);
            assert(pre_input.to_multiset().count(pre_input[m as int]) > 0);
            assert(out@.to_multiset().add(input@.to_multiset()) =~= orig.to_multiset());
            assert(forall|t: int|
                0 <= t < input@.len() ==> #[trigger] input@[t] == (if t < m {
                    pre_input[t]
                } else {
                    pre_input[t + 1]
                }));
        }
    }
    proof {
        vstd::seq_lib::to_multiset_len(input@);
        assert(input@.to_multiset() =~= Multiset::<UnitModel>::empty());
        assert(out@.to_multiset() =~= orig.to_multiset());
    }
    out
}

/// The HTML-safe expansion of one caption character: the ampersand and
/// angle brackets escape to entities, a space keeps its width, and a line
/// break becomes an explicit break element.
pub open spec fn spec_escape_char(c: char) -> Seq<char> {
    if c == '&' {
        "&amp;"@
    } else if c == '<' {
        "&lt;"@
    } else if c == '>' {
        "&gt;"@
    } else if c == ' ' {
        "&nbsp;"@
    } else if c == '\n' {
        "<BR/>"@
    } else {
        seq![c]
    }
}

/// The HTML-safe expansion of a caption.
pub open spec fn spec_escape(s: Seq<char>) -> Seq<char>
    decreases s.len(),
{
    if s.len() == 0 {
        Seq::empty()
    } else {
        spec_escape_char(s[0]) + spec_escape(s.skip(1))
    }
}

/// Escaping a caption one character longer appends that character's
/// expansion.
proof fn lemma_escape_snoc(s: Seq<char>, c: char)
    ensures
        spec_escape(s.push(c)) == spec_escape(s) + spec_escape_char(c),
    decreases s.len(),
{
    if s.len() == 0 {
        assert(s.push(c)[0] == c);
        assert(s.push(c).skip(1) =~= Seq::<char>::empty());
        assert(spec_escape(Seq::<char>::empty()) =~= Seq::<char>::empty());
        assert(spec_escape(s.push(c)) =~= spec_escape(s) + spec_escape_char(c));
    } else {
        assert(s.push(c)[0] == s[0]);
        assert(s.push(c).skip(1) =~= s.skip(1).push(c));
        lemma_escape_snoc(s.skip(1), c);
        assert(spec_escape(s.push(c)) =~= spec_escape(s) + spec_escape_char(c));
    }
}

/// Escape a caption for use inside an HTML-like DOT label.
pub fn escape_html(s: &str) -> (r: String)
    ensures
        r@ == spec_escape(s@),
{
    proof {
        reveal_strlit("&amp;");
        reveal_strlit("&lt;");
        reveal_strlit("&gt;");
        reveal_strlit("&nbsp;");
        reveal_strlit("<BR/>");
    }
    let n = s.unicode_len();
    let mut out = String::new();
    let mut i: usize = 0;
    proof {
        assert(s@.take(0) =~= Seq::<char>::empty());
    }
    while i < n
        invariant
            i <= n,
            n == s@.len(),
            out@ == spec_escape(s@.take(i as int)),
        decreases n - i,
    {
        let c = s.get_char(i);
        if c == '&' {
            out.append("&amp;");
        } else if c == '<' {
            out.append("&lt;");
        } else if c == '>' {
            out.append("&gt;");
        } else if c == ' ' {
            out.append("&nbsp;");
        } else if c == '\n' {
            out.append("<BR/>");
        } else {
            out.append(s.substring_char(i, i + 1));
            proof {
                assert(s@.subrange(i as int, i + 1) =~= seq![s@[i as int]]);
            }
        }
        i += 1;
        proof {
            assert(s@.take(i as int) =~= s@.take(i - 1).push(s@[i - 1]));
            lemma_escape_snoc(s@.take(i - 1), s@[i - 1]);
        }
    }
    proof {
        assert(s@.take(n as int) =~= s@);
    }
    out
}

/// The caption of an edge: the source output port and the destination
/// input port, where known.
pub open spec fn spec_edge_label(src_port: Option<usize>, dst_port: Option<usize>) -> Seq<char> {
    match (src_port, dst_port) {
        (Some(sp), Some(dp)) => "label = \"out "@ + spec_decimal(sp as nat) + " -> in "@
            + spec_decimal(dp as nat) + "\""@,
        (Some(sp), None) => "label = \"out "@ + spec_decimal(sp as nat) + "\""@,
        (None, Some(dp)) => "label = \"in "@ + spec_decimal(dp as nat) + "\""@,
        (None, None) => Seq::empty(),
    }
}

/// Build the caption of an edge.
pub fn edge_label(src_port: Option<usize>, dst_port: Option<usize>) -> (r: String)
    ensures
        r@ == spec_edge_label(src_port, dst_port),
{
    proof {
        reveal_strlit("label = \"out ");
        reveal_strlit("label = \"in ");
        reveal_strlit(" -> in ");
        reveal_strlit("\"");
    }
    let mut out = String::new();
    match (src_port, dst_port) {
        (Some(sp), Some(dp)) => {
            out.append("label = \"out ");
            push_decimal(&mut out, sp as u128);
            out.append(" -> in ");
            push_decimal(&mut out, dp as u128);
            out.append("\"");
        },
        (Some(sp), None) => {
            out.append("label = \"out ");
            push_decimal(&mut out, sp as u128);
            out.append("\"");
        },
        (None, Some(dp)) => {
            out.append("label = \"in ");
            push_decimal(&mut out, dp as u128);
            out.append("\"");
        },
        (None, None) => {},
    }
    proof {
        assert(out@ =~= spec_edge_label(src_port, dst_port));
    }
    out
}

/// The DOT label attribute of a node: an HTML-like table holding the
/// escaped caption and, when given, an extra annotation row.
pub open spec fn spec_node_attr(caption: Seq<char>, extra: Option<Seq<char>>) -> Seq<char> {
    let head =
        "label = <<TABLE BORDER=\"1\" CELLBORDER=\"1\" CELLSPACING=\"0\" CELLPADDING=\"2\"><TR><TD><FONT FACE=\"monospace\" POINT-SIZE=\"10\">"@;
    let extra_row = match extra {
        Some(e) => "<TR><TD><FONT FACE=\"monospace\">"@ + spec_escape(e)
            + "</FONT></TD></TR>"@,
        None => Seq::empty(),
    };
    head + spec_escape(caption) + "</FONT></TD></TR>"@ + extra_row + "</TABLE>>"@
}

/// Build the DOT label attribute of a node.
pub fn node_attr(caption: &str, extra: Option<&str>) -> (r: String)
    ensures
        r@ == spec_node_attr(
            caption@,
            match extra {
                Some(e) => Some(e@),
                None => None,
            },
        ),
{
    proof {
        reveal_strlit(
            "label = <<TABLE BORDER=\"1\" CELLBORDER=\"1\" CELLSPACING=\"0\" CELLPADDING=\"2\"><TR><TD><FONT FACE=\"monospace\" POINT-SIZE=\"10\">",
        );
        reveal_strlit("<TR><TD><FONT FACE=\"monospace\">");
        reveal_strlit("</FONT></TD></TR>");
        reveal_strlit("</TABLE>>");
    }
    let mut out = String::from_str(
        "label = <<TABLE BORDER=\"1\" CELLBORDER=\"1\" CELLSPACING=\"0\" CELLPADDING=\"2\"><TR><TD><FONT FACE=\"monospace\" POINT-SIZE=\"10\">",
    );
    let escaped = escape_html(caption);
    out.append(escaped.as_str());
    out.append("</FONT></TD></TR>");
    if let Some(e) = extra {
        out.append("<TR><TD><FONT FACE=\"monospace\">");
        let extra_escaped = escape_html(e);
        out.append(extra_escaped.as_str());
        out.append("</FONT></TD></TR>");
    }
    out.append("</TABLE>>");
    proof {
        assert(out@ =~= spec_node_attr(
            caption@,
            match extra {
                Some(e) => Some(e@),
                None => None,
            },
        ));
    }
    out
}

/// The annotation of a unit node: its numeric identity.
pub open spec fn spec_unit_extra(id: u64) -> Seq<char> {
    " [id: NodeId("@ + spec_decimal(id as nat) + ")]"@
}

/// The annotation of a global channel node: its channel index.
pub open spec fn spec_channel_extra(port: usize) -> Seq<char> {
    " [ch: "@ + spec_decimal(port as nat) + "]"@
}

/// Build the DOT label attribute of a unit node.
pub fn unit_attr(caption: &str, id: u64) -> (r: String)
    ensures
        r@ == spec_node_attr(caption@, Some(spec_unit_extra(id))),
{
    proof {
        reveal_strlit(" [id: NodeId(");
        reveal_strlit(")]");
    }
    let mut extra = String::from_str(" [id: NodeId(");
    push_decimal(&mut extra, id as u128);
    extra.append(")]");
    proof {
        assert(extra@ =~= spec_unit_extra(id));
    }
    node_attr(caption, Some(extra.as_str()))
}

/// Build the DOT label attribute of a global input node.
pub fn global_in_attr(port: usize) -> (r: String)
    ensures
        r@ == spec_node_attr("IN["@ + spec_decimal(port as nat) + "]"@, Some(spec_channel_extra(port))),
{
    proof {
        reveal_strlit("IN[");
        reveal_strlit("]");
        reveal_strlit(" [ch: ");
        reveal_strlit(")]");
    }
    let mut caption = String::from_str("IN[");
    push_decimal(&mut caption, port as u128);
    caption.append("]");
    let mut extra = String::from_str(" [ch: ");
    push_decimal(&mut extra, port as u128);
    extra.append("]");
    proof {
        assert(caption@ =~= "IN["@ + spec_decimal(port as nat) + "]"@);
        assert(extra@ =~= spec_channel_extra(port));
    }
    node_attr(caption.as_str(), Some(extra.as_str()))
}

/// Build the DOT label attribute of a global output node.
pub fn global_out_attr(port: usize) -> (r: String)
    ensures
        r@ == spec_node_attr(
            "OUT["@ + spec_decimal(port as nat) + "]"@,
            Some(spec_channel_extra(port)),
        ),
{
    proof {
        reveal_strlit("OUT[");
        reveal_strlit("]");
        reveal_strlit(" [ch: ");
    }
    let mut caption = String::from_str("OUT[");
    push_decimal(&mut caption, port as u128);
    caption.append("]");
    let mut extra = String::from_str(" [ch: ");
    push_decimal(&mut extra, port as u128);
    extra.append("]");
    proof {
        assert(caption@ =~= "OUT["@ + spec_decimal(port as nat) + "]"@);
        assert(extra@ =~= spec_channel_extra(port));
    }
    node_attr(caption.as_str(), Some(extra.as_str()))
}

} // verus!
