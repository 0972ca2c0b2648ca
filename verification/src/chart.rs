//! The panel chart: per-model colours and the SVG line chart of a usage history.
use vstd::prelude::*;
use std::collections::VecDeque;
use crate::text::{decimal, digit_char, push_char, push_decimal, str_eq, digit_to_char};

verus! {

/// The four colours of a chart.
pub struct ChartColors {
    pub line: &'static str,
    pub fill: &'static str,
    pub background: &'static str,
    pub frame: &'static str,
}

/// The line colour for a model type.
pub open spec fn line_color(model_type: Seq<char>) -> Seq<char> {
    if model_type == "Opus"@ {
        "#FF8C1A"@
    } else if model_type == "Sonnet"@ {
        "#3366E6"@
    } else if model_type == "Haiku"@ {
        "#1AB34D"@
    } else {
        "#808080"@
    }
}

/// The fill colour for a model type: its line colour at alpha `0x60`.
pub open spec fn fill_color(model_type: Seq<char>) -> Seq<char> {
    if model_type == "Opus"@ {
        "#FF8C1A60"@
    } else if model_type == "Sonnet"@ {
        "#3366E660"@
    } else if model_type == "Haiku"@ {
        "#1AB34D60"@
    } else {
        "#80808060"@
    }
}

/// The background colour, the same for every model.
pub open spec fn background_color() -> Seq<char> {
    "#1A1A1AE0"@
}

/// The frame colour for a model type: its line colour at alpha `0x40`, and
/// white for models other than the three named ones.
pub open spec fn frame_color(model_type: Seq<char>) -> Seq<char> {
    if model_type == "Opus"@ {
        "#FF8C1A40"@
    } else if model_type == "Sonnet"@ {
        "#3366E640"@
    } else if model_type == "Haiku"@ {
        "#1AB34D40"@
    } else {
        "#FFFFFF"@
    }
}

/// The chart colours for a model type (`"Opus"`, `"Sonnet"`, `"Haiku"`;
/// anything else gets grey with a white frame).
pub fn colors_for_model(model_type: &str) -> (c: ChartColors)
    ensures
        c.line@ == line_color(model_type@),
        c.fill@ == fill_color(model_type@),
        c.background@ == background_color(),
        c.frame@ == frame_color(model_type@),
        (model_type@ == "Opus"@ || model_type@ == "Sonnet"@ || model_type@ == "Haiku"@) ==> {
            &&& c.fill@ == c.line@ + seq!['6', '0']
            &&& c.frame@ == c.line@ + seq!['4', '0']
        },
{
    proof {
        crate::laws::law_model_colours(model_type@);
    }
    if str_eq(model_type, "Opus") {
        ChartColors { line: "#FF8C1A", fill: "#FF8C1A60", background: "#1A1A1AE0", frame: "#FF8C1A40" }
    } else if str_eq(model_type, "Sonnet") {
        ChartColors { line: "#3366E6", fill: "#3366E660", background: "#1A1A1AE0", frame: "#3366E640" }
    } else if str_eq(model_type, "Haiku") {
        ChartColors { line: "#1AB34D", fill: "#1AB34D60", background: "#1A1A1AE0", frame: "#1AB34D40" }
    } else {
        ChartColors { line: "#808080", fill: "#80808060", background: "#1A1A1AE0", frame: "#FFFFFF" }
    }
}

} // verus!

verus! {

/// A usage percentage clamped to `0..=100`.
pub open spec fn clamp_percent(v: u32) -> nat {
    if v > 100 {
        100
    } else {
        v as nat
    }
}

/// The y coordinate of a sample, in tenths: `41 - 0.4 * v` for the clamped
/// value `v`, so 0 % sits at the bottom (41) and 100 % at the top (1).
pub open spec fn y_tenths(v: u32) -> nat {
    (410 - 4 * clamp_percent(v)) as nat
}

/// `t / 10` written with exactly one decimal digit (`{:.1}`).
pub open spec fn one_decimal(t: nat) -> Seq<char> {
    decimal(t / 10).push('.').push(digit_char(t % 10))
}

/// The x coordinate of the sample at index `i`.
pub open spec fn x_coord(i: nat) -> nat {
    2 * i + 1
}

/// One chart point, `x,y`.
pub open spec fn point(i: nat, v: u32) -> Seq<char> {
    decimal(x_coord(i)).push(',') + one_decimal(y_tenths(v))
}

/// The points of all samples, separated by single spaces.
pub open spec fn points(s: Seq<u32>) -> Seq<char>
    decreases s.len(),
{
    if s.len() == 0 {
        Seq::empty()
    } else if s.len() == 1 {
        point(0, s[0])
    } else {
        points(s.drop_last()).push(' ') + point((s.len() - 1) as nat, s.last())
    }
}

/// The background rectangle, filled with the background colour.
pub open spec fn background_rect(model_type: Seq<char>) -> Seq<char> {
    "<rect width=\"42\" height=\"42\" fill=\""@ + background_color() + "\"/>"@
}

/// The frame's stroke attributes, in the frame colour.
pub open spec fn frame_stroke(model_type: Seq<char>) -> Seq<char> {
    "stroke=\""@ + frame_color(model_type) + "\" stroke-width=\"1\"/>"@
}

/// The filled area's paint attributes, in the fill colour.
pub open spec fn area_fill(model_type: Seq<char>) -> Seq<char> {
    "fill=\""@ + fill_color(model_type) + "\" stroke=\"none\"/>"@
}

/// The line's stroke colour and width.
pub open spec fn line_stroke(model_type: Seq<char>) -> Seq<char> {
    "stroke=\""@ + line_color(model_type) + "\" stroke-width=\"1.5\""@
}

/// The opening of every chart: the SVG element, a rounded clip path, the
/// background and the frame.
pub open spec fn svg_prefix(model_type: Seq<char>) -> Seq<char> {
    "<svg xmlns=\"http://www.w3.org/2000/svg\" viewBox=\"0 0 42 42\">"@
        + "<defs><clipPath id=\"rc\"><rect width=\"42\" height=\"42\" rx=\"7\"/></clipPath></defs>"@
        + "<g clip-path=\"url(#rc)\">"@ + background_rect(model_type)
        + "<rect x=\"0.5\" y=\"0.5\" width=\"41\" height=\"41\" rx=\"6.5\" fill=\"none\" "@
        + frame_stroke(model_type)
}

/// The closing of every chart.
pub open spec fn svg_suffix() -> Seq<char> {
    "</g></svg>"@
}

/// The filled area under the line: the points, closed along the bottom edge
/// from the last x back to the first.
pub open spec fn svg_polygon(s: Seq<u32>, model_type: Seq<char>) -> Seq<char> {
    "<polygon points=\""@ + points(s) + seq![' '] + decimal(x_coord((s.len() - 1) as nat))
        + ",42 "@ + decimal(x_coord(0)) + ",42"@ + "\" "@ + area_fill(model_type)
}

/// The line through the points.
pub open spec fn svg_polyline(s: Seq<u32>, model_type: Seq<char>) -> Seq<char> {
    "<polyline points=\""@ + points(s) + "\" fill=\"none\" "@ + line_stroke(model_type)
        + " stroke-linejoin=\"round\" stroke-linecap=\"round\"/>"@
}

/// The whole SVG document for a usage history: with no samples only the
/// frame, otherwise the filled area and the line as well.
pub open spec fn line_svg(s: Seq<u32>, model_type: Seq<char>) -> Seq<char> {
    if s.len() == 0 {
        svg_prefix(model_type) + svg_suffix()
    } else {
        svg_prefix(model_type) + svg_polygon(s, model_type) + svg_polyline(s, model_type)
            + svg_suffix()
    }
}

/// `t` occurs in `s` as a contiguous piece.
pub open spec fn contains_text(s: Seq<char>, t: Seq<char>) -> bool {
    exists|i: int| 0 <= i <= s.len() - t.len() && #[trigger] s.subrange(i, i + t.len()) == t
}

/// Appends `t / 10` with one decimal digit.
fn push_one_decimal(s: &mut String, t: u32)
    ensures
        final(s)@ == old(s)@ + one_decimal(t as nat),
{
    push_decimal(s, (t / 10) as u64);
    push_char(s, '.');
    push_char(s, digit_to_char((t % 10) as u64));
    assert(s@ =~= old(s)@ + one_decimal(t as nat));
}

/// Appends the point of sample `v` at index `i`.
fn push_point(s: &mut String, i: usize, v: u32)
    requires
        i < usize::MAX / 2,
    ensures
        final(s)@ == old(s)@ + point(i as nat, v),
{
    push_decimal(s, (i * 2 + 1) as u64);
    push_char(s, ',');
    let c: u32 = if v > 100 {
        100
    } else {
        v
    };
    push_one_decimal(s, 410 - 4 * c);
    assert(s@ =~= old(s)@ + point(i as nat, v));
}

/// Renders the SVG line chart of a usage history (percentages, oldest first)
/// in the colours of `model_type`, on a 42 x 42 canvas with one sample every
/// two units.
pub fn generate_line_svg(samples: &VecDeque<u32>, model_type: &str) -> (svg: String)
    requires
        samples@.len() <= usize::MAX / 2,
    ensures
        svg@ == line_svg(samples@, model_type@),
        contains_text(svg@, background_rect(model_type@)),
        contains_text(svg@, frame_stroke(model_type@)),
        samples@.len() > 0 ==> contains_text(svg@, area_fill(model_type@)),
        samples@.len() > 0 ==> contains_text(svg@, line_stroke(model_type@)),
{
    let colors = colors_for_model(model_type);
    let mut svg = String::new();
    svg.append("<svg xmlns=\"http://www.w3.org/2000/svg\" viewBox=\"0 0 42 42\">");
    svg.append("<defs><clipPath id=\"rc\"><rect width=\"42\" height=\"42\" rx=\"7\"/></clipPath></defs>");
    svg.append("<g clip-path=\"url(#rc)\">");
    svg.append("<rect width=\"42\" height=\"42\" fill=\"");
    svg.append(colors.background);
    svg.append("\"/>");
    let ghost head = svg@;
    svg.append("<rect x=\"0.5\" y=\"0.5\" width=\"41\" height=\"41\" rx=\"6.5\" fill=\"none\" ");
    svg.append("stroke=\"");
    svg.append(colors.frame);
    svg.append("\" stroke-width=\"1\"/>");
    assert(svg@ =~= head + "<rect x=\"0.5\" y=\"0.5\" width=\"41\" height=\"41\" rx=\"6.5\" fill=\"none\" "@
        + frame_stroke(model_type@));
    assert(svg@ =~= svg_prefix(model_type@));
    let n = samples.len();
    if n == 0 {
        svg.append("</g></svg>");
        assert(svg@ =~= line_svg(samples@, model_type@));
        proof {
            crate::laws::law_chart_colours(samples@, model_type@);
        }
        return svg;
    }
    let mut line_points = String::new();
    let mut i: usize = 0;
    while i < n
        invariant
            n == samples@.len(),
            n <= usize::MAX / 2,
            i <= n,
            line_points@ == points(samples@.take(i as int)),
        decreases n - i,
    {
        let ghost before = line_points@;
        if i > 0 {
            push_char(&mut line_points, ' ');
        }
        push_point(&mut line_points, i, samples[i]);
        proof {
            let t = samples@.take(i + 1);
            assert(t.drop_last() =~= samples@.take(i as int));
            assert(t.last() == samples@[i as int]);
            if i == 0 {
                assert(before =~= Seq::<char>::empty());
            }
            assert(line_points@ =~= points(t));
        }
        i = i + 1;
    }
    assert(samples@.take(n as int) =~= samples@);
    let ghost pre = svg@;
    svg.append("<polygon points=\"");
    svg.append(line_points.as_str());
    push_char(&mut svg, ' ');
    push_decimal(&mut svg, ((n - 1) * 2 + 1) as u64);
    svg.append(",42 ");
    push_decimal(&mut svg, 1);
    svg.append(",42");
    svg.append("\" ");
    svg.append("fill=\"");
    svg.append(colors.fill);
    svg.append("\" stroke=\"none\"/>");
    assert(svg@ =~= pre + svg_polygon(samples@, model_type@));
    let ghost mid = svg@;
    svg.append("<polyline points=\"");
    svg.append(line_points.as_str());
    svg.append("\" fill=\"none\" ");
    svg.append("stroke=\"");
    svg.append(colors.line);
    svg.append("\" stroke-width=\"1.5\"");
    svg.append(" stroke-linejoin=\"round\" stroke-linecap=\"round\"/>");
    assert(svg@ =~= mid + svg_polyline(samples@, model_type@));
    svg.append("</g></svg>");
    assert(svg@ =~= line_svg(samples@, model_type@));
    proof {
        crate::laws::law_chart_colours(samples@, model_type@);
    }
    svg
}

} // verus!
