use cc_bar::chart::{colors_for_model, generate_line_svg};
use std::collections::VecDeque;

#[test]
fn test_generate_line_svg_empty() {
    let samples = VecDeque::new();
    let svg = generate_line_svg(&samples, "Opus");
    assert!(svg.contains("viewBox=\"0 0 42 42\""));
    assert!(!svg.contains("polyline"));
}

#[test]
fn test_generate_line_svg_single_sample() {
    let mut samples = VecDeque::new();
    samples.push_back(50);
    let svg = generate_line_svg(&samples, "Sonnet");
    assert!(svg.contains("polyline"));
    assert!(svg.contains("#3366E6"));
}

#[test]
fn test_generate_line_svg_full_samples() {
    let mut samples = VecDeque::new();
    for i in 0..21u32 {
        samples.push_back(i * 5);
    }
    let svg = generate_line_svg(&samples, "Haiku");
    assert!(svg.contains("#1AB34D"));
    assert!(svg.contains("polygon"));
    assert!(svg.contains("polyline"));
    // Last point x = (20 * 2) + 1 = 41
    assert!(svg.contains("41,"));
}

#[test]
fn test_colors_for_model() {
    let opus = colors_for_model("Opus");
    assert_eq!(opus.line, "#FF8C1A");

    let sonnet = colors_for_model("Sonnet");
    assert_eq!(sonnet.line, "#3366E6");

    let haiku = colors_for_model("Haiku");
    assert_eq!(haiku.line, "#1AB34D");

    let unknown = colors_for_model("Unknown");
    assert_eq!(unknown.line, "#808080");
}

#[test]
fn colors_fill_background_frame() {
    let opus = colors_for_model("Opus");
    assert_eq!(opus.fill, "#FF8C1A60");
    assert_eq!(opus.background, "#1A1A1AE0");
    assert_eq!(opus.frame, "#FF8C1A40");
    assert_eq!(colors_for_model("Sonnet").frame, "#3366E640");
    assert_eq!(colors_for_model("Haiku").frame, "#1AB34D40");
    assert_eq!(colors_for_model("Unknown").frame, "#FFFFFF");
    let other = colors_for_model("Opus 4.6");
    assert_eq!(other.line, "#808080");
    assert_eq!(other.fill, "#80808060");
}

#[test]
fn svg_empty_is_frame_only() {
    let samples: VecDeque<u32> = VecDeque::new();
    let svg = generate_line_svg(&samples, "Opus");
    assert_eq!(
        svg,
        "<svg xmlns=\"http://www.w3.org/2000/svg\" viewBox=\"0 0 42 42\">\
<defs><clipPath id=\"rc\"><rect width=\"42\" height=\"42\" rx=\"7\"/></clipPath></defs>\
<g clip-path=\"url(#rc)\">\
<rect width=\"42\" height=\"42\" fill=\"#1A1A1AE0\"/>\
<rect x=\"0.5\" y=\"0.5\" width=\"41\" height=\"41\" rx=\"6.5\" fill=\"none\" stroke=\"#FF8C1A40\" stroke-width=\"1\"/>\
</g></svg>"
    );
}

#[test]
fn svg_points_exact() {
    let mut samples = VecDeque::new();
    samples.push_back(0);
    samples.push_back(50);
    samples.push_back(100);
    samples.push_back(250);
    samples.push_back(1);
    let svg = generate_line_svg(&samples, "Sonnet");
    assert!(svg.contains(
        "<polygon points=\"1,41.0 3,21.0 5,1.0 7,1.0 9,40.6 9,42 1,42\" fill=\"#3366E660\" stroke=\"none\"/>"
    ));
    assert!(svg.contains(
        "<polyline points=\"1,41.0 3,21.0 5,1.0 7,1.0 9,40.6\" fill=\"none\" stroke=\"#3366E6\" stroke-width=\"1.5\" stroke-linejoin=\"round\" stroke-linecap=\"round\"/>"
    ));
    assert!(svg.ends_with("</g></svg>"));
}

#[test]
fn svg_single_sample_polygon() {
    let mut samples = VecDeque::new();
    samples.push_back(75);
    let svg = generate_line_svg(&samples, "Haiku");
    assert!(svg.contains("<polygon points=\"1,11.0 1,42 1,42\""));
}

#[test]
fn svg_paints_all_colours() {
    let mut samples = VecDeque::new();
    samples.push_back(10);
    let svg = generate_line_svg(&samples, "Haiku");
    let c = colors_for_model("Haiku");
    assert!(svg.contains(&format!(r#"<rect width="42" height="42" fill="{}"/>"#, c.background)));
    assert!(svg.contains(&format!(r#"stroke="{}" stroke-width="1"/>"#, c.frame)));
    assert!(svg.contains(&format!(r#"fill="{}" stroke="none"/>"#, c.fill)));
    assert!(svg.contains(&format!(r#"stroke="{}" stroke-width="1.5""#, c.line)));
}
