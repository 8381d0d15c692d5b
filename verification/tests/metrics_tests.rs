use title_card::metrics::GlyphMetrics;
use title_card::metrics::VerticalMetrics;
use title_card::scale::Scale;

fn sample_metrics() -> GlyphMetrics {
    let vertical = VerticalMetrics::new(800, -200, 100).unwrap();
    let mut metrics = GlyphMetrics::new(vertical, 500);
    metrics.set_advance('W', 1000);
    metrics.set_advance('i', 250);
    metrics.set_advance('\u{301}', 0);
    metrics
}

#[test]
fn vertical_metrics_need_a_positive_height() {
    assert!(VerticalMetrics::new(0, 0, 0).is_none());
    assert!(VerticalMetrics::new(-300, -200, 50).is_none());
    assert!(VerticalMetrics::new(i16::MIN, i16::MAX, 0).is_none());
    let vertical = VerticalMetrics::new(800, -200, 100).unwrap();
    assert_eq!(vertical.height_units(), 1000);
    assert_eq!(vertical.line_height_units(), 1100);
    assert_eq!(vertical.ascent_units(), 800);
    assert_eq!(vertical.descent_units(), -200);
    assert_eq!(vertical.line_gap_units(), 100);
}

#[test]
fn vertical_metrics_at_the_limits() {
    let tall = VerticalMetrics::new(i16::MAX, i16::MIN, i16::MAX).unwrap();
    assert_eq!(tall.height_units(), 65535);
    assert_eq!(tall.line_height_units(), 65535 + 32767);
    let negative_gap = VerticalMetrics::new(1, 0, i16::MIN).unwrap();
    assert_eq!(negative_gap.height_units(), 1);
    assert_eq!(negative_gap.line_height_units(), 1 - 32768);
}

#[test]
fn advance_falls_back_for_unknown_characters() {
    let metrics = sample_metrics();
    assert_eq!(metrics.advance_of('W'), 1000);
    assert_eq!(metrics.advance_of('i'), 250);
    assert_eq!(metrics.advance_of('x'), 500);
    assert_eq!(metrics.advance_of('語'), 500);
}

#[test]
fn set_advance_changes_one_character_only() {
    let mut metrics = sample_metrics();
    metrics.set_advance('x', 123);
    assert_eq!(metrics.advance_of('x'), 123);
    assert_eq!(metrics.advance_of('W'), 1000);
    assert_eq!(metrics.advance_of('y'), 500);
    metrics.set_advance('x', 7);
    assert_eq!(metrics.advance_of('x'), 7);
    assert_eq!(metrics.vertical_metrics().height_units(), 1000);
}

#[test]
fn measure_sums_the_advances() {
    let metrics = sample_metrics();
    assert_eq!(metrics.measure(""), 0);
    assert_eq!(metrics.measure("W"), 1000);
    assert_eq!(metrics.measure("Wi"), 1250);
    assert_eq!(metrics.measure("Hi"), 750);
    assert_eq!(metrics.measure("日本語"), 1500);
    assert_eq!(metrics.measure("e\u{301}"), 500);
}

#[test]
fn measuring_again_gives_the_same_width() {
    let metrics = sample_metrics();
    let scale = Scale::from_pixels(50).unwrap();
    let first = metrics.width("Wi日本", scale);
    let second = metrics.width("Wi日本", scale);
    assert_eq!(first, second);
    assert_eq!(metrics.measure("Wi日本"), metrics.measure("Wi日本"));
}

#[test]
fn measure_is_additive_over_concatenation() {
    let metrics = sample_metrics();
    let left = "Wi語";
    let right = "iiW ";
    let joined = format!("{}{}", left, right);
    assert_eq!(metrics.measure(&joined), metrics.measure(left) + metrics.measure(right));
}

#[test]
fn width_is_advance_times_steps() {
    let metrics = sample_metrics();
    let scale = Scale::from_pixels(50).unwrap();
    assert_eq!(metrics.width("W", scale), 1000 * 3200);
    assert_eq!(metrics.width("Wi", scale), 1250 * 3200);
    let twice = Scale::from_pixels(100).unwrap();
    assert_eq!(metrics.width("Wi", twice), 2 * metrics.width("Wi", scale));
}

#[test]
fn extent_counts_scaled_units_per_pixel() {
    let metrics = sample_metrics();
    assert_eq!(metrics.extent_of(0), 0);
    assert_eq!(metrics.extent_of(1), 64_000);
    assert_eq!(metrics.extent_of(630), 40_320_000);
    assert_eq!(metrics.extent_of(u32::MAX), u32::MAX as u64 * 64_000);
}

#[test]
fn fits_width_at_the_boundary() {
    let metrics = sample_metrics();
    let one_pixel = Scale::from_steps(64).unwrap();
    assert!(metrics.fits_width("W", one_pixel, 1));
    let a_step_more = Scale::from_steps(65).unwrap();
    assert!(!metrics.fits_width("W", a_step_more, 1));
    assert!(metrics.fits_width("", a_step_more, 0));
    assert!(!metrics.fits_width("W", one_pixel, 0));
}

#[test]
fn scales_are_strictly_positive() {
    assert!(Scale::from_steps(0).is_none());
    assert!(Scale::from_pixels(0).is_none());
    assert_eq!(Scale::from_steps(1).unwrap().steps(), 1);
    assert_eq!(Scale::from_pixels(50).unwrap().steps(), 3200);
    assert_eq!(Scale::from_pixels(67_108_863).unwrap().steps(), 4_294_967_232);
    assert!(Scale::from_pixels(67_108_864).is_none());
}

#[test]
fn nearest_scale_stays_on_the_grid() {
    assert_eq!(Scale::nearest(0).steps(), 1);
    assert_eq!(Scale::nearest(1).steps(), 1);
    assert_eq!(Scale::nearest(4480).steps(), 4480);
    assert_eq!(Scale::nearest(u32::MAX as u128).steps(), u32::MAX);
    assert_eq!(Scale::nearest(u32::MAX as u128 + 1).steps(), u32::MAX);
    assert_eq!(Scale::nearest(u128::MAX).steps(), u32::MAX);
}

#[test]
fn min_picks_the_smaller_scale() {
    let small = Scale::from_pixels(70).unwrap();
    let large = Scale::from_pixels(100).unwrap();
    assert_eq!(small.min(large), small);
    assert_eq!(large.min(small), small);
    assert_eq!(small.min(small), small);
}
