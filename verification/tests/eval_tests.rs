//! Tests of the per-pixel grid evaluation: coverage, anti-aliasing,
//! level-of-detail fade and axis highlighting, on concrete values.

use infinite_grid_2d::config::Color;
use infinite_grid_2d::config::InfiniteGrid2DSettings;
use infinite_grid_2d::config::SCALE;
use infinite_grid_2d::eval::grid_color_at;
use infinite_grid_2d::eval::line_coverage;
use infinite_grid_2d::eval::primary_level;

fn default_settings() -> InfiniteGrid2DSettings {
    InfiniteGrid2DSettings::default()
}

#[test]
fn default_settings_values() {
    let s = default_settings();
    assert_eq!(s.x_axis_color, Color { r: 1_000_000, g: 200_000, b: 200_000 });
    assert_eq!(s.y_axis_color, Color { r: 200_000, g: 1_000_000, b: 200_000 });
    assert_eq!(s.line_color, Color { r: 250_000, g: 250_000, b: 250_000 });
    assert_eq!(s.grid_size, 100 * SCALE);
    assert_eq!(s.sort_key, 0);
}

#[test]
fn clamp_non_positive_spacing() {
    let mut s = default_settings();
    s.grid_size = 0;
    assert_eq!(s.clamped().grid_size, 1);
    s.grid_size = -7_000_000;
    assert_eq!(s.clamped().grid_size, 1);
    s.grid_size = 42;
    assert_eq!(s.clamped().grid_size, 42);
}

#[test]
fn primary_level_at_unit_zoom() {
    // Camera at orthographic scale 1.0 (one world unit per pixel), grid
    // spacing 100 world units: lines are 100 pixels apart, the primary
    // (finest) level is level 0.
    assert_eq!(primary_level(100 * SCALE, SCALE), 0);
}

#[test]
fn primary_level_when_zoomed_out() {
    // 100 world units per pixel: level 0 lines would be one pixel apart
    // and are faded out; the primary level is level 1.
    assert_eq!(primary_level(100 * SCALE, 100 * SCALE), 1);
}

#[test]
fn coverage_zero_between_lines() {
    // World point (50, 50) with spacing 100 at scale 1.0: fifty units
    // from the nearest line of every active level, no coverage.
    assert_eq!(line_coverage(50 * SCALE, 50 * SCALE, 100 * SCALE, SCALE), 0);
}

#[test]
fn coverage_full_on_a_line() {
    // World point (0, 50): exactly on the vertical line x = 0.
    assert_eq!(line_coverage(0, 50 * SCALE, 100 * SCALE, SCALE), SCALE);
}

#[test]
fn coverage_falls_off_linearly() {
    // Half a world unit (half the anti-aliasing half-width at scale 1.0)
    // away from the line x = 0: half coverage.
    assert_eq!(line_coverage(SCALE / 2, 50 * SCALE, 100 * SCALE, SCALE), SCALE / 2);
}

#[test]
fn density_fade_weights_coarser_level() {
    // 100 world units per pixel, spacing 100: the primary level is
    // level 1 (spacing 1000, ten pixels on screen), partially faded.
    // On a level-1 line the blended coverage is the exact fade weight:
    // (10px - 2px) / (20px - 2px) of full coverage, truncated.
    let c = line_coverage(1000 * SCALE, 500 * SCALE, 100 * SCALE, 100 * SCALE);
    assert_eq!(c, 444_444);
}

#[test]
fn axis_precedence_at_origin() {
    // Both axis conditions hold at the origin; the y-axis color wins.
    let s = default_settings();
    let out = grid_color_at(0, 0, &s, SCALE);
    assert_eq!(out.color, s.y_axis_color);
    assert_eq!(out.alpha, SCALE);
}

#[test]
fn axis_colors_away_from_origin() {
    let s = default_settings();
    // On the vertical axis line (world x = 0), five cells up.
    let on_y_axis = grid_color_at(0, 5 * s.grid_size, &s, SCALE);
    assert_eq!(on_y_axis.color, s.y_axis_color);
    assert_eq!(on_y_axis.alpha, SCALE);
    // On the horizontal axis line (world y = 0), five cells right.
    let on_x_axis = grid_color_at(5 * s.grid_size, 0, &s, SCALE);
    assert_eq!(on_x_axis.color, s.x_axis_color);
    assert_eq!(on_x_axis.alpha, SCALE);
}

#[test]
fn plain_line_color_off_axis() {
    let s = default_settings();
    // On the grid line x = 100 (one cell right of the axis).
    let out = grid_color_at(100 * SCALE, 50 * SCALE, &s, SCALE);
    assert_eq!(out.color, s.line_color);
    assert_eq!(out.alpha, SCALE);
}

#[test]
fn transparent_between_lines() {
    let s = default_settings();
    let out = grid_color_at(50 * SCALE, 50 * SCALE, &s, SCALE);
    assert_eq!(out.color, s.line_color);
    assert_eq!(out.alpha, 0);
}

#[test]
fn half_width_tracks_zoom() {
    // The anti-aliased falloff spans one pixel at every zoom: at 10
    // world units per pixel, a point 5 world units from a line has half
    // coverage, just as 0.5 units does at 1 unit per pixel.
    let vs = 10 * SCALE;
    assert_eq!(line_coverage(5 * SCALE, 50 * SCALE, 100 * SCALE, vs), SCALE / 2);
}
