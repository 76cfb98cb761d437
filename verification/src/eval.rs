//! Per-pixel grid evaluation: multi-level anti-aliased line coverage,
//! density fade between levels of detail, and axis highlighting.
//!
//! Everything is a pure function of the sample point, the view's zoom and
//! the grid settings; no state persists between pixels or frames.  The
//! zoom, `view_scale`, is the width of one screen pixel in world units
//! (fixed point): large values mean the camera is zoomed out.

use vstd::prelude::*;
use vstd::arithmetic::div_mod::lemma_fundamental_div_mod;
use vstd::arithmetic::div_mod::lemma_fundamental_div_mod_converse;
use vstd::arithmetic::div_mod::lemma_mod_division_less_than_divisor;
use vstd::arithmetic::div_mod::lemma_div_multiples_vanish;
use crate::config::Color;
use crate::config::InfiniteGrid2DSettings;
use crate::config::SCALE;

verus! {

/// On-screen spacing (in pixel fixed-point units) below which a level of
/// detail is fully faded out: lines closer than two pixels apart would
/// alias.
pub const FADE_LO_PX: i64 = 2_000_000;

/// On-screen spacing at which a level of detail is fully faded in.  The
/// window `FADE_LO_PX .. FADE_HI_PX` spans exactly one factor of ten, so
/// at every zoom at most two adjacent levels are cross-faded.
pub const FADE_HI_PX: i64 = 20_000_000;

/// Anti-aliased line half-width in screen pixels.
pub const AA_HALF_WIDTH_PX: i64 = 1;

/// Coarsest level of detail ever considered; spacings grow by a factor of
/// ten per level, so this covers the whole fixed-point zoom range.
pub const MAX_LEVEL: u32 = 20;

/// Clamp a fixed-point value to the unit interval `0 ..= SCALE`.
pub open spec fn clamp_unit(x: int) -> int {
    if x < 0 {
        0
    } else if x > SCALE {
        SCALE as int
    } else {
        x
    }
}

/// Ten to the power `k`.
pub open spec fn pow10(k: nat) -> int
    decreases k,
{
    if k == 0 {
        1
    } else {
        10 * pow10((k - 1) as nat)
    }
}

pub proof fn lemma_pow10_pos(k: nat)
    ensures
        pow10(k) >= 1,
    decreases k,
{
    if k > 0 {
        lemma_pow10_pos((k - 1) as nat);
        assert(10 * pow10((k - 1) as nat) >= 10) by (nonlinear_arith)
            requires
                pow10((k - 1) as nat) >= 1,
        ;
    }
}

/// Line spacing of level `k`: the configured spacing times `10^k`.
pub open spec fn spacing_at(grid_size: int, k: nat) -> int {
    grid_size * pow10(k)
}

/// How far apart the lines of a level with world spacing `spacing` appear
/// on screen, in pixel fixed-point units.
pub open spec fn screen_spacing_px(spacing: int, view_scale: int) -> int {
    spacing * SCALE / view_scale
}

/// Density-fade weight of a level whose lines are `sp_px` apart on
/// screen: 0 below `FADE_LO_PX`, 1 (= `SCALE`) above `FADE_HI_PX`, linear
/// in between.
pub open spec fn fade_weight_spec(sp_px: int) -> int {
    clamp_unit((sp_px - FADE_LO_PX) * SCALE / (FADE_HI_PX - FADE_LO_PX))
}

/// World-space distance from coordinate `x` to the nearest multiple of
/// `s` (the nearest grid line of spacing `s`).
pub open spec fn dist_to_line_spec(x: int, s: int) -> int {
    let m = x % s;
    if m <= s - m {
        m
    } else {
        s - m
    }
}

/// Anti-aliased coverage of a single line at distance `d` from its
/// center, with half-width `hw`: 1 (= `SCALE`) at the center, falling
/// linearly to 0 at one half-width.
pub open spec fn coverage_1d_spec(d: int, hw: int) -> int {
    if d >= hw {
        0
    } else {
        (hw - d) * SCALE / hw
    }
}

/// Coverage of the grid lines of one level at the local point `(x, y)`:
/// a pixel is covered if it is near a vertical or a horizontal line.
pub open spec fn coverage_2d_spec(x: int, y: int, s: int, hw: int) -> int {
    vstd::math::max(
        coverage_1d_spec(dist_to_line_spec(x, s), hw),
        coverage_1d_spec(dist_to_line_spec(y, s), hw),
    )
}

/// Euclidean remainder of `x` by `m` (always in `0 .. m`).
fn floor_mod_w(x: i128, m: i128) -> (r: i128)
    requires
        m > 0,
        x > i128::MIN,
    ensures
        r == x as int % m as int,
        0 <= r < m,
{
    proof {
        lemma_mod_division_less_than_divisor(x as int, m as int);
    }
    if x >= 0 {
        x % m
    } else {
        let t: i128 = (-x) % m;
        proof {
            let xi = x as int;
            let mi = m as int;
            let ti = t as int;
            let q = (-xi) / mi;
            lemma_fundamental_div_mod(-xi, mi);
            lemma_mod_division_less_than_divisor(-xi, mi);
            if ti == 0 {
                assert(xi == (-q) * mi + 0) by (nonlinear_arith)
                    requires
                        -xi == mi * q + ti,
                        ti == 0,
                ;
                lemma_fundamental_div_mod_converse(xi, mi, -q, 0);
            } else {
                assert(xi == (-q - 1) * mi + (mi - ti)) by (nonlinear_arith)
                    requires
                        -xi == mi * q + ti,
                ;
                lemma_fundamental_div_mod_converse(xi, mi, -q - 1, mi - ti);
            }
        }
        if t == 0 {
            0
        } else {
            m - t
        }
    }
}

/// Distance from `x` to the nearest multiple of the spacing `s`.
fn dist_to_line_w(x: i128, s: i128) -> (d: i128)
    requires
        s > 0,
        x > i128::MIN,
    ensures
        d == dist_to_line_spec(x as int, s as int),
        0 <= d,
        2 * d <= s,
{
    let r = floor_mod_w(x, s);
    if r <= s - r {
        r
    } else {
        s - r
    }
}

/// Anti-aliased single-line coverage at distance `d`, half-width `hw`.
fn coverage_1d_w(d: i128, hw: i128) -> (c: i128)
    requires
        0 < hw <= 0x8000_0000_0000_0000,
        0 <= d,
    ensures
        c == coverage_1d_spec(d as int, hw as int),
        0 <= c <= SCALE,
{
    if d >= hw {
        0
    } else {
        let c = (hw - d) * (SCALE as i128) / hw;
        proof {
            let di = d as int;
            let hwi = hw as int;
            assert(0 <= (hwi - di) * SCALE / hwi <= SCALE) by (nonlinear_arith)
                requires
                    0 <= di < hwi,
            ;
        }
        c
    }
}

/// Coverage of one level at the local point `(x, y)`.
fn coverage_2d_w(x: i128, y: i128, s: i128, hw: i128) -> (c: i128)
    requires
        s > 0,
        0 < hw <= 0x8000_0000_0000_0000,
        x > i128::MIN,
        y > i128::MIN,
    ensures
        c == coverage_2d_spec(x as int, y as int, s as int, hw as int),
        0 <= c <= SCALE,
{
    let dx = dist_to_line_w(x, s);
    let dy = dist_to_line_w(y, s);
    let cx = coverage_1d_w(dx, hw);
    let cy = coverage_1d_w(dy, hw);
    if cx >= cy {
        cx
    } else {
        cy
    }
}

/// Density-fade weight for an on-screen spacing of `sp_px`.
fn fade_weight_w(sp_px: i128) -> (w: i128)
    requires
        sp_px < 0x1_0000_0000_0000_0000_0000_0000,
    ensures
        w == fade_weight_spec(sp_px as int),
        0 <= w <= SCALE,
{
    if sp_px <= FADE_LO_PX as i128 {
        proof {
            let n = (sp_px as int - FADE_LO_PX) * SCALE;
            assert(n <= 0) by (nonlinear_arith)
                requires
                    sp_px as int - FADE_LO_PX <= 0,
                    n == (sp_px as int - FADE_LO_PX) * SCALE,
            ;
            assert(n / (FADE_HI_PX - FADE_LO_PX) <= 0);
        }
        0
    } else {
        let t = (sp_px - FADE_LO_PX as i128) * (SCALE as i128) / ((FADE_HI_PX - FADE_LO_PX) as i128);
        if t >= SCALE as i128 {
            SCALE as i128
        } else {
            t
        }
    }
}

} // verus!

use vstd::arithmetic::div_mod::lemma_div_nonincreasing;
use vstd::arithmetic::div_mod::lemma_small_mod;

verus! {

/// Whether the lines of a level with world spacing `spacing` are more
/// than `FADE_LO_PX` apart on screen (stated multiplicatively, so it is
/// exact: `spacing / view_scale > FADE_LO_PX / SCALE`).
pub open spec fn level_visible(spacing: int, view_scale: int) -> bool {
    spacing * SCALE > FADE_LO_PX * view_scale
}

/// The primary level of detail at a given zoom: the finest level whose
/// lines are far enough apart on screen not to be fully faded out
/// (capped at `MAX_LEVEL`).
pub open spec fn primary_level_spec(grid_size: int, view_scale: int, k: nat) -> nat
    decreases MAX_LEVEL - k,
{
    if k >= MAX_LEVEL {
        MAX_LEVEL as nat
    } else if level_visible(spacing_at(grid_size, k), view_scale) {
        k
    } else {
        primary_level_spec(grid_size, view_scale, k + 1)
    }
}

/// World-space half-width of a rendered line: `AA_HALF_WIDTH_PX` screen
/// pixels, whatever the zoom.
pub open spec fn half_width_spec(view_scale: int) -> int {
    view_scale * AA_HALF_WIDTH_PX
}

/// Blended line coverage at the local point `(x, y)`: the primary level,
/// weighted by its density fade, cross-faded with the next coarser level
/// (which is always fully faded in, since the fade window spans one
/// factor of ten).
pub open spec fn line_coverage_spec(x: int, y: int, grid_size: int, view_scale: int) -> int {
    let hw = half_width_spec(view_scale);
    let k0 = primary_level_spec(grid_size, view_scale, 0);
    let s0 = spacing_at(grid_size, k0);
    let w = fade_weight_spec(screen_spacing_px(s0, view_scale));
    let fine = coverage_2d_spec(x, y, s0, hw) * w / (SCALE as int);
    let coarse = coverage_2d_spec(x, y, spacing_at(grid_size, (k0 + 1) as nat), hw);
    vstd::math::max(fine, coarse)
}

proof fn lemma_spacing_step(grid_size: int, k: nat)
    ensures
        spacing_at(grid_size, (k + 1) as nat) == 10 * spacing_at(grid_size, k),
{
    assert(pow10((k + 1) as nat) == 10 * pow10(k));
    assert(grid_size * (10 * pow10(k)) == 10 * (grid_size * pow10(k))) by (nonlinear_arith);
}

proof fn lemma_spacing_pos(grid_size: int, k: nat)
    requires
        grid_size > 0,
    ensures
        spacing_at(grid_size, k) >= grid_size,
{
    lemma_pow10_pos(k);
    assert(grid_size * pow10(k) >= grid_size * 1) by (nonlinear_arith)
        requires
            grid_size > 0,
            pow10(k) >= 1,
    ;
}

/// The primary level and its spacing, found by walking the levels from
/// the configured spacing upward until one is not fully faded out.
fn level_and_spacing(grid_size: i64, view_scale: i64) -> (r: (u32, i128))
    requires
        grid_size > 0,
        view_scale > 0,
    ensures
        r.0 as nat == primary_level_spec(grid_size as int, view_scale as int, 0),
        r.1 == spacing_at(grid_size as int, r.0 as nat),
        0 < r.1 <= vstd::math::max(grid_size as int, 30 * view_scale as int),
{
    let gsi = grid_size as i128;
    let vsi = view_scale as i128;
    let fade_lo_vs: i128 = (FADE_LO_PX as i128) * vsi;
    let mut k: u32 = 0;
    let mut spacing: i128 = gsi;
    let mut done: bool = false;
    while !done && k < MAX_LEVEL
        invariant
            grid_size > 0,
            view_scale > 0,
            gsi == grid_size as int,
            vsi == view_scale as int,
            fade_lo_vs == FADE_LO_PX * (view_scale as int),
            k <= MAX_LEVEL,
            spacing == spacing_at(grid_size as int, k as nat),
            0 < spacing <= vstd::math::max(grid_size as int, 30 * view_scale as int),
            primary_level_spec(grid_size as int, view_scale as int, 0)
                == primary_level_spec(grid_size as int, view_scale as int, k as nat),
            done ==> k < MAX_LEVEL && level_visible(
                spacing_at(grid_size as int, k as nat),
                view_scale as int,
            ),
        decreases (if done { 0int } else { 1int }), MAX_LEVEL - k,
    {
        if spacing * (SCALE as i128) > fade_lo_vs {
            done = true;
        } else {
            proof {
                let sp = spacing as int;
                let vs = view_scale as int;
                assert(SCALE == 1_000_000);
                assert(FADE_LO_PX == 2_000_000);
                assert(sp * SCALE <= FADE_LO_PX * vs);
                assert(10 * sp <= 30 * vs) by (nonlinear_arith)
                    requires
                        sp * 1_000_000 <= 2_000_000 * vs,
                        vs > 0,
                ;
                lemma_spacing_step(grid_size as int, k as nat);
            }
            spacing = spacing * 10;
            k = k + 1;
        }
    }
    (k, spacing)
}

/// The primary (finest visible) level of detail at this zoom, for a grid
/// of the given spacing.
pub fn primary_level(grid_size: i64, view_scale: i64) -> (k: u32)
    requires
        grid_size > 0,
        view_scale > 0,
    ensures
        k as nat == primary_level_spec(grid_size as int, view_scale as int, 0),
{
    let r = level_and_spacing(grid_size, view_scale);
    r.0
}

/// Blended, anti-aliased line coverage of the grid at the local point
/// `(x, y)`, in `0 ..= SCALE`.
pub fn line_coverage(x: i64, y: i64, grid_size: i64, view_scale: i64) -> (c: i64)
    requires
        grid_size > 0,
        view_scale > 0,
    ensures
        c == line_coverage_spec(x as int, y as int, grid_size as int, view_scale as int),
        0 <= c <= SCALE,
{
    let r = level_and_spacing(grid_size, view_scale);
    let spacing = r.1;
    let vsi = view_scale as i128;
    let hw = vsi * (AA_HALF_WIDTH_PX as i128);
    proof {
        assert(spacing as int * SCALE >= 0);
        lemma_div_nonincreasing(spacing as int * SCALE, view_scale as int);
    }
    let sp_px = spacing * (SCALE as i128) / vsi;
    let w = fade_weight_w(sp_px);
    let cov_fine = coverage_2d_w(x as i128, y as i128, spacing, hw);
    proof {
        assert(0 <= cov_fine as int * w as int <= SCALE * SCALE) by (nonlinear_arith)
            requires
                0 <= cov_fine as int <= SCALE,
                0 <= w as int <= SCALE,
        ;
    }
    let prod = cov_fine * w;
    let fine = prod / (SCALE as i128);
    proof {
        lemma_spacing_step(grid_size as int, r.0 as nat);
    }
    let cov_coarse = coverage_2d_w(x as i128, y as i128, spacing * 10, hw);
    let cbig = if fine >= cov_coarse {
        fine
    } else {
        cov_coarse
    };
    cbig as i64
}

/// One evaluated pixel: the chosen tint and the line-coverage alpha.
#[derive(Clone, Copy, Debug, PartialEq, Eq, Structural)]
pub struct PixelSample {
    pub color: Color,
    pub alpha: i64,
}

/// The tint at the local point `(x, y)`: the vertical axis line (world
/// x near 0) is tinted with `y_axis_color`, the horizontal one with
/// `x_axis_color`, everything else with `line_color`.  Near the origin
/// both conditions hold and the y-axis color wins: the vertical axis
/// takes precedence.
pub open spec fn axis_color_spec(
    x: int,
    y: int,
    settings: InfiniteGrid2DSettings,
    view_scale: int,
) -> Color {
    if vstd::math::abs(x) < half_width_spec(view_scale) {
        settings.y_axis_color
    } else if vstd::math::abs(y) < half_width_spec(view_scale) {
        settings.x_axis_color
    } else {
        settings.line_color
    }
}

/// Evaluate the grid at the local point `(x, y)`: color and alpha of the
/// pixel over that point.  Alpha is 0 where no line passes, so the scene
/// beneath shows through unmodified.
pub fn grid_color_at(
    x: i64,
    y: i64,
    settings: &InfiniteGrid2DSettings,
    view_scale: i64,
) -> (out: PixelSample)
    requires
        settings.wf(),
        view_scale > 0,
    ensures
        out.color == axis_color_spec(x as int, y as int, *settings, view_scale as int),
        out.alpha == line_coverage_spec(
            x as int,
            y as int,
            settings.grid_size as int,
            view_scale as int,
        ),
        0 <= out.alpha <= SCALE,
        out.color.wf(),
{
    let alpha = line_coverage(x, y, settings.grid_size, view_scale);
    let hw = (view_scale as i128) * (AA_HALF_WIDTH_PX as i128);
    let xi = x as i128;
    let yi = y as i128;
    let ax: i128 = if xi < 0 { -xi } else { xi };
    let ay: i128 = if yi < 0 { -yi } else { yi };
    let color = if ax < hw {
        settings.y_axis_color
    } else if ay < hw {
        settings.x_axis_color
    } else {
        settings.line_color
    };
    PixelSample { color, alpha }
}

} // verus!

verus! {

/// The rendered line half-width, measured in screen pixels, is the same
/// at every camera position, spacing and zoom: exactly `AA_HALF_WIDTH_PX`
/// pixels, which lies inside the half-pixel-to-two-pixel band.  Lines
/// neither fatten nor vanish as the camera zooms, over the whole zoom
/// range at once.
pub proof fn lemma_half_width_constant_on_screen(grid_size: int, view_scale: int)
    requires
        grid_size > 0,
        view_scale > 0,
    ensures
        half_width_spec(view_scale) == AA_HALF_WIDTH_PX * view_scale,
        view_scale <= 2 * half_width_spec(view_scale),
        half_width_spec(view_scale) <= 2 * view_scale,
{
}

/// Continuity of the density fade: the fade weight of a level moves by
/// at most `SCALE / (FADE_HI_PX - FADE_LO_PX)` per unit of on-screen
/// spacing (plus one rounding unit), so no level of detail ever pops in
/// or out discretely as the zoom changes.
pub proof fn lemma_fade_weight_continuous(a: int, b: int)
    ensures
        vstd::math::abs(fade_weight_spec(a) - fade_weight_spec(b)) * (FADE_HI_PX - FADE_LO_PX)
            <= vstd::math::abs(a - b) * SCALE + (FADE_HI_PX - FADE_LO_PX),
{
    let d = (FADE_HI_PX - FADE_LO_PX) as int;
    let ua = (a - FADE_LO_PX) * SCALE;
    let ub = (b - FADE_LO_PX) * SCALE;
    lemma_fundamental_div_mod(ua, d);
    lemma_fundamental_div_mod(ub, d);
    lemma_mod_division_less_than_divisor(ua, d);
    lemma_mod_division_less_than_divisor(ub, d);
    let qa = ua / d;
    let qb = ub / d;
    assert(d * (qa - qb) == (a - b) * SCALE + ub % d - ua % d) by (nonlinear_arith)
        requires
            ua == d * qa + ua % d,
            ub == d * qb + ub % d,
            ua - ub == (a - b) * SCALE,
    ;
    assert(vstd::math::abs(qa - qb) * d <= vstd::math::abs(a - b) * SCALE + d) by (nonlinear_arith)
        requires
            d * (qa - qb) == (a - b) * SCALE + ub % d - ua % d,
            0 <= ua % d < d,
            0 <= ub % d < d,
            d > 0,
    ;
    assert(vstd::math::abs(fade_weight_spec(a) - fade_weight_spec(b)) <= vstd::math::abs(
        qa - qb,
    ));
    assert(vstd::math::abs(fade_weight_spec(a) - fade_weight_spec(b)) * d <= vstd::math::abs(
        qa - qb,
    ) * d) by (nonlinear_arith)
        requires
            vstd::math::abs(fade_weight_spec(a) - fade_weight_spec(b)) <= vstd::math::abs(qa - qb),
            d > 0,
    ;
}

/// Axis precedence and axis highlighting.  The vertical axis line (world
/// x = 0) takes precedence at the origin, where both axis conditions
/// hold: the output color there is `y_axis_color`.  Away from the origin
/// each axis shows its own color, and the origin pixel is fully covered.
pub proof fn lemma_axis_precedence(settings: InfiniteGrid2DSettings, view_scale: int)
    requires
        settings.wf(),
        0 < view_scale <= 5 * settings.grid_size,
    ensures
        axis_color_spec(0, 0, settings, view_scale) == settings.y_axis_color,
        axis_color_spec(0, 5 * settings.grid_size, settings, view_scale)
            == settings.y_axis_color,
        axis_color_spec(5 * settings.grid_size, 0, settings, view_scale)
            == settings.x_axis_color,
        line_coverage_spec(0, 0, settings.grid_size as int, view_scale) == SCALE,
{
    let gs = settings.grid_size as int;
    let k0 = primary_level_spec(gs, view_scale, 0);
    lemma_spacing_pos(gs, k0);
    lemma_spacing_pos(gs, (k0 + 1) as nat);
    let s0 = spacing_at(gs, k0);
    let s1 = spacing_at(gs, (k0 + 1) as nat);
    lemma_small_mod(0nat, s0 as nat);
    lemma_small_mod(0nat, s1 as nat);
    let hw = half_width_spec(view_scale);
    assert(hw == view_scale);
    assert(dist_to_line_spec(0, s0) == 0);
    assert(dist_to_line_spec(0, s1) == 0);
    lemma_div_multiples_vanish(SCALE as int, hw);
    assert(coverage_1d_spec(0, hw) == SCALE);
    assert(coverage_2d_spec(0, 0, s0, hw) == SCALE);
    assert(coverage_2d_spec(0, 0, s1, hw) == SCALE);
    let w = fade_weight_spec(screen_spacing_px(s0, view_scale));
    lemma_div_multiples_vanish(w, SCALE as int);
    assert((SCALE as int) * w / (SCALE as int) == w);
    assert(0 <= w <= SCALE);
}

} // verus!

use vstd::arithmetic::div_mod::lemma_div_is_ordered;

verus! {

proof fn lemma_coverage_continuous_ordered(d1: int, d2: int, hw: int)
    requires
        hw > 0,
        0 <= d1 <= d2,
    ensures
        coverage_1d_spec(d2, hw) <= coverage_1d_spec(d1, hw),
        (coverage_1d_spec(d1, hw) - coverage_1d_spec(d2, hw)) * hw <= (d2 - d1) * SCALE + hw,
{
    if d1 >= hw {
        assert(coverage_1d_spec(d1, hw) == 0);
        assert(coverage_1d_spec(d2, hw) == 0);
    } else if d2 >= hw {
        let u1 = (hw - d1) * SCALE;
        lemma_fundamental_div_mod(u1, hw);
        lemma_mod_division_less_than_divisor(u1, hw);
        assert(u1 >= 0) by (nonlinear_arith)
            requires
                u1 == (hw - d1) * SCALE,
                hw - d1 > 0,
                SCALE > 0,
        ;
        assert(u1 / hw >= 0) by (nonlinear_arith)
            requires
                u1 == hw * (u1 / hw) + u1 % hw,
                0 <= u1 % hw < hw,
                u1 >= 0,
                hw > 0,
        ;
        assert((u1 / hw) * hw <= u1) by (nonlinear_arith)
            requires
                u1 == hw * (u1 / hw) + u1 % hw,
                0 <= u1 % hw,
        ;
        assert(u1 <= (d2 - d1) * SCALE) by (nonlinear_arith)
            requires
                u1 == (hw - d1) * SCALE,
                hw - d1 <= d2 - d1,
        ;
    } else {
        let u1 = (hw - d1) * SCALE;
        let u2 = (hw - d2) * SCALE;
        lemma_fundamental_div_mod(u1, hw);
        lemma_fundamental_div_mod(u2, hw);
        lemma_mod_division_less_than_divisor(u1, hw);
        lemma_mod_division_less_than_divisor(u2, hw);
        assert(u2 <= u1) by (nonlinear_arith)
            requires
                u1 == (hw - d1) * SCALE,
                u2 == (hw - d2) * SCALE,
                d1 <= d2,
        ;
        assert(u2 >= 0) by (nonlinear_arith)
            requires
                u2 == (hw - d2) * SCALE,
                hw - d2 > 0,
        ;
        lemma_div_is_ordered(u2, u1, hw);
        assert(u1 - u2 == (d2 - d1) * SCALE) by (nonlinear_arith)
            requires
                u1 == (hw - d1) * SCALE,
                u2 == (hw - d2) * SCALE,
        ;
        assert((u1 / hw - u2 / hw) * hw <= (d2 - d1) * SCALE + hw) by (nonlinear_arith)
            requires
                u1 == hw * (u1 / hw) + u1 % hw,
                u2 == hw * (u2 / hw) + u2 % hw,
                0 <= u1 % hw < hw,
                0 <= u2 % hw < hw,
                u1 - u2 == (d2 - d1) * SCALE,
                hw > 0,
        ;
    }
}

/// Continuity of the anti-aliased coverage ramp: the single-line
/// coverage moves by at most `SCALE / hw` per unit of distance (plus one
/// rounding unit), so the rendered edge of a line fades smoothly instead
/// of stepping.
pub proof fn lemma_coverage_continuous(d1: int, d2: int, hw: int)
    requires
        hw > 0,
        0 <= d1,
        0 <= d2,
    ensures
        vstd::math::abs(coverage_1d_spec(d1, hw) - coverage_1d_spec(d2, hw)) * hw
            <= vstd::math::abs(d1 - d2) * SCALE + hw,
{
    if d1 <= d2 {
        lemma_coverage_continuous_ordered(d1, d2, hw);
    } else {
        lemma_coverage_continuous_ordered(d2, d1, hw);
    }
}

} // verus!

use vstd::arithmetic::div_mod::lemma_mod_mod;

verus! {

/// Every line of a coarser level lies on a line of the finer level (its
/// multiples are a subset), so a point is never closer to the coarser
/// level's lines than to the finer level's, and the coarser level's
/// coverage never exceeds the finer level's.  This is what keeps the
/// cross-faded blend continuous when the primary level hands over to
/// the next coarser one.
pub proof fn lemma_coarser_level_coverage(x: int, s: int, hw: int)
    requires
        s > 0,
        hw > 0,
    ensures
        dist_to_line_spec(x, s) <= dist_to_line_spec(x, 10 * s),
        coverage_1d_spec(dist_to_line_spec(x, 10 * s), hw) <= coverage_1d_spec(
            dist_to_line_spec(x, s),
            hw,
        ),
{
    let m10 = x % (10 * s);
    let m = x % s;
    lemma_mod_mod(x, s, 10);
    assert(s * 10 == 10 * s);
    assert(m == m10 % s);
    lemma_mod_division_less_than_divisor(x, 10 * s);
    lemma_mod_division_less_than_divisor(x, s);
    lemma_mod_division_less_than_divisor(m10, s);
    lemma_fundamental_div_mod(m10, s);
    let q = m10 / s;
    assert(0 <= q <= 9) by (nonlinear_arith)
        requires
            m10 == s * q + m,
            0 <= m < s,
            0 <= m10 < 10 * s,
            s > 0,
    ;
    assert(m <= m10) by (nonlinear_arith)
        requires
            m10 == s * q + m,
            q >= 0,
            s > 0,
    ;
    assert(s - m <= 10 * s - m10) by (nonlinear_arith)
        requires
            m10 == s * q + m,
            q <= 9,
            s > 0,
    ;
    let ds = dist_to_line_spec(x, s);
    let d10 = dist_to_line_spec(x, 10 * s);
    assert(ds <= d10);
    if d10 >= hw {
        assert(coverage_1d_spec(d10, hw) == 0);
        if ds < hw {
            assert((hw - ds) * SCALE / hw >= 0) by (nonlinear_arith)
                requires
                    0 <= ds < hw,
                    SCALE > 0,
            ;
        }
    } else {
        assert((hw - d10) * SCALE <= (hw - ds) * SCALE) by (nonlinear_arith)
            requires
                ds <= d10,
                SCALE > 0,
        ;
        assert((hw - d10) * SCALE >= 0) by (nonlinear_arith)
            requires
                d10 < hw,
                SCALE > 0,
        ;
        lemma_div_is_ordered((hw - d10) * SCALE, (hw - ds) * SCALE, hw);
    }
}

} // verus!
