//! Grid configuration: colors, spacing and draw-order key of one grid
//! instance, in fixed-point units.

use vstd::prelude::*;

verus! {

/// One whole unit (1.0) in fixed-point: world units, pixels and color
/// intensities are all counted in units of 1/SCALE.
pub const SCALE: i64 = 1_000_000;

/// Smallest spacing a grid is clamped to when it is configured with a
/// spacing of zero or less (one raw fixed-point unit).
pub const GRID_MIN_SIZE: i64 = 1;

/// Magnitude bound on world coordinates handed to the pipeline (2^60 raw
/// units), so that distances and pixel reconstruction never overflow.
pub const COORD_LIMIT: i64 = 0x1000_0000_0000_0000;

/// Bound on the zoom, in world units per pixel (2^40 raw units).
pub const VIEW_SCALE_LIMIT: i64 = 0x100_0000_0000;

/// Bound on viewport dimensions, in pixels.
pub const VIEWPORT_LIMIT: u32 = 65_536;

/// An RGB color; each channel lies in `0 ..= SCALE`.
#[derive(Clone, Copy, Debug, PartialEq, Eq, Structural)]
pub struct Color {
    pub r: i64,
    pub g: i64,
    pub b: i64,
}

impl Color {
    /// Every channel lies inside the unit interval.
    pub open spec fn wf(self) -> bool {
        &&& 0 <= self.r <= SCALE
        &&& 0 <= self.g <= SCALE
        &&& 0 <= self.b <= SCALE
    }

    pub fn new(r: i64, g: i64, b: i64) -> (c: Color)
        ensures
            c.r == r,
            c.g == g,
            c.b == b,
    {
        Color { r, g, b }
    }
}

/// Marker for an entity that carries an infinite 2D grid.
#[derive(Clone, Copy, Debug, PartialEq, Eq, Structural, Default)]
pub struct InfiniteGrid2D;

/// Configuration of one grid instance.
///
/// `grid_size` is the world-space spacing between adjacent minor lines in
/// fixed-point units and must be positive; a non-positive value is clamped
/// to `GRID_MIN_SIZE` during view preparation.  `sort_key` resolves the
/// draw order among overlapping grids (ascending).
#[derive(Clone, Copy, Debug, PartialEq, Eq, Structural)]
pub struct InfiniteGrid2DSettings {
    pub x_axis_color: Color,
    pub y_axis_color: Color,
    pub line_color: Color,
    pub grid_size: i64,
    pub sort_key: i64,
}

impl InfiniteGrid2DSettings {
    /// All three colors are well formed.
    pub open spec fn colors_wf(self) -> bool {
        &&& self.x_axis_color.wf()
        &&& self.y_axis_color.wf()
        &&& self.line_color.wf()
    }

    /// Colors are well formed and the spacing is positive.
    pub open spec fn wf(self) -> bool {
        &&& self.colors_wf()
        &&& self.grid_size > 0
    }

    /// The same settings with the spacing clamped to a positive value.
    pub open spec fn clamped_spec(self) -> InfiniteGrid2DSettings {
        if self.grid_size <= 0 {
            InfiniteGrid2DSettings { grid_size: GRID_MIN_SIZE, ..self }
        } else {
            self
        }
    }

    /// Clamp a non-positive spacing to `GRID_MIN_SIZE`; anything else is
    /// returned unchanged.
    pub fn clamped(self) -> (s: InfiniteGrid2DSettings)
        ensures
            s == self.clamped_spec(),
            s.grid_size > 0,
    {
        if self.grid_size <= 0 {
            InfiniteGrid2DSettings { grid_size: GRID_MIN_SIZE, ..self }
        } else {
            self
        }
    }
}

/// The default configuration: a red x-axis, a green y-axis, dark grey
/// minor lines, a spacing of 100 world units and a neutral sort key.
pub open spec fn default_settings() -> InfiniteGrid2DSettings {
    InfiniteGrid2DSettings {
        x_axis_color: Color { r: 1_000_000, g: 200_000, b: 200_000 },
        y_axis_color: Color { r: 200_000, g: 1_000_000, b: 200_000 },
        line_color: Color { r: 250_000, g: 250_000, b: 250_000 },
        grid_size: 100_000_000,
        sort_key: 0,
    }
}

impl Default for InfiniteGrid2DSettings {
    fn default() -> (s: InfiniteGrid2DSettings)
        ensures
            s == default_settings(),
            s.wf(),
    {
        InfiniteGrid2DSettings {
            x_axis_color: Color { r: 1_000_000, g: 200_000, b: 200_000 },
            y_axis_color: Color { r: 200_000, g: 1_000_000, b: 200_000 },
            line_color: Color { r: 250_000, g: 250_000, b: 250_000 },
            grid_size: 100_000_000,
            sort_key: 0,
        }
    }
}

} // verus!
