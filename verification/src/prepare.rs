//! View preparation stage: pair every extracted grid visible under a
//! view's layer mask with that view's parameters, producing one uniform
//! block per (grid, view) pair, and reconstruct world points from pixels.

use vstd::prelude::*;
use crate::config::COORD_LIMIT;
use crate::config::InfiniteGrid2DSettings;
use crate::config::SCALE;
use crate::config::VIEWPORT_LIMIT;
use crate::config::VIEW_SCALE_LIMIT;
use crate::eval::PixelSample;
use crate::eval::axis_color_spec;
use crate::eval::grid_color_at;
use crate::eval::line_coverage_spec;
use crate::extract::ExtractedGrid;

verus! {

/// Per-view immutable-for-the-frame parameters: the camera's world
/// position, the orthographic zoom (world units per pixel, fixed point),
/// the viewport size in pixels, and the view's render-layer mask.
#[derive(Clone, Copy, Debug, PartialEq, Eq, Structural)]
pub struct ViewParameters {
    pub view_entity: u64,
    pub cam_x: i64,
    pub cam_y: i64,
    pub view_scale: i64,
    pub viewport_w: u32,
    pub viewport_h: u32,
    pub layer_mask: u32,
}

impl ViewParameters {
    /// Magnitude bounds only; a degenerate view (empty viewport or
    /// non-positive zoom) is still well formed — it is skipped, not
    /// rejected.
    pub open spec fn wf(self) -> bool {
        &&& -COORD_LIMIT <= self.cam_x <= COORD_LIMIT
        &&& -COORD_LIMIT <= self.cam_y <= COORD_LIMIT
        &&& self.view_scale <= VIEW_SCALE_LIMIT
        &&& self.viewport_w <= VIEWPORT_LIMIT
        &&& self.viewport_h <= VIEWPORT_LIMIT
    }
}

/// A view can be drawn into when its viewport has area and its
/// projection is invertible (positive zoom).
pub open spec fn view_valid(v: ViewParameters) -> bool {
    v.viewport_w > 0 && v.viewport_h > 0 && v.view_scale > 0
}

/// Two render-layer masks intersect when they share a layer.
pub open spec fn masks_intersect(a: u32, b: u32) -> bool {
    a & b != 0
}

/// The uniform block of one (grid, view) pair: everything the draw stage
/// and the per-pixel evaluation need.  The spacing is clamped here, so a
/// prepared draw always has a positive `grid_size`.
#[derive(Clone, Copy, Debug, PartialEq, Eq, Structural)]
pub struct PreparedGridDraw {
    pub entity: u64,
    pub view_entity: u64,
    pub settings: InfiniteGrid2DSettings,
    pub origin_x: i64,
    pub origin_y: i64,
    pub cam_x: i64,
    pub cam_y: i64,
    pub view_scale: i64,
    pub viewport_w: u32,
    pub viewport_h: u32,
}

impl PreparedGridDraw {
    pub open spec fn wf(self) -> bool {
        &&& self.settings.wf()
        &&& -COORD_LIMIT <= self.origin_x <= COORD_LIMIT
        &&& -COORD_LIMIT <= self.origin_y <= COORD_LIMIT
        &&& -COORD_LIMIT <= self.cam_x <= COORD_LIMIT
        &&& -COORD_LIMIT <= self.cam_y <= COORD_LIMIT
        &&& 0 < self.view_scale <= VIEW_SCALE_LIMIT
        &&& 0 < self.viewport_w <= VIEWPORT_LIMIT
        &&& 0 < self.viewport_h <= VIEWPORT_LIMIT
    }
}

/// The uniform block built from one extracted grid and one view.
pub open spec fn prepared_of(g: ExtractedGrid, v: ViewParameters) -> PreparedGridDraw {
    PreparedGridDraw {
        entity: g.entity,
        view_entity: v.view_entity,
        settings: g.settings.clamped_spec(),
        origin_x: g.origin_x,
        origin_y: g.origin_y,
        cam_x: v.cam_x,
        cam_y: v.cam_y,
        view_scale: v.view_scale,
        viewport_w: v.viewport_w,
        viewport_h: v.viewport_h,
    }
}

/// The prepared set of one view: every extracted grid whose layer mask
/// intersects the view's, in order, paired with the view.
pub open spec fn prepare_spec(s: Seq<ExtractedGrid>, v: ViewParameters) -> Seq<PreparedGridDraw>
    decreases s.len(),
{
    if s.len() == 0 {
        Seq::empty()
    } else {
        let rest = prepare_spec(s.drop_last(), v);
        if masks_intersect(s.last().layer_mask, v.layer_mask) {
            rest.push(prepared_of(s.last(), v))
        } else {
            rest
        }
    }
}

/// View preparation stage.  A degenerate view (empty viewport or
/// non-positive zoom) prepares nothing for this frame — recoverable next
/// frame, not an error.  Otherwise one uniform block per extracted grid
/// whose layer mask intersects the view's.
pub fn prepare_view(view: &ViewParameters, grids: &Vec<ExtractedGrid>) -> (out: Vec<
    PreparedGridDraw,
>)
    requires
        view.wf(),
        forall|i: int| 0 <= i < grids@.len() ==> (#[trigger] grids@[i]).wf(),
    ensures
        view_valid(*view) ==> out@ == prepare_spec(grids@, *view),
        !view_valid(*view) ==> out@ == Seq::<PreparedGridDraw>::empty(),
        forall|i: int| 0 <= i < out@.len() ==> (#[trigger] out@[i]).wf(),
{
    let mut out: Vec<PreparedGridDraw> = Vec::new();
    if view.viewport_w == 0 || view.viewport_h == 0 || view.view_scale <= 0 {
        return out;
    }
    let mut i: usize = 0;
    while i < grids.len()
        invariant
            i <= grids.len(),
            view.wf(),
            view_valid(*view),
            forall|t: int| 0 <= t < grids@.len() ==> (#[trigger] grids@[t]).wf(),
            out@ == prepare_spec(grids@.take(i as int), *view),
            forall|t: int| 0 <= t < out@.len() ==> (#[trigger] out@[t]).wf(),
        decreases grids.len() - i,
    {
        let g = grids[i];
        if g.layer_mask & view.layer_mask != 0 {
            out.push(
                PreparedGridDraw {
                    entity: g.entity,
                    view_entity: view.view_entity,
                    settings: g.settings.clamped(),
                    origin_x: g.origin_x,
                    origin_y: g.origin_y,
                    cam_x: view.cam_x,
                    cam_y: view.cam_y,
                    view_scale: view.view_scale,
                    viewport_w: view.viewport_w,
                    viewport_h: view.viewport_h,
                },
            );
        }
        proof {
            let t1 = grids@.take(i as int + 1);
            assert(t1.drop_last() =~= grids@.take(i as int));
            assert(t1.last() == grids@[i as int]);
        }
        i = i + 1;
    }
    proof {
        assert(grids@.take(grids@.len() as int) =~= grids@);
    }
    out
}

/// World x under screen pixel column `px`: the camera sits at the
/// viewport center and screen x grows rightward with world x.
pub open spec fn pixel_world_x(p: PreparedGridDraw, px: int) -> int {
    p.cam_x + (px - p.viewport_w / 2) * p.view_scale
}

/// World y under screen pixel row `py`: screen y grows downward, world y
/// grows upward.
pub open spec fn pixel_world_y(p: PreparedGridDraw, py: int) -> int {
    p.cam_y - (py - p.viewport_h / 2) * p.view_scale
}

/// The grid-local point under a pixel: the world point shifted by the
/// grid's world origin.
pub open spec fn local_x_spec(p: PreparedGridDraw, px: int) -> int {
    pixel_world_x(p, px) - p.origin_x
}

pub open spec fn local_y_spec(p: PreparedGridDraw, py: int) -> int {
    pixel_world_y(p, py) - p.origin_y
}

/// Evaluate one pixel of one prepared (grid, view) pair: reconstruct the
/// grid-local world point under the pixel and evaluate the grid there.
/// A pure function of its arguments — nothing persists between pixels.
pub fn evaluate_pixel(p: &PreparedGridDraw, px: u32, py: u32) -> (out: PixelSample)
    requires
        p.wf(),
        px < p.viewport_w,
        py < p.viewport_h,
    ensures
        out.color == axis_color_spec(
            local_x_spec(*p, px as int),
            local_y_spec(*p, py as int),
            p.settings,
            p.view_scale as int,
        ),
        out.alpha == line_coverage_spec(
            local_x_spec(*p, px as int),
            local_y_spec(*p, py as int),
            p.settings.grid_size as int,
            p.view_scale as int,
        ),
        0 <= out.alpha <= SCALE,
{
    let offx: i64 = px as i64 - (p.viewport_w / 2) as i64;
    let offy: i64 = py as i64 - (p.viewport_h / 2) as i64;
    proof {
        assert(-(VIEWPORT_LIMIT as int) <= offx <= VIEWPORT_LIMIT as int);
        assert(offx * p.view_scale <= VIEWPORT_LIMIT as int * VIEW_SCALE_LIMIT as int)
            by (nonlinear_arith)
            requires
                -(VIEWPORT_LIMIT as int) <= offx <= VIEWPORT_LIMIT as int,
                0 < p.view_scale <= VIEW_SCALE_LIMIT as int,
        ;
        assert(offx * p.view_scale >= -(VIEWPORT_LIMIT as int * VIEW_SCALE_LIMIT as int))
            by (nonlinear_arith)
            requires
                -(VIEWPORT_LIMIT as int) <= offx <= VIEWPORT_LIMIT as int,
                0 < p.view_scale <= VIEW_SCALE_LIMIT as int,
        ;
        assert(offy * p.view_scale <= VIEWPORT_LIMIT as int * VIEW_SCALE_LIMIT as int)
            by (nonlinear_arith)
            requires
                -(VIEWPORT_LIMIT as int) <= offy <= VIEWPORT_LIMIT as int,
                0 < p.view_scale <= VIEW_SCALE_LIMIT as int,
        ;
        assert(offy * p.view_scale >= -(VIEWPORT_LIMIT as int * VIEW_SCALE_LIMIT as int))
            by (nonlinear_arith)
            requires
                -(VIEWPORT_LIMIT as int) <= offy <= VIEWPORT_LIMIT as int,
                0 < p.view_scale <= VIEW_SCALE_LIMIT as int,
        ;
    }
    let wx: i64 = p.cam_x + offx * p.view_scale;
    let wy: i64 = p.cam_y - offy * p.view_scale;
    let lx: i64 = wx - p.origin_x;
    let ly: i64 = wy - p.origin_y;
    grid_color_at(lx, ly, &p.settings, p.view_scale)
}

} // verus!
