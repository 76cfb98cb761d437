//! Extraction stage: the per-frame copy of simulation-world grid state
//! into the render pipeline's working set.
//!
//! Each frame's extracted set fully replaces the previous one; no history
//! is kept, and the simulation world is never mutated.

use vstd::prelude::*;
use crate::config::COORD_LIMIT;
use crate::config::InfiniteGrid2DSettings;

verus! {

/// One grid entity as the simulation world presents it to extraction:
/// its identity, its configuration, its resolved world transform (if it
/// has one), its render-layer mask, and whether its visibility test
/// passed for at least one view.
#[derive(Clone, Copy, Debug, PartialEq, Eq, Structural)]
pub struct GridInstance {
    pub entity: u64,
    pub settings: InfiniteGrid2DSettings,
    pub has_transform: bool,
    pub origin_x: i64,
    pub origin_y: i64,
    pub layer_mask: u32,
    pub visible: bool,
}

impl GridInstance {
    /// Colors well formed and the world origin inside the coordinate
    /// bound.  The spacing may still be non-positive here: it is clamped
    /// during view preparation, not rejected.
    pub open spec fn wf(self) -> bool {
        &&& self.settings.colors_wf()
        &&& -COORD_LIMIT <= self.origin_x <= COORD_LIMIT
        &&& -COORD_LIMIT <= self.origin_y <= COORD_LIMIT
    }
}

/// An immutable-for-the-frame snapshot of one eligible grid instance.
#[derive(Clone, Copy, Debug, PartialEq, Eq, Structural)]
pub struct ExtractedGrid {
    pub entity: u64,
    pub settings: InfiniteGrid2DSettings,
    pub origin_x: i64,
    pub origin_y: i64,
    pub layer_mask: u32,
}

impl ExtractedGrid {
    pub open spec fn wf(self) -> bool {
        &&& self.settings.colors_wf()
        &&& -COORD_LIMIT <= self.origin_x <= COORD_LIMIT
        &&& -COORD_LIMIT <= self.origin_y <= COORD_LIMIT
    }
}

/// A grid instance is extracted when it has a resolved world transform
/// and its visibility test did not fail for every view.
pub open spec fn eligible(g: GridInstance) -> bool {
    g.has_transform && g.visible
}

/// The snapshot taken of one eligible instance.
pub open spec fn extracted_of(g: GridInstance) -> ExtractedGrid {
    ExtractedGrid {
        entity: g.entity,
        settings: g.settings,
        origin_x: g.origin_x,
        origin_y: g.origin_y,
        layer_mask: g.layer_mask,
    }
}

/// The extracted set of a frame: the eligible instances, in order, each
/// snapshotted.
pub open spec fn extract_spec(s: Seq<GridInstance>) -> Seq<ExtractedGrid>
    decreases s.len(),
{
    if s.len() == 0 {
        Seq::empty()
    } else {
        let rest = extract_spec(s.drop_last());
        if eligible(s.last()) {
            rest.push(extracted_of(s.last()))
        } else {
            rest
        }
    }
}

/// Extraction stage: snapshot every eligible grid instance of this
/// frame, omitting entities without a resolved transform and entities
/// invisible in every view.  An instance with a non-positive spacing is
/// still extracted; the clamp happens in view preparation.
pub fn extract_grids(grids: &Vec<GridInstance>) -> (out: Vec<ExtractedGrid>)
    requires
        forall|i: int| 0 <= i < grids@.len() ==> (#[trigger] grids@[i]).wf(),
    ensures
        out@ == extract_spec(grids@),
        forall|i: int| 0 <= i < out@.len() ==> (#[trigger] out@[i]).wf(),
{
    let mut out: Vec<ExtractedGrid> = Vec::new();
    let mut i: usize = 0;
    while i < grids.len()
        invariant
            i <= grids.len(),
            forall|t: int| 0 <= t < grids@.len() ==> (#[trigger] grids@[t]).wf(),
            out@ == extract_spec(grids@.take(i as int)),
            forall|t: int| 0 <= t < out@.len() ==> (#[trigger] out@[t]).wf(),
        decreases grids.len() - i,
    {
        let g = grids[i];
        if g.has_transform && g.visible {
            out.push(
                ExtractedGrid {
                    entity: g.entity,
                    settings: g.settings,
                    origin_x: g.origin_x,
                    origin_y: g.origin_y,
                    layer_mask: g.layer_mask,
                },
            );
        }
        proof {
            let t1 = grids@.take(i as int + 1);
            assert(t1.drop_last() =~= grids@.take(i as int));
            assert(t1.last() == grids@[i as int]);
        }
        i = i + 1;
    }
    proof {
        assert(grids@.take(grids@.len() as int) =~= grids@);
    }
    out
}

} // verus!
