//! The per-frame, per-view pipeline: extraction, view preparation and
//! queuing composed, and the frame-level laws that hold across them.

use vstd::prelude::*;
use crate::config::default_settings;
use crate::extract::GridInstance;
use crate::extract::eligible;
use crate::extract::extract_grids;
use crate::extract::extract_spec;
use crate::extract::extracted_of;
use crate::extract::ExtractedGrid;
use crate::prepare::ViewParameters;
use crate::prepare::masks_intersect;
use crate::prepare::prepare_spec;
use crate::prepare::prepare_view;
use crate::prepare::prepared_of;
use crate::prepare::PreparedGridDraw;
use crate::prepare::view_valid;
use crate::queue::DrawItem;
use crate::queue::item_of;
use crate::queue::items_of;
use crate::queue::insert_item;
use crate::queue::queue_draw_items;
use crate::queue::sort_items;
use crate::queue::sorted_items;
use crate::queue::lemma_sort_items_sorted;

verus! {

/// The sorted draw list one view receives for one frame's grid set.
pub open spec fn frame_spec(s: Seq<GridInstance>, v: ViewParameters) -> Seq<DrawItem> {
    sort_items(items_of(prepare_spec(extract_spec(s), v)))
}

/// One view's whole frame: snapshot the eligible grids, pair the ones
/// visible under the view's layer mask with the view, and queue the
/// sorted draw items.  A degenerate view receives an empty draw list.
pub fn frame_draw_list(grids: &Vec<GridInstance>, view: &ViewParameters) -> (out: Vec<DrawItem>)
    requires
        view.wf(),
        forall|i: int| 0 <= i < grids@.len() ==> (#[trigger] grids@[i]).wf(),
    ensures
        view_valid(*view) ==> out@ == frame_spec(grids@, *view),
        !view_valid(*view) ==> out@ == Seq::<DrawItem>::empty(),
        sorted_items(out@),
{
    let extracted = extract_grids(grids);
    let prepared = prepare_view(view, &extracted);
    let out = queue_draw_items(&prepared);
    proof {
        if !view_valid(*view) {
            assert(items_of(prepared@) =~= Seq::<DrawItem>::empty());
        }
        lemma_sort_items_sorted(items_of(prepared@));
    }
    out
}

/// How many queued items draw the grid entity `e`.
pub open spec fn draw_count(s: Seq<DrawItem>, e: u64) -> int
    decreases s.len(),
{
    if s.len() == 0 {
        0
    } else {
        draw_count(s.drop_last(), e) + if s.last().entity == e {
            1int
        } else {
            0int
        }
    }
}

/// Visibility gating: in a frame holding one eligible grid, a view whose
/// layer mask does not intersect the grid's receives no draw item at
/// all, and a view whose mask intersects it receives exactly one draw
/// item, for that grid.
pub proof fn lemma_visibility_gating(g: GridInstance, v: ViewParameters)
    requires
        eligible(g),
        view_valid(v),
    ensures
        !masks_intersect(g.layer_mask, v.layer_mask) ==> frame_spec(seq![g], v).len() == 0,
        masks_intersect(g.layer_mask, v.layer_mask) ==> frame_spec(seq![g], v).len() == 1
            && draw_count(frame_spec(seq![g], v), g.entity) == 1,
{
    let s = seq![g];
    lemma_singleton_frame(s, g, v);
    if masks_intersect(g.layer_mask, v.layer_mask) {
        assert(frame_spec(s, v).drop_last() =~= Seq::<DrawItem>::empty());
        assert(draw_count(Seq::<DrawItem>::empty(), g.entity) == 0);
        assert(frame_spec(s, v).last().entity == g.entity);
    }
}

/// Unfolding of the whole pipeline on a one-grid frame.
proof fn lemma_singleton_frame(s: Seq<GridInstance>, g: GridInstance, v: ViewParameters)
    requires
        s == seq![g],
        eligible(g),
    ensures
        extract_spec(s) == seq![extracted_of(g)],
        masks_intersect(g.layer_mask, v.layer_mask) ==> frame_spec(s, v) == seq![
            item_of(prepared_of(extracted_of(g), v)),
        ],
        !masks_intersect(g.layer_mask, v.layer_mask) ==> frame_spec(s, v) == Seq::<
            DrawItem,
        >::empty(),
{
    assert(s.drop_last() =~= Seq::<GridInstance>::empty());
    assert(extract_spec(Seq::<GridInstance>::empty()) == Seq::<ExtractedGrid>::empty());
    assert(s.last() == g);
    assert(extract_spec(s) =~= seq![extracted_of(g)]);
    let ex = seq![extracted_of(g)];
    assert(ex.drop_last() =~= Seq::<ExtractedGrid>::empty());
    assert(prepare_spec(Seq::<ExtractedGrid>::empty(), v) == Seq::<PreparedGridDraw>::empty());
    if masks_intersect(g.layer_mask, v.layer_mask) {
        assert(prepare_spec(ex, v) =~= seq![prepared_of(extracted_of(g), v)]);
        let p = seq![prepared_of(extracted_of(g), v)];
        assert(items_of(p) =~= seq![item_of(prepared_of(extracted_of(g), v))]);
        let it = seq![item_of(prepared_of(extracted_of(g), v))];
        assert(it.drop_last() =~= Seq::<DrawItem>::empty());
        assert(sort_items(Seq::<DrawItem>::empty()) == Seq::<DrawItem>::empty());
        assert(insert_item(Seq::<DrawItem>::empty(), it.last()) =~= seq![it.last()]);
        assert(sort_items(it) =~= it);
    } else {
        assert(prepare_spec(ex, v) =~= Seq::<PreparedGridDraw>::empty());
        assert(items_of(prepare_spec(ex, v)) =~= Seq::<DrawItem>::empty());
        assert(sort_items(Seq::<DrawItem>::empty()) == Seq::<DrawItem>::empty());
    }
}

/// Round trip: the default configuration survives extraction,
/// preparation and queuing unchanged — the prepared uniform block holds
/// the default colors, spacing and sort key exactly, and the queued item
/// carries the default sort key under the grid's own entity.
pub proof fn lemma_default_round_trip(g: GridInstance, v: ViewParameters)
    requires
        g.settings == default_settings(),
        eligible(g),
        view_valid(v),
        masks_intersect(g.layer_mask, v.layer_mask),
    ensures
        ({
            let p = prepare_spec(extract_spec(seq![g]), v);
            &&& p.len() == 1
            &&& p[0].settings == default_settings()
            &&& p[0].origin_x == g.origin_x
            &&& p[0].origin_y == g.origin_y
            &&& frame_spec(seq![g], v).len() == 1
            &&& frame_spec(seq![g], v)[0].sort_key == default_settings().sort_key
            &&& frame_spec(seq![g], v)[0].entity == g.entity
        }),
{
    let s = seq![g];
    lemma_singleton_frame(s, g, v);
    assert(prepare_spec(extract_spec(s), v) =~= seq![prepared_of(extracted_of(g), v)]) by {
        assert(extract_spec(s).drop_last() =~= Seq::<ExtractedGrid>::empty());
        assert(prepare_spec(Seq::<ExtractedGrid>::empty(), v) == Seq::<
            PreparedGridDraw,
        >::empty());
    }
    assert(prepared_of(extracted_of(g), v).settings == default_settings().clamped_spec());
    assert(default_settings().clamped_spec() == default_settings());
}

} // verus!
