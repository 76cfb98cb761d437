//! Queuing stage: one draw item per prepared (grid, view) pair, inserted
//! into the frame's draw list sorted by draw-order key, with a
//! deterministic tie break by entity identity.

use vstd::prelude::*;
use crate::config::COORD_LIMIT;
use crate::prepare::PreparedGridDraw;

verus! {

/// One queued draw instruction: render one grid instance for one view
/// this frame.  Transient — it exists only inside the frame's sorted
/// draw list.
#[derive(Clone, Copy, Debug, PartialEq, Eq, Structural)]
pub struct DrawItem {
    pub entity: u64,
    pub view_entity: u64,
    pub sort_key: i64,
    pub distance: i64,
}

/// View-relative depth carried on the draw item for compositing: the L1
/// distance from the grid's world origin to the camera.
pub open spec fn distance_spec(p: PreparedGridDraw) -> int {
    vstd::math::abs(p.origin_x - p.cam_x) + vstd::math::abs(p.origin_y - p.cam_y) as int
}

/// The draw item of one prepared pair.
pub open spec fn item_of(p: PreparedGridDraw) -> DrawItem {
    DrawItem {
        entity: p.entity,
        view_entity: p.view_entity,
        sort_key: p.settings.sort_key,
        distance: distance_spec(p) as i64,
    }
}

/// The draw items of a prepared set, in preparation order.
pub open spec fn items_of(s: Seq<PreparedGridDraw>) -> Seq<DrawItem> {
    s.map_values(|p: PreparedGridDraw| item_of(p))
}

/// Draw order: primary key `sort_key` ascending; ties broken by entity
/// identity ascending.  The tie break is deterministic, so the visual
/// stacking of overlapping grids never flickers between frames with
/// unchanged input.
pub open spec fn item_le(a: DrawItem, b: DrawItem) -> bool {
    a.sort_key < b.sort_key || (a.sort_key == b.sort_key && a.entity <= b.entity)
}

/// Insertion of one item into a draw list, from the back: it lands after
/// every item that orders at or before it.
pub open spec fn insert_item(s: Seq<DrawItem>, x: DrawItem) -> Seq<DrawItem>
    decreases s.len(),
{
    if s.len() == 0 {
        seq![x]
    } else if item_le(s.last(), x) {
        s.push(x)
    } else {
        insert_item(s.drop_last(), x).push(s.last())
    }
}

/// The fully sorted draw list of a frame: every item inserted in turn.
pub open spec fn sort_items(s: Seq<DrawItem>) -> Seq<DrawItem>
    decreases s.len(),
{
    if s.len() == 0 {
        Seq::empty()
    } else {
        insert_item(sort_items(s.drop_last()), s.last())
    }
}

/// A draw list is sorted when every pair of positions respects the draw
/// order.
pub open spec fn sorted_items(s: Seq<DrawItem>) -> bool {
    forall|i: int, j: int|
        0 <= i < j < s.len() ==> item_le(#[trigger] s[i], #[trigger] s[j])
}

/// Inserting at the position found by a back-to-front scan is exactly
/// `insert_item`.
proof fn lemma_insert_item_at(s: Seq<DrawItem>, x: DrawItem, j: int)
    requires
        0 <= j <= s.len(),
        forall|t: int| j <= t < s.len() ==> !item_le(#[trigger] s[t], x),
        j > 0 ==> item_le(s[j - 1], x),
    ensures
        insert_item(s, x) =~= s.insert(j, x),
    decreases s.len(),
{
    if s.len() == 0 {
        assert(insert_item(s, x) =~= s.insert(0, x));
    } else if j == s.len() {
        assert(item_le(s.last(), x));
        assert(s.insert(j, x) =~= s.push(x));
    } else {
        assert(!item_le(s[s.len() - 1], x));
        lemma_insert_item_at(s.drop_last(), x, j);
        assert(insert_item(s.drop_last(), x).push(s.last()) =~= s.insert(j, x));
    }
}

/// Every element of an insertion result is the inserted item or one of
/// the old elements.
proof fn lemma_insert_item_elements(s: Seq<DrawItem>, x: DrawItem)
    ensures
        insert_item(s, x).len() == s.len() + 1,
        forall|t: int|
            0 <= t < insert_item(s, x).len() ==> #[trigger] insert_item(s, x)[t] == x
                || s.contains(insert_item(s, x)[t]),
    decreases s.len(),
{
    if s.len() == 0 {
    } else if item_le(s.last(), x) {
    } else {
        lemma_insert_item_elements(s.drop_last(), x);
        assert forall|t: int|
            0 <= t < insert_item(s, x).len() implies #[trigger] insert_item(s, x)[t] == x
            || s.contains(insert_item(s, x)[t]) by {
            let r = insert_item(s.drop_last(), x);
            if t < r.len() {
                if r[t] != x {
                    let u = choose|u: int| 0 <= u < s.drop_last().len() && s.drop_last()[u] == r[t];
                    assert(s[u] == r[t]);
                }
            } else {
                assert(insert_item(s, x)[t] == s.last());
            }
        }
    }
}

/// Insertion preserves sortedness.
proof fn lemma_insert_item_sorted(s: Seq<DrawItem>, x: DrawItem)
    requires
        sorted_items(s),
    ensures
        sorted_items(insert_item(s, x)),
    decreases s.len(),
{
    if s.len() == 0 {
    } else if item_le(s.last(), x) {
        assert forall|i: int, j: int|
            0 <= i < j < s.push(x).len() implies item_le(#[trigger] s.push(x)[i], #[trigger] s.push(x)[j]) by {
            if j == s.len() {
                if i < s.len() - 1 {
                    assert(item_le(s[i], s[s.len() - 1]));
                }
            }
        }
    } else {
        assert(sorted_items(s.drop_last()));
        lemma_insert_item_sorted(s.drop_last(), x);
        lemma_insert_item_elements(s.drop_last(), x);
        let r = insert_item(s.drop_last(), x);
        assert forall|i: int, j: int|
            0 <= i < j < r.push(s.last()).len() implies item_le(
            #[trigger] r.push(s.last())[i],
            #[trigger] r.push(s.last())[j],
        ) by {
            if j == r.len() {
                // every element of r orders at or before s.last()
                if r[i] == x {
                    assert(item_le(x, s.last()));
                } else {
                    let u = choose|u: int| 0 <= u < s.drop_last().len() && s.drop_last()[u] == r[i];
                    assert(s[u] == r[i]);
                    if u < s.len() - 1 {
                        assert(item_le(s[u], s[s.len() - 1]));
                    }
                }
            }
        }
    }
}

/// The sorted draw list is sorted and has the frame's item count.
pub proof fn lemma_sort_items_sorted(s: Seq<DrawItem>)
    ensures
        sorted_items(sort_items(s)),
        sort_items(s).len() == s.len(),
    decreases s.len(),
{
    if s.len() > 0 {
        lemma_sort_items_sorted(s.drop_last());
        lemma_insert_item_sorted(sort_items(s.drop_last()), s.last());
        lemma_insert_item_elements(sort_items(s.drop_last()), s.last());
    }
}

/// Queuing stage: build the draw item of every prepared pair and keep
/// the frame's draw list sorted by `(sort_key, entity)` while inserting.
pub fn queue_draw_items(prepared: &Vec<PreparedGridDraw>) -> (out: Vec<DrawItem>)
    requires
        forall|i: int| 0 <= i < prepared@.len() ==> (#[trigger] prepared@[i]).wf(),
    ensures
        out@ == sort_items(items_of(prepared@)),
        out@.len() == prepared@.len(),
        sorted_items(out@),
{
    let mut out: Vec<DrawItem> = Vec::new();
    let mut i: usize = 0;
    while i < prepared.len()
        invariant
            i <= prepared.len(),
            forall|t: int| 0 <= t < prepared@.len() ==> (#[trigger] prepared@[t]).wf(),
            out@ == sort_items(items_of(prepared@.take(i as int))),
        decreases prepared.len() - i,
    {
        let p = prepared[i];
        let dx: i128 = p.origin_x as i128 - p.cam_x as i128;
        let dy: i128 = p.origin_y as i128 - p.cam_y as i128;
        let ax: i128 = if dx < 0 { -dx } else { dx };
        let ay: i128 = if dy < 0 { -dy } else { dy };
        let dist: i64 = (ax + ay) as i64;
        let item = DrawItem {
            entity: p.entity,
            view_entity: p.view_entity,
            sort_key: p.settings.sort_key,
            distance: dist,
        };
        proof {
            assert(ax + ay <= 4 * COORD_LIMIT);
            assert(item == item_of(prepared@[i as int]));
        }
        let mut j: usize = out.len();
        while j > 0 && !(out[j - 1].sort_key < item.sort_key || (out[j - 1].sort_key
            == item.sort_key && out[j - 1].entity <= item.entity))
            invariant
                j <= out.len(),
                forall|t: int| j <= t < out@.len() ==> !item_le(#[trigger] out@[t], item),
            decreases j,
        {
            j = j - 1;
        }
        proof {
            lemma_insert_item_at(out@, item, j as int);
            let t1 = prepared@.take(i as int + 1);
            assert(t1.drop_last() =~= prepared@.take(i as int));
            assert(t1.last() == prepared@[i as int]);
            assert(items_of(t1).drop_last() =~= items_of(prepared@.take(i as int)));
            assert(items_of(t1).last() == item_of(prepared@[i as int]));
        }
        out.insert(j, item);
        i = i + 1;
    }
    proof {
        assert(prepared@.take(prepared@.len() as int) =~= prepared@);
        lemma_sort_items_sorted(items_of(prepared@));
    }
    out
}

/// Sort stability: among queued items with equal `sort_key`, the one
/// with the smaller entity identity always comes first.  Together with
/// the queue contract — the draw list is a function of the prepared set
/// alone — repeated queuing over frames with unchanged input yields the
/// same relative order every time.
pub proof fn lemma_sort_order_stable(s: Seq<DrawItem>, i: int, j: int)
    requires
        0 <= i < j < sort_items(s).len(),
        sort_items(s)[i].sort_key == sort_items(s)[j].sort_key,
    ensures
        sort_items(s)[i].entity <= sort_items(s)[j].entity,
{
    lemma_sort_items_sorted(s);
}

} // verus!
