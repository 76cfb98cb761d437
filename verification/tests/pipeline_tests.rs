//! Tests of the frame pipeline: extraction, view preparation, queuing
//! and per-pixel evaluation of a prepared draw.

use infinite_grid_2d::config::InfiniteGrid2DSettings;
use infinite_grid_2d::config::SCALE;
use infinite_grid_2d::extract::GridInstance;
use infinite_grid_2d::extract::extract_grids;
use infinite_grid_2d::pipeline::frame_draw_list;
use infinite_grid_2d::prepare::PreparedGridDraw;
use infinite_grid_2d::prepare::ViewParameters;
use infinite_grid_2d::prepare::evaluate_pixel;
use infinite_grid_2d::prepare::prepare_view;
use infinite_grid_2d::queue::queue_draw_items;

fn instance(entity: u64) -> GridInstance {
    GridInstance {
        entity,
        settings: InfiniteGrid2DSettings::default(),
        has_transform: true,
        origin_x: 0,
        origin_y: 0,
        layer_mask: 1,
        visible: true,
    }
}

fn view(layer_mask: u32) -> ViewParameters {
    ViewParameters {
        view_entity: 100,
        cam_x: 0,
        cam_y: 0,
        view_scale: SCALE,
        viewport_w: 101,
        viewport_h: 101,
        layer_mask,
    }
}

#[test]
fn extraction_omits_ineligible_instances() {
    let mut no_transform = instance(2);
    no_transform.has_transform = false;
    let mut hidden = instance(3);
    hidden.visible = false;
    let grids = vec![instance(1), no_transform, hidden];
    let extracted = extract_grids(&grids);
    assert_eq!(extracted.len(), 1);
    assert_eq!(extracted[0].entity, 1);
    assert_eq!(extracted[0].settings, InfiniteGrid2DSettings::default());
}

#[test]
fn preparation_clamps_non_positive_spacing() {
    let mut g = instance(1);
    g.settings.grid_size = -3;
    let extracted = extract_grids(&vec![g]);
    let prepared = prepare_view(&view(1), &extracted);
    assert_eq!(prepared.len(), 1);
    assert_eq!(prepared[0].settings.grid_size, 1);
}

#[test]
fn degenerate_view_prepares_nothing() {
    let extracted = extract_grids(&vec![instance(1)]);
    let mut flat = view(1);
    flat.viewport_w = 0;
    assert_eq!(prepare_view(&flat, &extracted).len(), 0);
    let mut inverted = view(1);
    inverted.view_scale = 0;
    assert_eq!(prepare_view(&inverted, &extracted).len(), 0);
}

#[test]
fn visibility_gating_by_layer_mask() {
    // The grid lives on layer 1 (mask {1}).
    let mut g = instance(7);
    g.layer_mask = 1 << 1;
    let grids = vec![g];
    // A view of layer 0 (mask {0}) draws no grid.
    let unmatched = frame_draw_list(&grids, &view(1 << 0));
    assert_eq!(unmatched.len(), 0);
    // A view of layer 1 (mask {1}) draws it exactly once.
    let matched = frame_draw_list(&grids, &view(1 << 1));
    assert_eq!(matched.len(), 1);
    assert_eq!(matched[0].entity, 7);
}

#[test]
fn default_settings_survive_round_trip() {
    let grids = vec![instance(9)];
    let extracted = extract_grids(&grids);
    let prepared = prepare_view(&view(1), &extracted);
    assert_eq!(prepared.len(), 1);
    assert_eq!(prepared[0].settings, InfiniteGrid2DSettings::default());
    assert_eq!(prepared[0].origin_x, 0);
    assert_eq!(prepared[0].origin_y, 0);
    let queued = queue_draw_items(&prepared);
    assert_eq!(queued.len(), 1);
    assert_eq!(queued[0].entity, 9);
    assert_eq!(queued[0].sort_key, InfiniteGrid2DSettings::default().sort_key);
}

#[test]
fn draw_items_sort_by_key_then_entity() {
    let mut a = instance(2);
    a.settings.sort_key = 5;
    let mut b = instance(3);
    b.settings.sort_key = -3;
    let mut c = instance(1);
    c.settings.sort_key = 5;
    let items = frame_draw_list(&vec![a, b, c], &view(1));
    assert_eq!(items.len(), 3);
    assert_eq!((items[0].sort_key, items[0].entity), (-3, 3));
    assert_eq!((items[1].sort_key, items[1].entity), (5, 1));
    assert_eq!((items[2].sort_key, items[2].entity), (5, 2));
}

#[test]
fn draw_order_is_stable_across_frames() {
    let mut a = instance(4);
    a.settings.sort_key = 1;
    let mut b = instance(5);
    b.settings.sort_key = 1;
    let grids = vec![a, b];
    let v = view(1);
    let first = frame_draw_list(&grids, &v);
    for _ in 0..5 {
        let again = frame_draw_list(&grids, &v);
        assert_eq!(again, first);
    }
    // Equal sort keys: the tie break is the entity identity, ascending.
    assert_eq!(first[0].entity, 4);
    assert_eq!(first[1].entity, 5);
}

#[test]
fn draw_item_distance_is_l1_depth() {
    let mut g = instance(1);
    g.origin_x = 3 * SCALE;
    g.origin_y = -4 * SCALE;
    let mut v = view(1);
    v.cam_x = SCALE;
    v.cam_y = SCALE;
    let items = frame_draw_list(&vec![g], &v);
    assert_eq!(items.len(), 1);
    assert_eq!(items[0].distance, 2 * SCALE + 5 * SCALE);
}

fn prepared_at_unit_zoom() -> PreparedGridDraw {
    let prepared = prepare_view(&view(1), &extract_grids(&vec![instance(1)]));
    prepared[0]
}

#[test]
fn center_pixel_shows_the_origin() {
    // Camera at the world origin, scale 1.0, 101x101 viewport: the
    // center pixel sits over world (0, 0), where the y axis wins.
    let p = prepared_at_unit_zoom();
    let out = evaluate_pixel(&p, 50, 50);
    assert_eq!(out.color, p.settings.y_axis_color);
    assert_eq!(out.alpha, SCALE);
}

#[test]
fn pixel_between_lines_is_transparent() {
    // Camera at the world origin, orthographic scale 1.0, spacing 100:
    // the pixel over world (0, 50) lies on the vertical axis, but the
    // pixel over world (25, 50) sits fifty units from the nearest
    // horizontal line and twenty-five from the nearest vertical one —
    // no coverage at the primary level (level 0, the active one at this
    // zoom), and none at the coarser level either.
    let p = prepared_at_unit_zoom();
    let on_axis = evaluate_pixel(&p, 50, 0);
    assert_eq!(on_axis.color, p.settings.y_axis_color);
    assert_eq!(on_axis.alpha, SCALE);
    let off_lines = evaluate_pixel(&p, 75, 0);
    assert_eq!(off_lines.alpha, 0);
}

#[test]
fn pipeline_state_is_built_at_most_once() {
    let mut cache = infinite_grid_2d::cache::PipelineCache::new();
    assert!(cache.handle.is_none());
    // The first use installs the built handle; later uses return the
    // cached one and never rebuild.
    assert_eq!(cache.get_or_insert(7), 7);
    assert_eq!(cache.get_or_insert(9), 7);
    assert_eq!(cache.handle, Some(7));
}
