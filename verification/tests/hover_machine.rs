//! The hover state machine and the drag lifecycle, driven through the
//! reorder context with concrete geometry.

use drag_reorder::context::DragReorderContext;
use drag_reorder::geometry::{DragEvent, ElementRect, Pos2, COORD_LIMIT};
use drag_reorder::hover::{HoverInfo, HoverPosition, HoveredPanel};

fn rect(left: i64, top: i64, width: i64, height: i64) -> ElementRect {
    ElementRect { left, top, width, height }
}

fn mouse(x: i64, y: i64) -> DragEvent {
    DragEvent::Mouse(Pos2 { x, y })
}

fn hover_over(column_index: usize, id: &str, position: HoverPosition) -> Option<HoverInfo> {
    Some(HoverInfo { column_index, panel: Some(HoveredPanel { id: id.to_string(), position }) })
}

fn column(ctx: &DragReorderContext, c: usize) -> Vec<String> {
    let mut v = Vec::new();
    let mut i: usize = 0;
    while i < ctx.column_len(c) {
        v.push(ctx.panel_at(c, i).clone());
        i += 1;
    }
    v
}

/// Two columns side by side; panels A, B, C stacked in column 0.
fn setup() -> DragReorderContext {
    let mut ctx = DragReorderContext::new(2);
    ctx.register_column_element(0, rect(0, 0, 100, 600));
    ctx.register_column_element(1, rect(100, 0, 100, 600));
    assert!(ctx.insert_panel(0, 0, "A".to_string()));
    assert!(ctx.insert_panel(0, 1, "B".to_string()));
    assert!(ctx.insert_panel(0, 2, "C".to_string()));
    ctx.register_panel_element(&"A".to_string(), rect(0, 0, 100, 100));
    ctx.register_panel_element(&"B".to_string(), rect(0, 100, 100, 100));
    ctx.register_panel_element(&"C".to_string(), rect(0, 200, 100, 100));
    ctx
}

#[test]
fn drag_lifecycle_with_live_reorder() {
    let mut ctx = setup();
    // Grab B at (55, 155); its center is (50, 150), so the offset is (5, 5).
    let session = ctx
        .handle_drag_start("B".to_string(), &mouse(55, 155), rect(0, 100, 100, 100))
        .unwrap();
    assert!(ctx.is_dragging(&"B".to_string()));
    assert_eq!(ctx.dragged_panel(), &Some("B".to_string()));

    // Projected center (50, 55): nearest column 0, nearest candidate A
    // (center y 50), fresh side Below since 55 >= 50.
    let changed = ctx.handle_dragover(&mouse(55, 60), &session);
    assert!(changed);
    assert_eq!(ctx.current_hover(), &hover_over(0, "A", HoverPosition::Below));
    assert_eq!(ctx.hover_position(&"A".to_string()), Some(HoverPosition::Below));
    assert_eq!(ctx.hover_position(&"B".to_string()), None);
    ctx.commit_drag();
    assert_eq!(column(&ctx, 0), vec!["A", "B", "C"]);

    // Projected center (50, 53): same neighbor, 3 < 50 (half the dragged
    // height), so the side flips to Above.
    let changed = ctx.handle_dragover(&mouse(55, 58), &session);
    assert!(changed);
    assert_eq!(ctx.current_hover(), &hover_over(0, "A", HoverPosition::Above));
    ctx.commit_drag();
    assert_eq!(column(&ctx, 0), vec!["B", "A", "C"]);

    ctx.handle_drag_end(&"B".to_string());
    assert!(!ctx.is_dragging(&"B".to_string()));
    assert_eq!(ctx.dragged_panel(), &None);
    assert_eq!(ctx.current_hover(), &None);
}

#[test]
fn stale_drag_end_is_noop() {
    let mut ctx = setup();
    let session = ctx
        .handle_drag_start("B".to_string(), &mouse(55, 155), rect(0, 100, 100, 100))
        .unwrap();
    ctx.handle_dragover(&mouse(55, 60), &session);
    ctx.handle_drag_end(&"A".to_string());
    assert!(ctx.is_dragging(&"B".to_string()));
    assert_eq!(ctx.current_hover(), &hover_over(0, "A", HoverPosition::Below));
}

#[test]
fn side_kept_outside_band_and_flipped_inside() {
    let mut ctx = setup();
    let session = ctx
        .handle_drag_start("B".to_string(), &mouse(55, 155), rect(0, 100, 100, 100))
        .unwrap();

    // Projected center (50, 125): nearest candidate A at distance 75, side
    // decided fresh: Below.
    assert!(ctx.handle_dragover(&mouse(55, 130), &session));
    assert_eq!(ctx.current_hover(), &hover_over(0, "A", HoverPosition::Below));

    // Distance 49 < 50: inside the band, the side flips.
    assert!(ctx.handle_dragover(&mouse(55, 104), &session));
    assert_eq!(ctx.current_hover(), &hover_over(0, "A", HoverPosition::Above));

    // Distance 51 >= 50: outside the band, the side is kept; the hover is
    // unchanged by value.
    assert!(!ctx.handle_dragover(&mouse(55, 106), &session));
    assert_eq!(ctx.current_hover(), &hover_over(0, "A", HoverPosition::Above));

    // Distance 75 >= 50 again: still kept, however often it is queried.
    assert!(!ctx.handle_dragover(&mouse(55, 130), &session));
    assert_eq!(ctx.current_hover(), &hover_over(0, "A", HoverPosition::Above));
}

#[test]
fn switching_neighbor_decides_fresh() {
    let mut ctx = setup();
    let session = ctx
        .handle_drag_start("B".to_string(), &mouse(55, 155), rect(0, 100, 100, 100))
        .unwrap();
    assert!(ctx.handle_dragover(&mouse(55, 130), &session));
    assert_eq!(ctx.current_hover(), &hover_over(0, "A", HoverPosition::Below));

    // Projected center (50, 240): C (center y 250) is nearest now; a fresh
    // decision gives Above since 240 < 250.
    assert!(ctx.handle_dragover(&mouse(55, 245), &session));
    assert_eq!(ctx.current_hover(), &hover_over(0, "C", HoverPosition::Above));
}

#[test]
fn equidistant_candidates_keep_first_registered() {
    let mut ctx = setup();
    let session = ctx
        .handle_drag_start("B".to_string(), &mouse(55, 155), rect(0, 100, 100, 100))
        .unwrap();
    // Projected center (50, 150): A and C are both at distance 100; A was
    // registered first and wins the tie.
    assert!(ctx.handle_dragover(&mouse(55, 155), &session));
    assert_eq!(ctx.current_hover(), &hover_over(0, "A", HoverPosition::Below));
}

#[test]
fn equidistant_columns_keep_first() {
    let mut ctx = DragReorderContext::new(2);
    ctx.register_column_element(0, rect(0, 0, 100, 600));
    ctx.register_column_element(1, rect(0, 0, 100, 600));
    assert!(ctx.insert_panel(0, 0, "A".to_string()));
    assert!(ctx.insert_panel(1, 0, "B".to_string()));
    ctx.register_panel_element(&"A".to_string(), rect(0, 0, 100, 100));
    ctx.register_panel_element(&"B".to_string(), rect(0, 0, 100, 100));
    let session = ctx
        .handle_drag_start("B".to_string(), &mouse(50, 50), rect(0, 0, 100, 100))
        .unwrap();
    assert!(ctx.handle_dragover(&mouse(50, 50), &session));
    assert_eq!(ctx.current_hover(), &hover_over(0, "A", HoverPosition::Below));
}

#[test]
fn drag_across_columns_and_drop() {
    let mut ctx = setup();
    assert!(ctx.insert_panel(1, 0, "D".to_string()));
    ctx.register_panel_element(&"D".to_string(), rect(100, 0, 100, 100));
    let session = ctx
        .handle_drag_start("A".to_string(), &mouse(50, 50), rect(0, 0, 100, 100))
        .unwrap();
    // Projected center (150, 260): column 1 is nearest; D (center y 50) is
    // the only candidate there; 260 >= 50 gives Below.
    assert!(ctx.handle_dragover(&mouse(150, 260), &session));
    assert_eq!(ctx.current_hover(), &hover_over(1, "D", HoverPosition::Below));
    ctx.commit_drag();
    ctx.handle_drag_end(&"A".to_string());
    assert_eq!(column(&ctx, 0), vec!["B", "C"]);
    assert_eq!(column(&ctx, 1), vec!["D", "A"]);
}

#[test]
fn touch_event_without_touches_aborts_the_step() {
    let mut ctx = setup();
    assert!(ctx
        .handle_drag_start("B".to_string(), &DragEvent::Touch(Vec::new()), rect(0, 100, 100, 100))
        .is_none());
    assert!(!ctx.is_dragging(&"B".to_string()));

    let touch_start = DragEvent::Touch(vec![Pos2 { x: 55, y: 155 }]);
    let session = ctx
        .handle_drag_start("B".to_string(), &touch_start, rect(0, 100, 100, 100))
        .unwrap();
    assert!(ctx.is_dragging(&"B".to_string()));
    assert!(!ctx.handle_dragover(&DragEvent::Touch(Vec::new()), &session));
    assert_eq!(ctx.current_hover(), &None);
}

#[test]
fn point_extraction_takes_the_first_touch() {
    let event = DragEvent::Touch(vec![Pos2 { x: 7, y: 8 }, Pos2 { x: 9, y: 10 }]);
    assert_eq!(Pos2::try_from(&event), Some(Pos2 { x: 7, y: 8 }));
    assert_eq!(Pos2::try_from(&DragEvent::Touch(Vec::new())), None);
    assert_eq!(Pos2::try_from(&mouse(1, 2)), Some(Pos2 { x: 1, y: 2 }));
}

#[test]
fn no_registered_column_leaves_hover_untouched() {
    let mut ctx = DragReorderContext::new(1);
    assert!(ctx.insert_panel(0, 0, "A".to_string()));
    assert!(ctx.insert_panel(0, 1, "B".to_string()));
    ctx.register_panel_element(&"A".to_string(), rect(0, 0, 100, 100));
    let session = ctx
        .handle_drag_start("B".to_string(), &mouse(55, 155), rect(0, 100, 100, 100))
        .unwrap();
    assert!(!ctx.handle_dragover(&mouse(55, 60), &session));
    assert_eq!(ctx.current_hover(), &None);
}

#[test]
fn unregistered_or_unlisted_panels_are_never_candidates() {
    let mut ctx = setup();
    // A registered element whose identifier is in no column is skipped.
    ctx.register_panel_element(&"X".to_string(), rect(0, 40, 100, 20));
    let session = ctx
        .handle_drag_start("B".to_string(), &mouse(55, 155), rect(0, 100, 100, 100))
        .unwrap();
    assert!(ctx.handle_dragover(&mouse(55, 60), &session));
    assert_eq!(ctx.current_hover(), &hover_over(0, "A", HoverPosition::Below));

    // With A's element gone, C is the nearest remaining candidate.
    ctx.unregister_panel_element(&"A".to_string());
    assert!(ctx.handle_dragover(&mouse(55, 60), &session));
    assert_eq!(ctx.current_hover(), &hover_over(0, "C", HoverPosition::Above));
}

#[test]
fn reregistering_replaces_geometry() {
    let mut ctx = setup();
    let session = ctx
        .handle_drag_start("B".to_string(), &mouse(55, 155), rect(0, 100, 100, 100))
        .unwrap();
    assert!(ctx.handle_dragover(&mouse(55, 60), &session));
    assert_eq!(ctx.current_hover(), &hover_over(0, "A", HoverPosition::Below));

    // A's element moves far down; C becomes the nearest candidate.
    ctx.register_panel_element(&"A".to_string(), rect(0, 400, 100, 100));
    assert!(ctx.handle_dragover(&mouse(55, 60), &session));
    assert_eq!(ctx.current_hover(), &hover_over(0, "C", HoverPosition::Above));
}

#[test]
fn extreme_coordinates_stay_in_range() {
    let c = COORD_LIMIT;
    let mut ctx = DragReorderContext::new(1);
    ctx.register_column_element(0, rect(c - 100, -c, 100, c));
    assert!(ctx.insert_panel(0, 0, "A".to_string()));
    assert!(ctx.insert_panel(0, 1, "B".to_string()));
    ctx.register_panel_element(&"A".to_string(), rect(c - 100, -c, 100, 100));
    ctx.register_panel_element(&"B".to_string(), rect(c - 100, -c + 100, 100, 100));
    let session = ctx
        .handle_drag_start("B".to_string(), &mouse(-c, c), rect(c - 100, -c + 100, 100, 100))
        .unwrap();
    assert!(ctx.handle_dragover(&mouse(c, -c), &session));
    assert_eq!(ctx.current_hover(), &hover_over(0, "A", HoverPosition::Above));
}

#[test]
fn insert_panel_refuses_duplicates_and_bad_positions() {
    let mut ctx = DragReorderContext::new(2);
    assert!(ctx.insert_panel(0, 0, "A".to_string()));
    assert!(!ctx.insert_panel(1, 0, "A".to_string()));
    assert!(!ctx.insert_panel(5, 0, "B".to_string()));
    assert!(!ctx.insert_panel(0, 5, "B".to_string()));
    assert!(ctx.insert_panel(0, 1, "B".to_string()));
    assert_eq!(column(&ctx, 0), vec!["A", "B"]);
    assert_eq!(ctx.num_columns(), 2);
    assert_eq!(ctx.column_len(1), 0);
}
