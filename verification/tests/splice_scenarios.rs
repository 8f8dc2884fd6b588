//! Concrete scenarios of the splice (commit) algorithm.

use drag_reorder::hover::{HoverInfo, HoverPosition, HoveredPanel};
use drag_reorder::splice::{adjust_insert_index, apply_panel_reordering, find_panel_position};

fn col(ids: &[&str]) -> Vec<String> {
    let mut v = Vec::new();
    for id in ids {
        v.push(id.to_string());
    }
    v
}

fn hover_over(column_index: usize, id: &str, position: HoverPosition) -> HoverInfo {
    HoverInfo { column_index, panel: Some(HoveredPanel { id: id.to_string(), position }) }
}

fn hover_empty(column_index: usize) -> HoverInfo {
    HoverInfo { column_index, panel: None }
}

#[test]
fn drop_below_previous_neighbor_is_noop() {
    let mut order = vec![col(&["A", "B", "C"])];
    apply_panel_reordering(&mut order, &"B".to_string(), &hover_over(0, "A", HoverPosition::Below));
    assert_eq!(order, vec![col(&["A", "B", "C"])]);
}

#[test]
fn drop_above_next_neighbor_is_noop() {
    let mut order = vec![col(&["A", "B", "C"])];
    apply_panel_reordering(&mut order, &"B".to_string(), &hover_over(0, "C", HoverPosition::Above));
    assert_eq!(order, vec![col(&["A", "B", "C"])]);
}

#[test]
fn drag_last_above_first() {
    let mut order = vec![col(&["A", "B", "C"])];
    apply_panel_reordering(&mut order, &"C".to_string(), &hover_over(0, "A", HoverPosition::Above));
    assert_eq!(order, vec![col(&["C", "A", "B"])]);
}

#[test]
fn drag_into_empty_space_of_other_column() {
    let mut order = vec![col(&["A", "B"]), col(&["C"])];
    apply_panel_reordering(&mut order, &"A".to_string(), &hover_empty(1));
    assert_eq!(order, vec![col(&["B"]), col(&["C", "A"])]);
}

#[test]
fn drag_above_panel_of_other_column() {
    let mut order = vec![col(&["A", "B"]), col(&["C"])];
    apply_panel_reordering(&mut order, &"A".to_string(), &hover_over(1, "C", HoverPosition::Above));
    assert_eq!(order, vec![col(&["B"]), col(&["A", "C"])]);
}

#[test]
fn stale_dragged_id_is_noop() {
    let mut order = vec![col(&["A", "B"]), col(&["C"])];
    apply_panel_reordering(&mut order, &"Z".to_string(), &hover_over(1, "C", HoverPosition::Above));
    assert_eq!(order, vec![col(&["A", "B"]), col(&["C"])]);
}

#[test]
fn empty_space_of_own_column_moves_to_end() {
    let mut order = vec![col(&["A", "B", "C"])];
    apply_panel_reordering(&mut order, &"B".to_string(), &hover_empty(0));
    assert_eq!(order, vec![col(&["A", "C", "B"])]);
}

#[test]
fn empty_space_of_own_column_with_last_is_noop() {
    let mut order = vec![col(&["A", "B", "C"])];
    apply_panel_reordering(&mut order, &"C".to_string(), &hover_empty(0));
    assert_eq!(order, vec![col(&["A", "B", "C"])]);
}

#[test]
fn hover_on_dragged_panel_itself_is_noop() {
    let mut order = vec![col(&["A", "B", "C"])];
    apply_panel_reordering(&mut order, &"B".to_string(), &hover_over(0, "B", HoverPosition::Above));
    assert_eq!(order, vec![col(&["A", "B", "C"])]);
    apply_panel_reordering(&mut order, &"B".to_string(), &hover_over(0, "B", HoverPosition::Below));
    assert_eq!(order, vec![col(&["A", "B", "C"])]);
}

#[test]
fn stale_hovered_id_falls_back_to_end_of_column() {
    let mut order = vec![col(&["A", "B"]), col(&["C"])];
    apply_panel_reordering(&mut order, &"A".to_string(), &hover_over(1, "Z", HoverPosition::Above));
    assert_eq!(order, vec![col(&["B"]), col(&["C", "A"])]);
}

#[test]
fn commit_twice_with_same_hover_is_idempotent() {
    let mut once = vec![col(&["A", "B", "C"]), col(&["D"])];
    let hover = hover_over(1, "D", HoverPosition::Below);
    apply_panel_reordering(&mut once, &"A".to_string(), &hover);
    let mut twice = once.clone();
    apply_panel_reordering(&mut twice, &"A".to_string(), &hover);
    assert_eq!(once, vec![col(&["B", "C"]), col(&["D", "A"])]);
    assert_eq!(twice, once);
}

#[test]
fn total_item_count_is_conserved() {
    let mut order = vec![col(&["A", "B"]), col(&["C"]), col(&[])];
    let total = |o: &Vec<Vec<String>>| o.iter().map(|c| c.len()).sum::<usize>();
    let before = total(&order);
    apply_panel_reordering(&mut order, &"C".to_string(), &hover_over(0, "A", HoverPosition::Below));
    assert_eq!(total(&order), before);
    apply_panel_reordering(&mut order, &"B".to_string(), &hover_empty(2));
    assert_eq!(total(&order), before);
    assert_eq!(order, vec![col(&["A", "C"]), col(&[]), col(&["B"])]);
}

#[test]
fn find_panel_position_scans_columns_in_order() {
    let order = vec![col(&["A", "B"]), col(&["C", "D"])];
    assert_eq!(find_panel_position(&order, &"A".to_string()), Some((0, 0)));
    assert_eq!(find_panel_position(&order, &"B".to_string()), Some((0, 1)));
    assert_eq!(find_panel_position(&order, &"C".to_string()), Some((1, 0)));
    assert_eq!(find_panel_position(&order, &"D".to_string()), Some((1, 1)));
    assert_eq!(find_panel_position(&order, &"Z".to_string()), None);
}

#[test]
fn insert_index_adjustment_exhaustive_over_small_ranges() {
    for source_index in 0..6usize {
        for insert_before_removal in 0..7usize {
            for same_column in [false, true] {
                let expected = if same_column && source_index < insert_before_removal {
                    insert_before_removal - 1
                } else {
                    insert_before_removal
                };
                assert_eq!(
                    adjust_insert_index(source_index, insert_before_removal, same_column),
                    expected
                );
            }
        }
    }
}
