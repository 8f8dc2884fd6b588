//! The splice (commit) algorithm: remove the dragged panel from its source
//! column and insert it into the target column at the index the hover target
//! designates.
//!
//! Column contents are sequences of panel identifiers; their mathematical
//! value is a `Seq<Seq<Seq<char>>>` (columns, of identifiers, of characters).

use vstd::prelude::*;

use crate::hover::{HoverInfo, HoverInfoView, HoverPosition};

verus! {

/// The first position of `id` over all columns, scanning columns in order
/// and each column front to back: `Some((column, row))`, or `None` when no
/// column holds `id`.
pub open spec fn find_pos(cols: Seq<Seq<Seq<char>>>, id: Seq<char>) -> Option<(int, int)>
    decreases cols.len(),
{
    if cols.len() == 0 {
        None
    } else {
        match cols[0].index_of_first(id) {
            Some(i) => Some((0int, i)),
            None => match find_pos(cols.skip(1), id) {
                Some(p) => Some((p.0 + 1, p.1)),
                None => None,
            },
        }
    }
}

/// What `find_pos` returns: the row is the first occurrence in its column,
/// and no earlier column holds `id` at all.
pub proof fn lemma_find_pos_ensures(cols: Seq<Seq<Seq<char>>>, id: Seq<char>)
    ensures
        match find_pos(cols, id) {
            Some(p) => {
                &&& 0 <= p.0 < cols.len()
                &&& 0 <= p.1 < cols[p.0].len()
                &&& cols[p.0][p.1] == id
                &&& cols[p.0].index_of_first(id) == Some(p.1)
                &&& forall|k: int| 0 <= k < p.0 ==> (#[trigger] cols[k]).index_of_first(id) is None
            },
            None => forall|k: int|
                0 <= k < cols.len() ==> (#[trigger] cols[k]).index_of_first(id) is None,
        },
    decreases cols.len(),
{
    if cols.len() > 0 {
        cols[0].index_of_first_ensures(id);
        if cols[0].index_of_first(id) is None {
            let rest = cols.skip(1);
            lemma_find_pos_ensures(rest, id);
            match find_pos(rest, id) {
                Some(q) => {
                    assert(cols[q.0 + 1] == rest[q.0]);
                    assert forall|k: int| 0 <= k < q.0 + 1 implies (#[trigger] cols[k]).index_of_first(
                        id,
                    ) is None by {
                        if k > 0 {
                            assert(cols[k] == rest[k - 1]);
                        }
                    }
                },
                None => {
                    assert forall|k: int| 0 <= k < cols.len() implies (#[trigger] cols[k]).index_of_first(
                        id,
                    ) is None by {
                        if k > 0 {
                            assert(cols[k] == rest[k - 1]);
                        }
                    }
                },
            }
        }
    }
}

/// Lifts `find_pos` over dropping the first `c` columns, provided none of
/// them holds `id`.
pub proof fn lemma_find_pos_skip(cols: Seq<Seq<Seq<char>>>, id: Seq<char>, c: int)
    requires
        0 <= c <= cols.len(),
        forall|k: int| 0 <= k < c ==> (#[trigger] cols[k]).index_of_first(id) is None,
    ensures
        find_pos(cols, id) == match find_pos(cols.skip(c), id) {
            Some(p) => Some(((p.0 + c) as int, p.1)),
            None => None::<(int, int)>,
        },
    decreases c,
{
    if c == 0 {
        assert(cols.skip(0) =~= cols);
    } else {
        let rest = cols.skip(1);
        assert(cols[0].index_of_first(id) is None);
        assert forall|k: int| 0 <= k < c - 1 implies (#[trigger] rest[k]).index_of_first(
            id,
        ) is None by {
            assert(rest[k] == cols[k + 1]);
        }
        lemma_find_pos_skip(rest, id, c - 1);
        assert(rest.skip(c - 1) =~= cols.skip(c));
    }
}

/// The insertion index in the target column, before the dragged panel is
/// removed: the hovered panel's index (side above) or the slot after it
/// (side below); the end of the column when no panel is hovered or the
/// hovered panel is no longer listed there.
pub open spec fn insert_index_before_removal(
    target: Seq<Seq<char>>,
    panel: Option<crate::hover::HoveredPanelView>,
) -> int {
    match panel {
        Some(p) => match target.index_of_first(p.id) {
            Some(hi) => if p.position is Above {
                hi
            } else {
                hi + 1
            },
            None => target.len() as int,
        },
        None => target.len() as int,
    }
}

/// Compensates for the removal-before-insertion shift: when the panel moves
/// within one column and its source index lies before the insertion point,
/// the insertion index drops by one, so the panel lands adjacent to the
/// intended neighbor rather than one slot further.
pub open spec fn adjusted_insert_index(
    source_index: int,
    insert_before_removal: int,
    same_column: bool,
) -> int {
    if same_column && source_index < insert_before_removal {
        insert_before_removal - 1
    } else {
        insert_before_removal
    }
}

/// Executable form of `adjusted_insert_index`.
pub fn adjust_insert_index(source_index: usize, insert_before_removal: usize, same_column: bool) -> (r:
    usize)
    ensures
        r == adjusted_insert_index(source_index as int, insert_before_removal as int, same_column),
{
    if same_column && source_index < insert_before_removal {
        insert_before_removal - 1
    } else {
        insert_before_removal
    }
}

/// The column contents after committing a drag of `dragged` against the
/// hover target `hover`: the whole splice as one mathematical function.
/// When `dragged` is in no column, the contents are unchanged.
pub open spec fn splice_spec(
    cols: Seq<Seq<Seq<char>>>,
    dragged: Seq<char>,
    hover: HoverInfoView,
) -> Seq<Seq<Seq<char>>>
    recommends
        0 <= hover.column_index < cols.len(),
{
    match find_pos(cols, dragged) {
        None => cols,
        Some(p) => {
            let sc = p.0;
            let si = p.1;
            let tc = hover.column_index;
            let base = insert_index_before_removal(cols[tc], hover.panel);
            let ins = adjusted_insert_index(si, base, sc == tc);
            if sc == tc {
                cols.update(sc, cols[sc].remove(si).insert(ins, dragged))
            } else {
                cols.update(sc, cols[sc].remove(si)).update(tc, cols[tc].insert(ins, dragged))
            }
        },
    }
}

/// The first index of `panel_id` in one column, by a single scan.
pub fn position_in_column(column: &Vec<String>, panel_id: &String) -> (r: Option<usize>)
    ensures
        match r {
            Some(i) => i < column@.len() && column.deep_view().index_of_first(panel_id@) == Some(
                i as int,
            ),
            None => column.deep_view().index_of_first(panel_id@) is None,
        },
{
    let ghost dcol = column.deep_view();
    let mut k: usize = 0;
    while k < column.len()
        invariant
            k <= column@.len(),
            dcol == column.deep_view(),
            dcol.len() == column@.len(),
            forall|j: int| 0 <= j < k ==> dcol[j] != panel_id@,
        decreases column@.len() - k,
    {
        if column[k] == *panel_id {
            proof {
                assert(dcol[k as int] == panel_id@);
                dcol.index_of_first_ensures(panel_id@);
            }
            return Some(k);
        }
        k = k + 1;
    }
    proof {
        dcol.index_of_first_ensures(panel_id@);
        if dcol.contains(panel_id@) {
            let w = choose|j: int| 0 <= j < dcol.len() && dcol[j] == panel_id@;
            assert(false);
        }
    }
    None
}

/// The current `(column, row)` of `panel_id`, scanning all columns.
pub fn find_panel_position(panel_order: &Vec<Vec<String>>, panel_id: &String) -> (r: Option<
    (usize, usize),
>)
    ensures
        match r {
            Some(p) => {
                &&& p.0 < panel_order@.len()
                &&& p.1 < panel_order@[p.0 as int]@.len()
                &&& find_pos(panel_order.deep_view(), panel_id@) == Some((p.0 as int, p.1 as int))
            },
            None => find_pos(panel_order.deep_view(), panel_id@) is None,
        },
{
    let ghost cols = panel_order.deep_view();
    let mut c: usize = 0;
    while c < panel_order.len()
        invariant
            c <= panel_order@.len(),
            cols == panel_order.deep_view(),
            cols.len() == panel_order@.len(),
            forall|k: int| 0 <= k < c ==> (#[trigger] cols[k]).index_of_first(panel_id@) is None,
        decreases panel_order@.len() - c,
    {
        proof {
            assert(cols[c as int] == panel_order@[c as int].deep_view());
        }
        match position_in_column(&panel_order[c], panel_id) {
            Some(i) => {
                proof {
                    lemma_find_pos_skip(cols, panel_id@, c as int);
                    assert(cols.skip(c as int)[0] == cols[c as int]);
                    assert(find_pos(cols.skip(c as int), panel_id@) == Some((0int, i as int)));
                    lemma_find_pos_ensures(cols, panel_id@);
                }
                return Some((c, i));
            },
            None => {},
        }
        c = c + 1;
    }
    proof {
        lemma_find_pos_skip(cols, panel_id@, cols.len() as int);
        assert(cols.skip(cols.len() as int).len() == 0);
    }
    None
}

/// Reorders the columns for a drag of `dragged_panel_id` against the hover
/// target `hover_info`: exactly the splice `splice_spec` describes. When the
/// dragged panel is in no column, this is a no-op.
pub fn apply_panel_reordering(
    panel_order: &mut Vec<Vec<String>>,
    dragged_panel_id: &String,
    hover_info: &HoverInfo,
)
    requires
        hover_info@.column_index < old(panel_order)@.len(),
    ensures
        final(panel_order).deep_view() == splice_spec(
            old(panel_order).deep_view(),
            dragged_panel_id@,
            hover_info@,
        ),
        final(panel_order)@.len() == old(panel_order)@.len(),
{
    let ghost cols = old(panel_order).deep_view();
    proof {
        lemma_find_pos_ensures(cols, dragged_panel_id@);
    }
    let source_position = find_panel_position(panel_order, dragged_panel_id);
    match source_position {
        None => {},
        Some((source_column_index, source_row_index)) => {
            let target_column_index = hover_info.column_index;

            // Insertion index in the target column, before removal.
            let target_len = panel_order[target_column_index].len();
            let insert_before_removal: usize = match &hover_info.panel {
                Some(hovered) => {
                    match position_in_column(&panel_order[target_column_index], &hovered.id) {
                        Some(hovered_row_index) => match hovered.position {
                            HoverPosition::Above => hovered_row_index,
                            HoverPosition::Below => hovered_row_index + 1,
                        },
                        None => target_len,
                    }
                },
                None => target_len,
            };
            proof {
                assert(cols[target_column_index as int] == panel_order@[
                    target_column_index as int].deep_view());
                assert(insert_before_removal as int == insert_index_before_removal(
                    cols[target_column_index as int],
                    hover_info@.panel,
                ));
            }
            let same_column = source_column_index == target_column_index;
            let insert_row_index = adjust_insert_index(
                source_row_index,
                insert_before_removal,
                same_column,
            );

            // Remove the panel from its source column, then insert it into
            // the target column.
            let dragged = panel_order[source_column_index].remove(source_row_index);
            proof {
                assert(dragged@ == cols[source_column_index as int][source_row_index as int]);
                assert(panel_order@[source_column_index as int]@ == old(panel_order)@[
                    source_column_index as int]@.remove(source_row_index as int));
            }
            panel_order[target_column_index].insert(insert_row_index, dragged);
            proof {
                let spliced = splice_spec(cols, dragged_panel_id@, hover_info@);
                let sc = source_column_index as int;
                let si = source_row_index as int;
                let tc = target_column_index as int;
                let ins = insert_row_index as int;
                if sc == tc {
                    assert(panel_order@[sc]@ =~= old(panel_order)@[sc]@.remove(si).insert(
                        ins,
                        dragged,
                    ));
                    assert(panel_order@[sc].deep_view() =~= cols[sc].remove(si).insert(
                        ins,
                        dragged_panel_id@,
                    ));
                    assert(panel_order.deep_view() =~= spliced);
                } else {
                    assert(panel_order@[sc].deep_view() =~= cols[sc].remove(si));
                    assert(panel_order@[tc].deep_view() =~= cols[tc].insert(
                        ins,
                        dragged_panel_id@,
                    ));
                    assert(panel_order.deep_view() =~= spliced);
                }
            }
        },
    }
}

} // verus!
