//! The reorder context: the shared state a drag-reorder engine owns — the
//! per-column panel order, the element registries, the dragged panel and the
//! hover target — together with the drag lifecycle: start, move (the hover
//! state machine), commit and end.
//!
//! A view layer drives it: it registers element rectangles as panels and
//! columns mount, resize and unmount, hands every pointer/touch event to the
//! lifecycle methods, and reads the per-column order, the dragged panel and
//! the hover target back to render. The engine itself performs no I/O.

use vstd::prelude::*;

use crate::geometry::{pos_bounded, DragEvent, ElementRect, Pos2, COORD_LIMIT};
use crate::hover::{
    hover_opt_eq, hover_opt_view, HoverInfo, HoverInfoView, HoverPosition, HoveredPanel,
    HoveredPanelView,
};
use crate::laws::{
    lemma_columns_multiset_push, lemma_find_pos_none_count, lemma_splice_preserves_ids,
    lemma_splice_preserves_uniqueness, unique_ids,
};
use crate::nearest::{closest, dists_view, find_closest_element, lemma_closest_properties};
use crate::splice::{apply_panel_reordering, find_panel_position, find_pos, splice_spec};

verus! {

broadcast use {vstd::seq_lib::group_to_multiset_ensures, vstd::multiset::group_multiset_axioms};

/// Mathematical value of a `DragReorderContext`.
pub struct DragReorderContextView {
    /// Geometry of each column's element, where one is registered.
    pub column_refs: Seq<Option<ElementRect>>,
    /// Order of panel identifiers within each column.
    pub panel_order: Seq<Seq<Seq<char>>>,
    /// Identifier of the panel currently being dragged.
    pub active_dragged_panel: Option<Seq<char>>,
    /// Current hover target during a drag.
    pub hover_info: Option<HoverInfoView>,
    /// Registered panel elements: identifier and geometry, in registration
    /// order, each identifier at most once.
    pub panel_elements: Seq<(Seq<char>, ElementRect)>,
}

impl DragReorderContextView {
    /// The context's invariant: as many columns as column elements, all
    /// registered geometry in range, registry keys unique, every panel
    /// identifier in exactly one column at most once, and any hover target
    /// aimed at an existing column.
    pub open spec fn wf(self) -> bool {
        &&& self.column_refs.len() == self.panel_order.len()
        &&& forall|i: int|
            0 <= i < self.column_refs.len() ==> (#[trigger] self.column_refs[i] matches Some(r)
                ==> r.wf())
        &&& forall|i: int|
            0 <= i < self.panel_elements.len() ==> (#[trigger] self.panel_elements[i]).1.wf()
        &&& forall|i: int, j: int|
            0 <= i < j < self.panel_elements.len() ==> (#[trigger] self.panel_elements[i]).0 != (
            #[trigger] self.panel_elements[j]).0
        &&& unique_ids(self.panel_order)
        &&& (self.hover_info matches Some(h) ==> 0 <= h.column_index < self.panel_order.len())
    }
}

/// Shared state for drag-reorder operations across a fixed set of columns.
pub struct DragReorderContext {
    column_refs: Vec<Option<ElementRect>>,
    panel_order: Vec<Vec<String>>,
    active_dragged_panel: Option<String>,
    hover_info: Option<HoverInfo>,
    panel_elements: Vec<(String, ElementRect)>,
}

impl View for DragReorderContext {
    type V = DragReorderContextView;

    closed spec fn view(&self) -> DragReorderContextView {
        DragReorderContextView {
            column_refs: self.column_refs@,
            panel_order: self.panel_order.deep_view(),
            active_dragged_panel: match self.active_dragged_panel {
                Some(ref id) => Some(id@),
                None => None,
            },
            hover_info: hover_opt_view(self.hover_info),
            panel_elements: Seq::new(
                self.panel_elements@.len(),
                |i: int| (self.panel_elements@[i].0@, self.panel_elements@[i].1),
            ),
        }
    }
}

impl DragReorderContext {
    /// A fresh context for `num_columns` columns: all columns empty, no
    /// element registered, nothing dragged, no hover target.
    pub fn new(num_columns: usize) -> (ctx: Self)
        ensures
            ctx@.wf(),
            ctx@.column_refs.len() == num_columns,
            forall|i: int| 0 <= i < num_columns ==> ctx@.column_refs[i] is None,
            ctx@.panel_order.len() == num_columns,
            forall|i: int| 0 <= i < num_columns ==> ctx@.panel_order[i].len() == 0,
            ctx@.active_dragged_panel is None,
            ctx@.hover_info is None,
            ctx@.panel_elements.len() == 0,
    {
        let mut column_refs: Vec<Option<ElementRect>> = Vec::new();
        let mut panel_order: Vec<Vec<String>> = Vec::new();
        let mut k: usize = 0;
        while k < num_columns
            invariant
                k <= num_columns,
                column_refs@.len() == k,
                panel_order@.len() == k,
                forall|i: int| 0 <= i < k ==> column_refs@[i] is None,
                forall|i: int| 0 <= i < k ==> panel_order.deep_view()[i].len() == 0,
                unique_ids(panel_order.deep_view()),
            decreases num_columns - k,
        {
            let ghost before = panel_order.deep_view();
            let ghost empty_col = Seq::<Seq<char>>::empty();
            column_refs.push(None);
            panel_order.push(Vec::new());
            proof {
                lemma_columns_multiset_push(before, empty_col);
                assert(panel_order.deep_view() =~~= before.push(empty_col));
                assert(empty_col.to_multiset().len() == 0);
                assert forall|id: Seq<char>|
                    #[trigger] crate::laws::columns_multiset(panel_order.deep_view()).count(id)
                        <= 1 by {
                    assert(crate::laws::columns_multiset(before.push(empty_col)).count(id)
                        == crate::laws::columns_multiset(before).count(id)
                        + empty_col.to_multiset().count(id));
                    assert(empty_col.to_multiset().count(id) == 0);
                    assert(crate::laws::columns_multiset(before).count(id) <= 1);
                }
            }
            k = k + 1;
        }
        DragReorderContext {
            column_refs,
            panel_order,
            active_dragged_panel: None,
            hover_info: None,
            panel_elements: Vec::new(),
        }
    }

    /// Number of columns, fixed at construction.
    pub fn num_columns(&self) -> (r: usize)
        ensures
            r == self@.panel_order.len(),
    {
        self.panel_order.len()
    }

    /// Number of panels currently listed in one column.
    pub fn column_len(&self, column: usize) -> (r: usize)
        requires
            column < self@.panel_order.len(),
        ensures
            r == self@.panel_order[column as int].len(),
    {
        self.panel_order[column].len()
    }

    /// The panel identifier at one position of one column.
    pub fn panel_at(&self, column: usize, index: usize) -> (r: &String)
        requires
            column < self@.panel_order.len(),
            index < self@.panel_order[column as int].len(),
        ensures
            r@ == self@.panel_order[column as int][index as int],
    {
        &self.panel_order[column][index]
    }

    /// Records the element geometry of one column; with a column index the
    /// context does not know, this is a no-op.
    pub fn register_column_element(&mut self, column: usize, rect: ElementRect)
        requires
            old(self)@.wf(),
            rect.wf(),
        ensures
            final(self)@.wf(),
            final(self)@ == if column < old(self)@.column_refs.len() {
                DragReorderContextView {
                    column_refs: old(self)@.column_refs.update(column as int, Some(rect)),
                    ..old(self)@
                }
            } else {
                old(self)@
            },
    {
        if column < self.column_refs.len() {
            self.column_refs[column] = Some(rect);
        }
    }

    /// Forgets the element geometry of one column (its element unmounted);
    /// with an unknown column index, a no-op.
    pub fn unregister_column_element(&mut self, column: usize)
        requires
            old(self)@.wf(),
        ensures
            final(self)@.wf(),
            final(self)@ == if column < old(self)@.column_refs.len() {
                DragReorderContextView {
                    column_refs: old(self)@.column_refs.update(column as int, None),
                    ..old(self)@
                }
            } else {
                old(self)@
            },
    {
        if column < self.column_refs.len() {
            self.column_refs[column] = None;
        }
    }
}

/// The registered panel identifiers, in registration order.
pub open spec fn registry_keys(reg: Seq<(Seq<char>, ElementRect)>) -> Seq<Seq<char>> {
    reg.map_values(|e: (Seq<char>, ElementRect)| e.0)
}

/// The registry slot holding `id`, if one does.
pub open spec fn registry_find(reg: Seq<(Seq<char>, ElementRect)>, id: Seq<char>) -> Option<int> {
    registry_keys(reg).index_of_first(id)
}

impl DragReorderContext {
    /// The registry slot of `panel_id`, by one scan.
    fn find_registry_slot(&self, panel_id: &String) -> (r: Option<usize>)
        ensures
            match r {
                Some(k) => k < self@.panel_elements.len() && registry_find(
                    self@.panel_elements,
                    panel_id@,
                ) == Some(k as int),
                None => registry_find(self@.panel_elements, panel_id@) is None,
            },
    {
        let ghost keys = registry_keys(self@.panel_elements);
        let mut k: usize = 0;
        while k < self.panel_elements.len()
            invariant
                k <= self.panel_elements@.len(),
                keys == registry_keys(self@.panel_elements),
                keys.len() == self.panel_elements@.len(),
                forall|i: int| 0 <= i < keys.len() ==> keys[i] == self@.panel_elements[i].0,
                forall|j: int| 0 <= j < k ==> keys[j] != panel_id@,
            decreases self.panel_elements@.len() - k,
        {
            if self.panel_elements[k].0 == *panel_id {
                proof {
                    assert(keys[k as int] == panel_id@);
                    keys.index_of_first_ensures(panel_id@);
                }
                return Some(k);
            }
            k = k + 1;
        }
        proof {
            keys.index_of_first_ensures(panel_id@);
            if keys.contains(panel_id@) {
                let w = choose|j: int| 0 <= j < keys.len() && keys[j] == panel_id@;
                assert(false);
            }
        }
        None
    }

    /// Records the element geometry of one panel, replacing the geometry of
    /// an identifier already registered; the view layer calls this when the
    /// panel's element mounts or updates.
    pub fn register_panel_element(&mut self, panel_id: &String, rect: ElementRect)
        requires
            old(self)@.wf(),
            rect.wf(),
        ensures
            final(self)@.wf(),
            final(self)@ == (DragReorderContextView {
                panel_elements: match registry_find(old(self)@.panel_elements, panel_id@) {
                    Some(j) => old(self)@.panel_elements.update(j, (panel_id@, rect)),
                    None => old(self)@.panel_elements.push((panel_id@, rect)),
                },
                ..old(self)@
            }),
    {
        let ghost old_reg = self@.panel_elements;
        proof {
            registry_keys(old_reg).index_of_first_ensures(panel_id@);
        }
        match self.find_registry_slot(panel_id) {
            Some(k) => {
                self.panel_elements[k] = (panel_id.clone(), rect);
                proof {
                    assert(self@.panel_elements =~= old_reg.update(k as int, (panel_id@, rect)));
                    assert(old_reg[k as int].0 == panel_id@);
                    assert(final(self)@.wf()) by {
                        assert(forall|i: int|
                            0 <= i < self@.panel_elements.len() ==> (
                            #[trigger] self@.panel_elements[i]).0 == old_reg[i].0);
                    }
                }
            },
            None => {
                self.panel_elements.push((panel_id.clone(), rect));
                proof {
                    assert(self@.panel_elements =~= old_reg.push((panel_id@, rect)));
                    assert(final(self)@.wf()) by {
                        assert forall|i: int, j: int|
                            0 <= i < j < self@.panel_elements.len() implies (
                        #[trigger] self@.panel_elements[i]).0 != (#[trigger] self@.panel_elements[j]).0 by {
                            if j == old_reg.len() {
                                assert(registry_keys(old_reg)[i] == old_reg[i].0);
                            }
                        }
                    }
                }
            },
        }
    }

    /// Forgets the element geometry of one panel (its element unmounted);
    /// unknown identifiers are tolerated as a no-op.
    pub fn unregister_panel_element(&mut self, panel_id: &String)
        requires
            old(self)@.wf(),
        ensures
            final(self)@.wf(),
            final(self)@ == (DragReorderContextView {
                panel_elements: match registry_find(old(self)@.panel_elements, panel_id@) {
                    Some(j) => old(self)@.panel_elements.remove(j),
                    None => old(self)@.panel_elements,
                },
                ..old(self)@
            }),
    {
        let ghost old_reg = self@.panel_elements;
        match self.find_registry_slot(panel_id) {
            Some(k) => {
                self.panel_elements.remove(k);
                proof {
                    old_reg.remove_ensures(k as int);
                    assert(self@.panel_elements =~= old_reg.remove(k as int));
                    assert(final(self)@.wf()) by {
                        assert forall|i: int, j: int|
                            0 <= i < j < self@.panel_elements.len() implies (
                        #[trigger] self@.panel_elements[i]).0 != (#[trigger] self@.panel_elements[j]).0 by {
                            let i0: int = if i < k { i } else { i + 1 };
                            let j0: int = if j < k { j } else { j + 1 };
                            assert(self@.panel_elements[i] == old_reg[i0]);
                            assert(self@.panel_elements[j] == old_reg[j0]);
                        }
                    }
                }
            },
            None => {},
        }
    }

    /// Whether `panel_id` is the panel currently being dragged.
    pub fn is_dragging(&self, panel_id: &String) -> (r: bool)
        ensures
            r == (self@.active_dragged_panel == Some(panel_id@)),
    {
        match &self.active_dragged_panel {
            Some(d) => *d == *panel_id,
            None => false,
        }
    }

    /// The side shown on `panel_id` while something else is dragged over it:
    /// the hovered side when `panel_id` is the hovered panel and not itself
    /// the dragged one, during an active drag.
    pub fn hover_position(&self, panel_id: &String) -> (r: Option<HoverPosition>)
        ensures
            r == hover_position_spec(self@, panel_id@),
    {
        match &self.hover_info {
            Some(h) => match &h.panel {
                Some(hp) => match &self.active_dragged_panel {
                    Some(d) => {
                        let hovering_this = hp.id == *panel_id;
                        let being_dragged = *d == *panel_id;
                        if hovering_this && !being_dragged {
                            Some(hp.position)
                        } else {
                            None
                        }
                    },
                    None => None,
                },
                None => None,
            },
            None => None,
        }
    }

    /// The identifier of the panel currently being dragged, if any.
    pub fn dragged_panel(&self) -> (r: &Option<String>)
        ensures
            self@.active_dragged_panel == match *r {
                Some(ref d) => Some(d@),
                None => None::<Seq<char>>,
            },
    {
        &self.active_dragged_panel
    }

    /// The current hover target, if any.
    pub fn current_hover(&self) -> (r: &Option<HoverInfo>)
        ensures
            hover_opt_view(*r) == self@.hover_info,
    {
        &self.hover_info
    }

    /// Lists a new panel in a column at the given position. Returns `false`,
    /// changing nothing, when the column does not exist, the position is past
    /// the column's end, or the identifier is already listed somewhere: the
    /// uniqueness of identifiers is never broken.
    pub fn insert_panel(&mut self, column: usize, index: usize, panel_id: String) -> (r: bool)
        requires
            old(self)@.wf(),
        ensures
            final(self)@.wf(),
            r == (column < old(self)@.panel_order.len() && index <= old(self)@.panel_order[
                column as int].len() && find_pos(old(self)@.panel_order, panel_id@) is None),
            final(self)@ == if r {
                DragReorderContextView {
                    panel_order: old(self)@.panel_order.update(
                        column as int,
                        old(self)@.panel_order[column as int].insert(index as int, panel_id@),
                    ),
                    ..old(self)@
                }
            } else {
                old(self)@
            },
    {
        let ghost old_cols = self@.panel_order;
        let ok = column < self.panel_order.len() && index <= self.panel_order[column].len()
            && find_panel_position(&self.panel_order, &panel_id).is_none();
        if ok {
            proof {
                lemma_find_pos_none_count(old_cols, panel_id@);
            }
            self.panel_order[column].insert(index, panel_id);
            proof {
                let inserted = old_cols[column as int].insert(index as int, panel_id@);
                assert(self.panel_order@[column as int]@ == old(self).panel_order@[
                    column as int]@.insert(index as int, panel_id));
                assert(self@.panel_order[column as int] =~= inserted);
                assert(self@.panel_order =~= old_cols.update(column as int, inserted));
                assert(inserted.to_multiset() == old_cols[column as int].to_multiset().insert(
                    panel_id@,
                ));
                crate::laws::lemma_columns_update(old_cols, column as int, inserted);
                assert forall|x: Seq<char>|
                    #[trigger] crate::laws::columns_multiset(self@.panel_order).count(x) <= 1 by {
                    crate::laws::lemma_column_count_le(old_cols, column as int, x);
                }
            }
            true
        } else {
            false
        }
    }
}

/// State captured at drag start and carried through the session: the dragged
/// panel, the fixed vector from the grab point to the element's center, and
/// the element's height (the hover-flip threshold).
pub struct DragSession {
    pub panel_id: String,
    pub mouse_offset: Pos2,
    pub dragged_height: i64,
}

impl DragSession {
    /// A session produced by `handle_drag_start`: offset and height in range.
    pub open spec fn wf(self) -> bool {
        &&& pos_bounded(self.mouse_offset, 3 * COORD_LIMIT)
        &&& 0 <= self.dragged_height <= COORD_LIMIT
    }
}

/// Absolute horizontal distance from the adjusted point to a column's
/// center; `None` for a column with no registered element.
pub open spec fn column_distance(ax: int, column_ref: Option<ElementRect>) -> Option<int> {
    match column_ref {
        Some(r) => Some(vstd::math::abs(ax - r.spec_center_x()) as int),
        None => None,
    }
}

/// Horizontal distances from the adjusted point to every column.
pub open spec fn column_distances(ctx: DragReorderContextView, ax: int) -> Seq<Option<int>> {
    Seq::new(ctx.column_refs.len(), |i: int| column_distance(ax, ctx.column_refs[i]))
}

/// Vertical distance from the adjusted point to a registered panel that is a
/// candidate — listed in the target column and not the dragged panel itself;
/// `None` for any other panel (a stale registry entry never becomes a
/// target).
pub open spec fn panel_distance(
    entry: (Seq<char>, ElementRect),
    column: Seq<Seq<char>>,
    dragged_id: Seq<char>,
    ay: int,
) -> Option<int> {
    if entry.0 != dragged_id && column.contains(entry.0) {
        Some(vstd::math::abs(ay - entry.1.spec_center_y()) as int)
    } else {
        None
    }
}

/// Vertical distances from the adjusted point to every registered panel, as
/// a candidate for the given column.
pub open spec fn panel_distances(
    ctx: DragReorderContextView,
    column_index: int,
    dragged_id: Seq<char>,
    ay: int,
) -> Seq<Option<int>> {
    Seq::new(
        ctx.panel_elements.len(),
        |i: int| panel_distance(ctx.panel_elements[i], ctx.panel_order[column_index], dragged_id, ay),
    )
}

/// The side of the hovered panel. With the same panel hovered as before, the
/// previous side is kept, except that an adjusted point within half the
/// dragged element's height of the panel's center flips it. With a newly
/// hovered panel the side is decided fresh: above when the adjusted point is
/// above the panel's center, below otherwise.
pub open spec fn decide_side(
    prev_hover: Option<HoverInfoView>,
    panel_id: Seq<char>,
    panel_center_y: int,
    ay: int,
    dragged_height: int,
) -> HoverPosition {
    let previous = match prev_hover {
        Some(h) => match h.panel {
            Some(hp) => if hp.id == panel_id {
                Some(hp.position)
            } else {
                None
            },
            None => None,
        },
        None => None,
    };
    match previous {
        Some(prev_position) => if vstd::math::abs(ay - panel_center_y) < dragged_height / 2 {
            prev_position.spec_not()
        } else {
            prev_position
        },
        None => if ay < panel_center_y {
            HoverPosition::Above
        } else {
            HoverPosition::Below
        },
    }
}

/// Hysteresis of the side decision. With the same panel hovered as before,
/// the decision depends only on the previously chosen side and on whether
/// the adjusted point sits within half the dragged element's height of the
/// panel's center: at or beyond that band the chosen side is kept, so any
/// number of such moves never flips it; inside the band it flips.
pub proof fn lemma_decide_side_hysteresis(
    prev_hover: Option<HoverInfoView>,
    panel_id: Seq<char>,
    panel_center_y: int,
    ay: int,
    dragged_height: int,
)
    requires
        prev_hover matches Some(h) && h.panel matches Some(hp) && hp.id == panel_id,
    ensures
        vstd::math::abs(ay - panel_center_y) >= dragged_height / 2 ==> decide_side(
            prev_hover,
            panel_id,
            panel_center_y,
            ay,
            dragged_height,
        ) == prev_hover->Some_0.panel->Some_0.position,
        vstd::math::abs(ay - panel_center_y) < dragged_height / 2 ==> decide_side(
            prev_hover,
            panel_id,
            panel_center_y,
            ay,
            dragged_height,
        ) == prev_hover->Some_0.panel->Some_0.position.spec_not(),
{
}

/// The hover target the state machine computes for an adjusted point: the
/// nearest column by horizontal distance, within it the nearest candidate
/// panel by vertical distance, and the side with hysteresis; a column with
/// no candidate panel is hovered as empty space. `None` when no column has a
/// registered element, in which case the hover is left as it was.
pub open spec fn dragover_hover_spec(
    ctx: DragReorderContextView,
    ax: int,
    ay: int,
    dragged_id: Seq<char>,
    dragged_height: int,
) -> Option<HoverInfoView> {
    match closest(column_distances(ctx, ax)) {
        None => None,
        Some(column_index) => Some(
            match closest(panel_distances(ctx, column_index, dragged_id, ay)) {
                None => HoverInfoView { column_index, panel: None },
                Some(pi) => {
                    let entry = ctx.panel_elements[pi];
                    HoverInfoView {
                        column_index,
                        panel: Some(
                            HoveredPanelView {
                                id: entry.0,
                                position: decide_side(
                                    ctx.hover_info,
                                    entry.0,
                                    entry.1.spec_center_y(),
                                    ay,
                                    dragged_height,
                                ),
                            },
                        ),
                    }
                },
            },
        ),
    }
}

/// Absolute difference, for distances.
fn abs_diff(a: i64, b: i64) -> (r: i64)
    requires
        -(8 * COORD_LIMIT) <= a - b <= 8 * COORD_LIMIT,
    ensures
        r == vstd::math::abs(a - b),
{
    let d = a - b;
    if d < 0 {
        -d
    } else {
        d
    }
}

/// Whether a column's order sequence lists `panel_id`.
fn column_contains(column: &Vec<String>, panel_id: &String) -> (r: bool)
    ensures
        r == column.deep_view().contains(panel_id@),
{
    let found = crate::splice::position_in_column(column, panel_id);
    proof {
        column.deep_view().index_of_first_ensures(panel_id@);
    }
    match found {
        Some(_) => true,
        None => false,
    }
}

impl DragReorderContext {
    /// Starts a drag of `panel_id`: captures the grab offset and the dragged
    /// element's height from the element's current geometry and records the
    /// panel as dragged. When the event carries no point (a touch event with
    /// no active touches), the start is aborted: nothing changes and no
    /// session begins.
    pub fn handle_drag_start(
        &mut self,
        panel_id: String,
        event: &DragEvent,
        dragged_element: ElementRect,
    ) -> (session: Option<DragSession>)
        requires
            old(self)@.wf(),
            event.wf(),
            dragged_element.wf(),
        ensures
            final(self)@.wf(),
            match session {
                None => event.spec_point() is None && final(self)@ == old(self)@,
                Some(s) => {
                    &&& event.spec_point() matches Some(pos) && s.mouse_offset.x == pos.x
                        - dragged_element.spec_center_x() && s.mouse_offset.y == pos.y
                        - dragged_element.spec_center_y()
                    &&& s.panel_id@ == panel_id@
                    &&& s.dragged_height == dragged_element.height
                    &&& s.wf()
                    &&& final(self)@ == (DragReorderContextView {
                        active_dragged_panel: Some(panel_id@),
                        ..old(self)@
                    })
                },
            },
    {
        let pos = match Pos2::try_from(event) {
            Some(p) => p,
            None => {
                return None;
            },
        };
        let element_center = dragged_element.center();
        let dragged_height = dragged_element.height;
        let mouse_offset = pos.sub(element_center);
        self.active_dragged_panel = Some(panel_id.clone());
        Some(DragSession { panel_id, mouse_offset, dragged_height })
    }

    /// Ends the drag of `panel_id`: when it is still the recorded dragged
    /// panel, the hover target and the dragged panel are cleared; a stale end
    /// event for some other panel is a no-op. The caller runs this only after
    /// any splice triggered by the final move event, so the drop is already
    /// committed when the session state resets.
    pub fn handle_drag_end(&mut self, panel_id: &String)
        requires
            old(self)@.wf(),
        ensures
            final(self)@.wf(),
            final(self)@ == if old(self)@.active_dragged_panel == Some(panel_id@) {
                DragReorderContextView {
                    active_dragged_panel: None,
                    hover_info: None,
                    ..old(self)@
                }
            } else {
                old(self)@
            },
    {
        let ended = match &self.active_dragged_panel {
            Some(d) => *d == *panel_id,
            None => false,
        };
        if ended {
            self.hover_info = None;
            self.active_dragged_panel = None;
        }
    }

    /// Commits the current drag against the current hover target: one splice
    /// of the live columns. Without both an active drag and a hover target
    /// this is a no-op. It is invoked on every hover change, for live visual
    /// reordering, and once more on drop.
    pub fn commit_drag(&mut self)
        requires
            old(self)@.wf(),
        ensures
            final(self)@.wf(),
            final(self)@ == match (old(self)@.active_dragged_panel, old(self)@.hover_info) {
                (Some(d), Some(h)) => DragReorderContextView {
                    panel_order: splice_spec(old(self)@.panel_order, d, h),
                    ..old(self)@
                },
                _ => old(self)@,
            },
    {
        match (&self.active_dragged_panel, &self.hover_info) {
            (Some(dragged_panel_id), Some(hover)) => {
                proof {
                    lemma_splice_preserves_uniqueness(
                        old(self)@.panel_order,
                        dragged_panel_id@,
                        hover@,
                    );
                    lemma_splice_preserves_ids(old(self)@.panel_order, dragged_panel_id@, hover@);
                }
                apply_panel_reordering(&mut self.panel_order, dragged_panel_id, hover);
            },
            _ => {},
        }
    }

    /// Runs the hover state machine for one move event of an active drag:
    /// projects the dragged element's center from the pointer position and
    /// the session's grab offset, picks the nearest column, the nearest
    /// candidate panel in it and the side, and replaces the hover target with
    /// the result. Returns whether the hover target differs from the previous
    /// one by value (the caller re-splices only then). An event with no point
    /// abandons the step; so does a state with no registered column element.
    pub fn handle_dragover(&mut self, event: &DragEvent, session: &DragSession) -> (changed: bool)
        requires
            old(self)@.wf(),
            event.wf(),
            session.wf(),
        ensures
            final(self)@.wf(),
            match event.spec_point() {
                None => final(self)@ == old(self)@ && !changed,
                Some(pos) => {
                    let ax = pos.x - session.mouse_offset.x;
                    let ay = pos.y - session.mouse_offset.y;
                    match dragover_hover_spec(
                        old(self)@,
                        ax,
                        ay,
                        session.panel_id@,
                        session.dragged_height as int,
                    ) {
                        None => final(self)@ == old(self)@ && !changed,
                        Some(h) => {
                            &&& final(self)@ == (DragReorderContextView {
                                hover_info: Some(h),
                                ..old(self)@
                            })
                            &&& changed == (old(self)@.hover_info != Some(h))
                        },
                    }
                },
            },
    {
        let pos = match Pos2::try_from(event) {
            Some(p) => p,
            None => {
                return false;
            },
        };
        let adjusted_mouse = pos.sub(session.mouse_offset);
        let ghost ax = adjusted_mouse.x as int;
        let ghost ay = adjusted_mouse.y as int;

        // Horizontal distance to each registered column element.
        let mut column_dists: Vec<Option<i64>> = Vec::new();
        let mut i: usize = 0;
        while i < self.column_refs.len()
            invariant
                self@ == old(self)@,
                old(self)@.wf(),
                pos_bounded(adjusted_mouse, 4 * COORD_LIMIT),
                i <= self.column_refs@.len(),
                column_dists@.len() == i,
                forall|j: int|
                    0 <= j < i ==> dists_view(column_dists@)[j] == column_distance(
                        adjusted_mouse.x as int,
                        self@.column_refs[j],
                    ),
            decreases self.column_refs@.len() - i,
        {
            proof {
                assert(self@.column_refs[i as int] == self.column_refs@[i as int]);
                assert(self@.column_refs[i as int] matches Some(r) ==> r.wf());
            }
            let ghost prev_dists = column_dists@;
            let d = match &self.column_refs[i] {
                Some(r) => Some(abs_diff(adjusted_mouse.x, r.center_x())),
                None => None,
            };
            column_dists.push(d);
            proof {
                assert forall|j: int|
                    0 <= j < i + 1 implies dists_view(column_dists@)[j] == column_distance(
                    adjusted_mouse.x as int,
                    self@.column_refs[j],
                ) by {
                    if j < i {
                        assert(column_dists@[j] == prev_dists[j]);
                        assert(dists_view(prev_dists)[j] == column_distance(
                            adjusted_mouse.x as int,
                            self@.column_refs[j],
                        ));
                    } else {
                        assert(column_dists@[j] == d);
                    }
                }
            }
            i = i + 1;
        }
        proof {
            assert(dists_view(column_dists@) =~= column_distances(self@, ax));
        }

        let closest_column = find_closest_element(&column_dists);
        let column_index = match closest_column {
            Some(c) => c,
            None => {
                return false;
            },
        };
        proof {
            lemma_closest_properties(column_distances(self@, ax));
        }

        // Vertical distance to each registered candidate panel.
        let mut panel_dists: Vec<Option<i64>> = Vec::new();
        let mut k: usize = 0;
        while k < self.panel_elements.len()
            invariant
                self@ == old(self)@,
                old(self)@.wf(),
                pos_bounded(adjusted_mouse, 4 * COORD_LIMIT),
                column_index < self@.panel_order.len(),
                k <= self.panel_elements@.len(),
                panel_dists@.len() == k,
                forall|j: int|
                    0 <= j < k ==> dists_view(panel_dists@)[j] == panel_distance(
                        self@.panel_elements[j],
                        self@.panel_order[column_index as int],
                        session.panel_id@,
                        adjusted_mouse.y as int,
                    ),
            decreases self.panel_elements@.len() - k,
        {
            proof {
                assert(self@.panel_elements[k as int] == (
                    self.panel_elements@[k as int].0@,
                    self.panel_elements@[k as int].1,
                ));
                assert(self@.panel_elements[k as int].1.wf());
                assert(self@.panel_order[column_index as int] == self.panel_order@[
                    column_index as int].deep_view());
            }
            let ghost prev_dists = panel_dists@;
            let is_dragged = self.panel_elements[k].0 == session.panel_id;
            let in_column = column_contains(&self.panel_order[column_index], &self.panel_elements[k].0);
            if !is_dragged && in_column {
                let cy = self.panel_elements[k].1.center_y();
                panel_dists.push(Some(abs_diff(adjusted_mouse.y, cy)));
            } else {
                panel_dists.push(None);
            }
            proof {
                assert forall|j: int|
                    0 <= j < k + 1 implies dists_view(panel_dists@)[j] == panel_distance(
                    self@.panel_elements[j],
                    self@.panel_order[column_index as int],
                    session.panel_id@,
                    adjusted_mouse.y as int,
                ) by {
                    if j < k {
                        assert(panel_dists@[j] == prev_dists[j]);
                        assert(dists_view(prev_dists)[j] == panel_distance(
                            self@.panel_elements[j],
                            self@.panel_order[column_index as int],
                            session.panel_id@,
                            adjusted_mouse.y as int,
                        ));
                    }
                }
            }
            k = k + 1;
        }
        proof {
            assert(dists_view(panel_dists@) =~= panel_distances(
                self@,
                column_index as int,
                session.panel_id@,
                ay,
            ));
        }

        let closest_panel = find_closest_element(&panel_dists);
        let new_hover_info = match closest_panel {
            Some(pi) => {
                proof {
                    lemma_closest_properties(panel_distances(
                        self@,
                        column_index as int,
                        session.panel_id@,
                        ay,
                    ));
                }
                let entry_id = self.panel_elements[pi].0.clone();
                let panel_center_y = self.panel_elements[pi].1.center_y();

                // Side, with hysteresis against the previous hover.
                let previous_position = match &self.hover_info {
                    Some(h) => match &h.panel {
                        Some(hp) => if hp.id == entry_id {
                            Some(hp.position)
                        } else {
                            None
                        },
                        None => None,
                    },
                    None => None,
                };
                let position = match previous_position {
                    Some(prev) => {
                        if abs_diff(adjusted_mouse.y, panel_center_y) < session.dragged_height / 2 {
                            prev.not()
                        } else {
                            prev
                        }
                    },
                    None => {
                        if adjusted_mouse.y < panel_center_y {
                            HoverPosition::Above
                        } else {
                            HoverPosition::Below
                        }
                    },
                };
                HoverInfo { column_index, panel: Some(HoveredPanel { id: entry_id, position }) }
            },
            None => HoverInfo { column_index, panel: None },
        };
        let ghost spec_hover = dragover_hover_spec(
            self@,
            ax,
            ay,
            session.panel_id@,
            session.dragged_height as int,
        );
        proof {
            assert(spec_hover == Some(new_hover_info@));
        }
        let new_hover = Some(new_hover_info);
        let changed = !hover_opt_eq(&self.hover_info, &new_hover);
        self.hover_info = new_hover;
        changed
    }
}

/// The side shown on a panel while another is dragged over it.
pub open spec fn hover_position_spec(ctx: DragReorderContextView, id: Seq<char>) -> Option<
    HoverPosition,
> {
    match ctx.hover_info {
        Some(h) => match h.panel {
            Some(hp) => match ctx.active_dragged_panel {
                Some(d) => if hp.id == id && d != id {
                    Some(hp.position)
                } else {
                    None
                },
                None => None,
            },
            None => None,
        },
        None => None,
    }
}

} // verus!
