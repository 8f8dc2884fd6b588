//! The hover target: which column and, within it, which neighboring panel and
//! side the dragged panel is currently over.

use vstd::prelude::*;

verus! {

/// Indicates whether a panel is being hovered above or below.
#[derive(Clone, Copy, Debug, PartialEq, Eq, Structural)]
pub enum HoverPosition {
    Above,
    Below,
}

impl HoverPosition {
    /// The opposite side.
    pub open spec fn spec_not(self) -> HoverPosition {
        match self {
            HoverPosition::Above => HoverPosition::Below,
            HoverPosition::Below => HoverPosition::Above,
        }
    }

    /// Flips the side.
    pub fn not(self) -> (r: Self)
        ensures
            r == self.spec_not(),
    {
        match self {
            HoverPosition::Above => HoverPosition::Below,
            HoverPosition::Below => HoverPosition::Above,
        }
    }
}

/// A panel being hovered over, and on which side.
#[derive(Clone, Debug, PartialEq, Eq)]
pub struct HoveredPanel {
    pub id: String,
    pub position: HoverPosition,
}

/// Mathematical value of a `HoveredPanel`.
pub struct HoveredPanelView {
    pub id: Seq<char>,
    pub position: HoverPosition,
}

impl View for HoveredPanel {
    type V = HoveredPanelView;

    open spec fn view(&self) -> HoveredPanelView {
        HoveredPanelView { id: self.id@, position: self.position }
    }
}

/// The current hover target during a drag: a column, plus optionally a
/// neighboring panel and side. `panel == None` means the dragged panel hovers
/// over empty column space and would be appended at the end.
#[derive(Clone, Debug, PartialEq, Eq)]
pub struct HoverInfo {
    pub column_index: usize,
    pub panel: Option<HoveredPanel>,
}

/// Mathematical value of a `HoverInfo`.
pub struct HoverInfoView {
    pub column_index: int,
    pub panel: Option<HoveredPanelView>,
}

impl View for HoverInfo {
    type V = HoverInfoView;

    open spec fn view(&self) -> HoverInfoView {
        HoverInfoView {
            column_index: self.column_index as int,
            panel: match self.panel {
                Some(p) => Some(p@),
                None => None,
            },
        }
    }
}

/// Mathematical value of an optional hover target.
pub open spec fn hover_opt_view(h: Option<HoverInfo>) -> Option<HoverInfoView> {
    match h {
        Some(info) => Some(info@),
        None => None,
    }
}

/// Value equality of two optional hover targets, decided executably.
pub fn hover_opt_eq(a: &Option<HoverInfo>, b: &Option<HoverInfo>) -> (r: bool)
    ensures
        r == (hover_opt_view(*a) == hover_opt_view(*b)),
{
    match (a, b) {
        (None, None) => true,
        (Some(x), Some(y)) => {
            let panels_eq = match (&x.panel, &y.panel) {
                (None, None) => true,
                (Some(p), Some(q)) => {
                    let r = p.id == q.id && p.position == q.position;
                    proof {
                        if r {
                            assert(p@ == q@);
                        }
                    }
                    r
                },
                _ => false,
            };
            let r = x.column_index == y.column_index && panels_eq;
            proof {
                if r {
                    assert(x@ == y@);
                }
            }
            r
        },
        _ => false,
    }
}

} // verus!
