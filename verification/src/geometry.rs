//! Points, element rectangles and input events.
//!
//! Coordinates are viewport pixels. They are kept well inside `i64` so that
//! the few additions and subtractions the engine performs can never overflow;
//! `COORD_LIMIT` is far beyond any real screen geometry.

use vstd::prelude::*;

verus! {

/// Bound on the magnitude of any registered coordinate.
pub const COORD_LIMIT: i64 = 1_000_000_000_000_000;

/// A coordinate a caller may hand to the engine.
pub open spec fn coord_in_range(v: int) -> bool {
    -COORD_LIMIT <= v <= COORD_LIMIT
}

/// A 2D point in viewport coordinates.
#[derive(Clone, Copy, Debug, PartialEq, Eq, Structural)]
pub struct Pos2 {
    pub x: i64,
    pub y: i64,
}

/// A point whose coordinates stay within `bound` in magnitude.
pub open spec fn pos_bounded(p: Pos2, bound: int) -> bool {
    -bound <= p.x <= bound && -bound <= p.y <= bound
}

impl Pos2 {
    /// A point handed in from outside: both coordinates in range.
    pub open spec fn wf(self) -> bool {
        coord_in_range(self.x as int) && coord_in_range(self.y as int)
    }

    /// Componentwise sum.
    pub fn add(self, rhs: Pos2) -> (r: Pos2)
        requires
            pos_bounded(self, 4 * COORD_LIMIT),
            pos_bounded(rhs, 4 * COORD_LIMIT),
        ensures
            r.x == self.x + rhs.x,
            r.y == self.y + rhs.y,
    {
        Pos2 { x: self.x + rhs.x, y: self.y + rhs.y }
    }

    /// Componentwise difference.
    pub fn sub(self, rhs: Pos2) -> (r: Pos2)
        requires
            pos_bounded(self, 4 * COORD_LIMIT),
            pos_bounded(rhs, 4 * COORD_LIMIT),
        ensures
            r.x == self.x - rhs.x,
            r.y == self.y - rhs.y,
    {
        Pos2 { x: self.x - rhs.x, y: self.y - rhs.y }
    }
}

/// The bounding rectangle of an on-screen element, in viewport coordinates.
#[derive(Clone, Copy, Debug, PartialEq, Eq, Structural)]
pub struct ElementRect {
    pub left: i64,
    pub top: i64,
    pub width: i64,
    pub height: i64,
}

impl ElementRect {
    /// A rectangle handed in from outside: corner in range, extents
    /// non-negative and in range.
    pub open spec fn wf(self) -> bool {
        &&& coord_in_range(self.left as int)
        &&& coord_in_range(self.top as int)
        &&& 0 <= self.width <= COORD_LIMIT
        &&& 0 <= self.height <= COORD_LIMIT
    }

    /// The horizontal center of the rectangle.
    pub open spec fn spec_center_x(self) -> int {
        self.left + self.width / 2
    }

    /// The vertical center of the rectangle.
    pub open spec fn spec_center_y(self) -> int {
        self.top + self.height / 2
    }

    /// Horizontal center, recomputed on every query.
    pub fn center_x(&self) -> (r: i64)
        requires
            self.wf(),
        ensures
            r == self.spec_center_x(),
    {
        self.left + self.width / 2
    }

    /// Vertical center, recomputed on every query.
    pub fn center_y(&self) -> (r: i64)
        requires
            self.wf(),
        ensures
            r == self.spec_center_y(),
    {
        self.top + self.height / 2
    }

    /// The geometric center of the rectangle.
    pub fn center(&self) -> (r: Pos2)
        requires
            self.wf(),
        ensures
            r.x == self.spec_center_x(),
            r.y == self.spec_center_y(),
            pos_bounded(r, 2 * COORD_LIMIT),
    {
        Pos2 { x: self.left + self.width / 2, y: self.top + self.height / 2 }
    }
}

/// A raw input event carrying the coordinates the engine needs: either a
/// mouse drag event's pointer position, or the positions of a touch event's
/// active touches (possibly none, e.g. on touch-end).
#[derive(Clone, Debug)]
pub enum DragEvent {
    Mouse(Pos2),
    Touch(Vec<Pos2>),
}

impl DragEvent {
    /// Every coordinate carried by the event is in range.
    pub open spec fn wf(self) -> bool {
        match self {
            DragEvent::Mouse(p) => p.wf(),
            DragEvent::Touch(touches) => forall|i: int|
                0 <= i < touches@.len() ==> (#[trigger] touches@[i]).wf(),
        }
    }

    /// The point the event is read at: a mouse event's own position, or the
    /// first active touch of a touch event. `None` when a touch event has no
    /// active touches, in which case the caller abandons the current step.
    pub open spec fn spec_point(self) -> Option<Pos2> {
        match self {
            DragEvent::Mouse(p) => Some(p),
            DragEvent::Touch(touches) => if touches@.len() > 0 {
                Some(touches@[0])
            } else {
                None
            },
        }
    }
}

impl Pos2 {
    /// Extracts the 2D point from an input event, if it carries one.
    pub fn try_from(event: &DragEvent) -> (r: Option<Pos2>)
        ensures
            r == event.spec_point(),
            event.wf() && r is Some ==> r->Some_0.wf(),
    {
        match event {
            DragEvent::Mouse(p) => Some(*p),
            DragEvent::Touch(touches) => if touches.len() > 0 {
                Some(touches[0])
            } else {
                None
            },
        }
    }
}

} // verus!
