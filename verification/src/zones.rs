//! Mouse hit-testing. During every render the UI registers the screen
//! rectangle of each clickable thing; when a click arrives the topmost zone
//! containing the cursor decides what happens. The rectangles hit-tested are
//! the very ones just laid out: one coordinate system.

use vstd::prelude::*;

verus! {

/// A screen rectangle in terminal cells.
#[derive(Clone, Copy, Debug, PartialEq, Eq, Structural)]
pub struct Rect {
    pub x: u16,
    pub y: u16,
    pub width: u16,
    pub height: u16,
}

/// `a + b`, held at `u16::MAX`.
pub open spec fn sat_add(a: u16, b: u16) -> u16 {
    if a + b > u16::MAX {
        u16::MAX
    } else {
        (a + b) as u16
    }
}

/// Whether the cell at `(x, y)` lies in `r`: at or right of its left edge and
/// left of its right edge, at or below its top edge and above its bottom edge,
/// where right and bottom edges are computed without going past `u16::MAX`.
pub open spec fn rect_contains(r: Rect, x: u16, y: u16) -> bool {
    &&& x >= r.x
    &&& x < sat_add(r.x, r.width)
    &&& y >= r.y
    &&& y < sat_add(r.y, r.height)
}

impl Rect {
    /// The first column right of the rectangle (held at `u16::MAX`).
    pub fn right(self) -> (r: u16)
        ensures
            r == sat_add(self.x, self.width),
    {
        self.x.saturating_add(self.width)
    }

    /// The first row below the rectangle (held at `u16::MAX`).
    pub fn bottom(self) -> (r: u16)
        ensures
            r == sat_add(self.y, self.height),
    {
        self.y.saturating_add(self.height)
    }

    /// Whether the cell at `(x, y)` lies in the rectangle.
    pub fn contains(self, x: u16, y: u16) -> (b: bool)
        ensures
            b == rect_contains(self, x, y),
    {
        x >= self.x && x < self.right() && y >= self.y && y < self.bottom()
    }
}

/// A selectable entry in the left navigation pane.
#[derive(Clone, Copy, Debug, PartialEq, Eq, Structural)]
pub enum Nav {
    MyTasks,
    Project(usize),
}

/// A clickable region of the screen. Variants carry whatever the click handler
/// needs to act on.
#[derive(Clone, Copy, Debug, PartialEq, Eq, Structural)]
pub enum Zone {
    Nav(Nav),
    TaskRow(usize),
    Quit,
}

/// The topmost (last registered) zone of `items` whose rectangle contains
/// `(x, y)`, if any.
pub open spec fn topmost(items: Seq<(Zone, Rect)>, x: u16, y: u16) -> Option<Zone>
    decreases items.len(),
{
    if items.len() == 0 {
        None
    } else if rect_contains(items.last().1, x, y) {
        Some(items.last().0)
    } else {
        topmost(items.drop_last(), x, y)
    }
}

/// The set of clickable regions for the current frame. Rebuilt every render.
pub struct ZoneMap {
    items: Vec<(Zone, Rect)>,
}

impl View for ZoneMap {
    type V = Seq<(Zone, Rect)>;

    closed spec fn view(&self) -> Seq<(Zone, Rect)> {
        self.items@
    }
}

impl ZoneMap {
    /// An empty map.
    pub fn new() -> (m: ZoneMap)
        ensures
            m@ == Seq::<(Zone, Rect)>::empty(),
    {
        ZoneMap { items: Vec::new() }
    }

    /// Forget every zone.
    pub fn clear(&mut self)
        ensures
            final(self)@ == Seq::<(Zone, Rect)>::empty(),
    {
        self.items.clear();
    }

    /// Register a clickable region. Later registrations sit "on top", so push
    /// background regions first and overlays last.
    pub fn push(&mut self, zone: Zone, rect: Rect)
        ensures
            final(self)@ == old(self)@.push((zone, rect)),
    {
        self.items.push((zone, rect));
    }

    /// Topmost zone containing the cursor, if any.
    pub fn hit(&self, column: u16, row: u16) -> (r: Option<Zone>)
        ensures
            r == topmost(self@, column, row),
    {
        let mut i = self.items.len();
        assert(self@.take(i as int) =~= self@);
        while i > 0
            invariant
                i <= self@.len(),
                topmost(self@, column, row) == topmost(self@.take(i as int), column, row),
            decreases i,
        {
            let (zone, rect) = self.items[i - 1];
            assert(self@.take(i as int).drop_last() =~= self@.take(i - 1));
            if rect.contains(column, row) {
                return Some(zone);
            }
            i = i - 1;
        }
        None
    }
}

} // verus!
