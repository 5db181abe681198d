use vstd::prelude::*;

verus! {

/// Screen rectangle given by its edges, as the platform reports a window's frame.
#[derive(Debug, Clone, Copy, PartialEq, Eq, Structural)]
pub struct Rect {
    pub left: i32,
    pub top: i32,
    pub right: i32,
    pub bottom: i32,
}

/// Bounds of one window: its top-left corner, its extent and its title.
#[derive(Debug, Clone)]
pub struct WindowBounds {
    pub title: String,
    pub x: i32,
    pub y: i32,
    pub width: i32,
    pub height: i32,
}

/// The geometry of a window, without its title.
pub open spec fn geom(w: WindowBounds) -> (int, int, int, int) {
    (w.x as int, w.y as int, w.width as int, w.height as int)
}

/// `a` lies entirely within `b` (all four edges inside or on `b`'s edges).
pub open spec fn inside(a: WindowBounds, b: WindowBounds) -> bool {
    &&& a.x >= b.x
    &&& a.y >= b.y
    &&& a.x + a.width <= b.x + b.width
    &&& a.y + a.height <= b.y + b.height
}

/// The point `(px, py)` lies within `w`, edges included.
pub open spec fn covers(w: WindowBounds, px: int, py: int) -> bool {
    &&& w.x <= px
    &&& w.y <= py
    &&& w.x + w.width >= px
    &&& w.y + w.height >= py
}

impl PartialEq for WindowBounds {
    fn eq(&self, o: &WindowBounds) -> (r: bool) {
        self.x == o.x && self.y == o.y && self.width == o.width && self.height == o.height
            && self.title == o.title
    }
}

impl vstd::std_specs::cmp::PartialEqSpecImpl for WindowBounds {
    open spec fn obeys_eq_spec() -> bool {
        true
    }

    open spec fn eq_spec(&self, o: &WindowBounds) -> bool {
        geom(*self) == geom(*o) && self.title@ == o.title@
    }
}

impl WindowBounds {
    /// Bounds of a window whose frame is `rect`, with the given title.
    pub fn new(rect: Rect, title: String) -> (r: WindowBounds)
        requires
            i32::MIN <= rect.right - rect.left <= i32::MAX,
            i32::MIN <= rect.bottom - rect.top <= i32::MAX,
        ensures
            r.title == title,
            r.x == rect.left,
            r.y == rect.top,
            r.width == rect.right - rect.left,
            r.height == rect.bottom - rect.top,
    {
        let width = rect.right - rect.left;
        let height = rect.bottom - rect.top;
        WindowBounds { title, x: rect.left, y: rect.top, width, height }
    }

    /// A copy of these bounds, title included.
    pub fn copied(&self) -> (r: WindowBounds)
        ensures
            r == *self,
    {
        WindowBounds {
            title: self.title.clone(),
            x: self.x,
            y: self.y,
            width: self.width,
            height: self.height,
        }
    }

    /// Whether this window lies entirely within `other`.
    pub fn is_inside(&self, other: &WindowBounds) -> (r: bool)
        ensures
            r == inside(*self, *other),
    {
        self.x as i64 >= other.x as i64 && self.y as i64 >= other.y as i64
            && self.x as i64 + self.width as i64 <= other.x as i64 + other.width as i64
            && self.y as i64 + self.height as i64 <= other.y as i64 + other.height as i64
    }

    /// Whether the point `(x, y)` lies within this window, edges included.
    pub fn covers_point(&self, x: i32, y: i32) -> (r: bool)
        ensures
            r == covers(*self, x as int, y as int),
    {
        self.x <= x && self.y <= y && self.x as i64 + self.width as i64 >= x as i64
            && self.y as i64 + self.height as i64 >= y as i64
    }
}

} // verus!
