use vstd::prelude::*;

use crate::geometry::{Rect, WindowBounds};

verus! {

/// Direction of a walk along the z-order.
#[derive(Debug, Clone, Copy, PartialEq, Eq, Structural)]
pub enum ZOrder {
    /// Toward the windows stacked in front.
    TowardFront,
    /// Toward the windows stacked behind.
    TowardBack,
}

/// What the platform reports of one window during a walk.
pub struct WindowProbe {
    /// Frame of the window; all zero when it could not be read.
    pub rect: Rect,
    pub title: String,
    pub visible: bool,
    pub minimized: bool,
    /// Handle of the neighbour in the direction of the walk; 0 when there is none.
    pub next: usize,
}

/// The smallest width and height, exclusive, of a window that is reported.
pub const MIN_EXTENT: i32 = 5;

/// The window is reported: it is visible, not minimized, and wider and taller
/// than `MIN_EXTENT`, with an extent that fits an `i32`.
pub open spec fn admits(p: WindowProbe) -> bool {
    &&& p.visible
    &&& !p.minimized
    &&& MIN_EXTENT < p.rect.right - p.rect.left <= i32::MAX
    &&& MIN_EXTENT < p.rect.bottom - p.rect.top <= i32::MAX
}

/// The bounds that are reported of an admitted window.
pub open spec fn bounds_of(p: WindowProbe) -> WindowBounds {
    WindowBounds {
        title: p.title,
        x: p.rect.left,
        y: p.rect.top,
        width: (p.rect.right - p.rect.left) as i32,
        height: (p.rect.bottom - p.rect.top) as i32,
    }
}

/// A walk along the z-order from a starting window, one window at a time.
/// The caller asks the platform about the window that `next_window` names and
/// hands the answer to `visit`, until no window is named.
pub struct WindowLister {
    direction: ZOrder,
    current: usize,
    finished: bool,
    seen: Vec<WindowBounds>,
}

impl WindowLister {
    /// Every admitted window is wider and taller than `MIN_EXTENT`.
    pub closed spec fn wf(&self) -> bool {
        forall|i: int|
            0 <= i < self.seen@.len() ==> #[trigger] self.seen@[i].width > MIN_EXTENT
                && self.seen@[i].height > MIN_EXTENT
    }

    pub closed spec fn direction(&self) -> ZOrder {
        self.direction
    }

    /// The window to be visited next, while the walk is not finished.
    pub closed spec fn current(&self) -> usize {
        self.current
    }

    pub closed spec fn is_finished(&self) -> bool {
        self.finished
    }

    /// The admitted windows, in the order in which they were visited.
    pub closed spec fn admitted(&self) -> Seq<WindowBounds> {
        self.seen@
    }

    /// The windows reported by a finished walk: front-most first.
    pub open spec fn windows(&self) -> Seq<WindowBounds> {
        if self.direction() == ZOrder::TowardBack {
            self.admitted()
        } else {
            self.admitted().reverse()
        }
    }

    /// A walk in `direction` starting at window `start`; a walk from the null
    /// handle 0 is finished at once.
    pub fn new(start: usize, direction: ZOrder) -> (r: WindowLister)
        ensures
            r.wf(),
            r.direction() == direction,
            r.current() == start,
            r.is_finished() == (start == 0),
            r.admitted() == Seq::<WindowBounds>::empty(),
    {
        WindowLister { direction, current: start, finished: start == 0, seen: Vec::new() }
    }

    /// The window to ask the platform about next; `None` once the walk is finished.
    pub fn next_window(&self) -> (r: Option<usize>)
        ensures
            r == if self.is_finished() {
                None
            } else {
                Some(self.current())
            },
    {
        if self.finished {
            None
        } else {
            Some(self.current)
        }
    }

    /// Takes what the platform reported of the current window: admits it if
    /// it qualifies, and moves on to its neighbour. The walk ends at a null
    /// neighbour, or at one that is the window itself. Returns the window to
    /// ask about next.
    pub fn visit(&mut self, probe: WindowProbe) -> (r: Option<usize>)
        requires
            old(self).wf(),
            !old(self).is_finished(),
        ensures
            final(self).wf(),
            final(self).direction() == old(self).direction(),
            final(self).admitted() == if admits(probe) {
                old(self).admitted().push(bounds_of(probe))
            } else {
                old(self).admitted()
            },
            final(self).current() == probe.next,
            final(self).is_finished() == (probe.next == 0 || probe.next == old(self).current()),
            r == if final(self).is_finished() {
                None
            } else {
                Some(probe.next)
            },
    {
        let width = probe.rect.right as i64 - probe.rect.left as i64;
        let height = probe.rect.bottom as i64 - probe.rect.top as i64;
        let next = probe.next;
        if probe.visible && !probe.minimized && width > MIN_EXTENT as i64 && width
            <= i32::MAX as i64 && height > MIN_EXTENT as i64 && height <= i32::MAX as i64 {
            let w = WindowBounds::new(probe.rect, probe.title);
            self.seen.push(w);
        }
        self.finished = next == 0 || next == self.current;
        self.current = next;
        if self.finished {
            None
        } else {
            Some(next)
        }
    }

    /// The admitted windows, front-most first: in visiting order for a walk
    /// toward the back, reversed for a walk toward the front.
    pub fn into_windows(self) -> (r: Vec<WindowBounds>)
        requires
            self.wf(),
        ensures
            r@ == self.windows(),
            forall|i: int|
                0 <= i < r@.len() ==> #[trigger] r@[i].width > MIN_EXTENT && r@[i].height
                    > MIN_EXTENT,
    {
        match self.direction {
            ZOrder::TowardBack => self.seen,
            ZOrder::TowardFront => {
                let ghost s = self.seen@;
                let mut rest = self.seen;
                let mut out: Vec<WindowBounds> = Vec::new();
                while rest.len() > 0
                    invariant
                        rest@ == s.subrange(0, rest@.len() as int),
                        out@.len() + rest@.len() == s.len(),
                        forall|k: int| 0 <= k < out@.len() ==> out@[k] == s[s.len() - 1 - k],
                    decreases rest@.len(),
                {
                    let w = rest.pop().unwrap();
                    out.push(w);
                }
                assert(out@ =~= s.reverse());
                out
            },
        }
    }
}

} // verus!
