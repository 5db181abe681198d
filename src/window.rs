use vstd::prelude::*;

use crate::geometry::{covers, WindowBounds};
use crate::reduce::{filter_impurities, reduced};

verus! {

/// The windows found on the desktop, front-most first.
pub struct JsDesktopWindowInfo {
    pub win_rects: Vec<WindowBounds>,
}

/// Index `i` holds the first window of `s` that covers the point `(px, py)`.
pub open spec fn first_cover(s: Seq<WindowBounds>, px: int, py: int, i: int) -> bool {
    &&& 0 <= i < s.len()
    &&& covers(s[i], px, py)
    &&& forall|k: int| 0 <= k < i ==> !covers(#[trigger] s[k], px, py)
}

impl JsDesktopWindowInfo {
    /// Holds the given windows as they are.
    pub fn new(win_rects: Vec<WindowBounds>) -> (r: JsDesktopWindowInfo)
        ensures
            r.win_rects@ == win_rects@,
    {
        JsDesktopWindowInfo { win_rects }
    }

    /// Holds the given windows after removing those that lie within another.
    pub fn from_window_list(win_rects: Vec<WindowBounds>) -> (r: JsDesktopWindowInfo)
        ensures
            r.win_rects@ == reduced(win_rects@),
    {
        let mut list = win_rects;
        filter_impurities(&mut list);
        JsDesktopWindowInfo::new(list)
    }

    /// The first window in list order that covers the point `(x, y)`, edges
    /// included; `None` when no window does.
    pub fn is_overlaps(&self, x: i32, y: i32) -> (r: Option<WindowBounds>)
        ensures
            match r {
                Some(w) => exists|i: int|
                    first_cover(self.win_rects@, x as int, y as int, i) && w
                        == self.win_rects@[i],
                None => forall|i: int|
                    0 <= i < self.win_rects@.len() ==> !covers(
                        #[trigger] self.win_rects@[i],
                        x as int,
                        y as int,
                    ),
            },
    {
        let n = self.win_rects.len();
        let mut i: usize = 0;
        while i < n
            invariant
                n == self.win_rects@.len(),
                i <= n,
                forall|k: int| 0 <= k < i ==> !covers(#[trigger] self.win_rects@[k], x as int, y as int),
            decreases n - i,
        {
            let win: &WindowBounds = &self.win_rects[i];
            if win.covers_point(x, y) {
                let r = win.copied();
                assert(first_cover(self.win_rects@, x as int, y as int, i as int));
                return Some(r);
            }
            i += 1;
        }
        None
    }
}

} // verus!
