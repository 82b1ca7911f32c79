//! Window-under-cursor detection, and the portable fallbacks.
//!
//! Coordinates are physical pixels of the virtual screen; a rect is
//! `(left, top, right, bottom)`, right and bottom exclusive.

use vstd::prelude::*;

verus! {

/// Physical screen coordinates of the cursor, where the platform offers none.
pub fn cursor_screen_physical() -> (r: Option<(i32, i32)>)
    ensures
        r is None,
{
    None
}

/// `(x, y)` lies in the rect.
pub open spec fn rect_contains(rect: (i32, i32, i32, i32), x: int, y: int) -> bool {
    rect.0 <= x < rect.2 && rect.1 <= y < rect.3
}

/// The number of pixels of a rect.
pub open spec fn rect_area(rect: (i32, i32, i32, i32)) -> int {
    (rect.2 - rect.0) * (rect.3 - rect.1)
}

/// A top-level window, as the platform reports it.
#[derive(Clone, Copy, Debug)]
pub struct WindowInfo {
    pub visible: bool,
    pub minimized: bool,
    /// The window's rect, if the platform could tell.
    pub rect: Option<(i32, i32, i32, i32)>,
    /// Length of the window's title; zero or less for none.
    pub title_len: i32,
}

impl WindowInfo {
    /// A window that a user may want to snap to: visible, not minimized, with
    /// a title and a rect that has pixels.
    pub open spec fn is_candidate(self) -> bool {
        &&& self.visible
        &&& !self.minimized
        &&& self.title_len > 0
        &&& self.rect matches Some(q) && q.0 < q.2 && q.1 < q.3
    }
}

/// The candidate rects of an enumeration of windows, front to back.
#[derive(Debug)]
pub struct Collector {
    pub rects: Vec<(i32, i32, i32, i32)>,
}

impl Collector {
    /// No candidates yet.
    pub fn new() -> (r: Collector)
        ensures
            r.rects@ == Seq::<(i32, i32, i32, i32)>::empty(),
    {
        Collector { rects: Vec::new() }
    }

    /// Add the window's rect if the window is a candidate.
    pub fn offer(&mut self, window: &WindowInfo)
        ensures
            final(self).rects@ == if window.is_candidate() {
                old(self).rects@.push(window.rect->0)
            } else {
                old(self).rects@
            },
    {
        if !window.visible || window.minimized {
            return;
        }
        if let Some(rect) = window.rect {
            let (l, t, r, b) = rect;
            if r <= l || b <= t {
                return;
            }
            if window.title_len <= 0 {
                return;
            }
            self.rects.push(rect);
        }
    }
}

/// The most specific window under the cursor: among the rects that contain
/// `(cx, cy)` the one with the fewest pixels, the first of them if several.
pub fn window_rect_at(cx: i32, cy: i32, rects: &Vec<(i32, i32, i32, i32)>) -> (r: Option<
    (i32, i32, i32, i32),
>)
    ensures
        r is None <==> forall|j: int|
            0 <= j < rects@.len() ==> !rect_contains(#[trigger] rects@[j], cx as int, cy as int),
        r matches Some(q) ==> exists|k: int|
            {
                &&& 0 <= k < rects@.len()
                &&& #[trigger] rects@[k] == q
                &&& rect_contains(q, cx as int, cy as int)
                &&& forall|j: int|
                    0 <= j < rects@.len() && rect_contains(
                        #[trigger] rects@[j],
                        cx as int,
                        cy as int,
                    ) ==> rect_area(q) <= rect_area(rects@[j]) && (j < k ==> rect_area(q)
                        < rect_area(rects@[j]))
            },
{
    let mut best: Option<(i32, i32, i32, i32)> = None;
    let mut best_area: i128 = 0;
    let ghost mut at: int = 0;
    let mut i: usize = 0;
    while i < rects.len()
        invariant
            i <= rects@.len(),
            best is None <==> forall|j: int|
                0 <= j < i ==> !rect_contains(#[trigger] rects@[j], cx as int, cy as int),
            best matches Some(q) ==> {
                &&& 0 <= at < i
                &&& rects@[at] == q
                &&& best_area == rect_area(q)
                &&& rect_contains(q, cx as int, cy as int)
                &&& forall|j: int|
                    0 <= j < i && rect_contains(#[trigger] rects@[j], cx as int, cy as int)
                        ==> rect_area(q) <= rect_area(rects@[j]) && (j < at ==> rect_area(q)
                        < rect_area(rects@[j]))
            },
        decreases rects@.len() - i,
    {
        let rect = rects[i];
        let (l, t, r, b) = rect;
        if l <= cx && cx < r && t <= cy && cy < b {
            let w: i128 = r as i128 - l as i128;
            let h: i128 = b as i128 - t as i128;
            assert(0 <= w * h <= 0x1_0000_0000 * 0x1_0000_0000) by (nonlinear_arith)
                requires
                    0 <= w <= 0x1_0000_0000,
                    0 <= h <= 0x1_0000_0000,
            ;
            let area: i128 = w * h;
            assert(rect_contains(rects@[i as int], cx as int, cy as int));
            if best.is_none() || area < best_area {
                best_area = area;
                best = Some(rect);
                proof {
                    at = i as int;
                }
            }
        }
        i = i + 1;
    }
    best
}

/// A window within another, and not the same, has fewer pixels: it is the more
/// specific one.
pub proof fn law_window_within_is_more_specific(
    inner: (i32, i32, i32, i32),
    outer: (i32, i32, i32, i32),
)
    requires
        outer.0 <= inner.0 < inner.2 <= outer.2,
        outer.1 <= inner.1 < inner.3 <= outer.3,
        inner != outer,
    ensures
        0 < rect_area(inner) < rect_area(outer),
{
    let (w, h) = (inner.2 - inner.0, inner.3 - inner.1);
    let (u, v) = (outer.2 - outer.0, outer.3 - outer.1);
    assert(0 < w * h < u * v) by (nonlinear_arith)
        requires
            0 < w <= u,
            0 < h <= v,
            w < u || h < v,
    ;
}

/// A rect holds its first corner and the pixels up to its last, and none of its
/// right and bottom edges. What lies in a rect lies in every rect around it.
pub proof fn law_right_and_bottom_are_exclusive(
    rect: (i32, i32, i32, i32),
    around: (i32, i32, i32, i32),
    x: int,
    y: int,
)
    ensures
        rect.0 < rect.2 && rect.1 < rect.3 ==> rect_contains(rect, rect.0 as int, rect.1 as int)
            && rect_contains(rect, rect.2 - 1, rect.3 - 1),
        !rect_contains(rect, rect.2 as int, y) && !rect_contains(rect, x, rect.3 as int),
        !rect_contains(rect, rect.0 - 1, y) && !rect_contains(rect, x, rect.1 - 1),
        around.0 <= rect.0 && around.1 <= rect.1 && rect.2 <= around.2 && rect.3 <= around.3
            && rect_contains(rect, x, y) ==> rect_contains(around, x, y),
{
}

/// A window that is hidden, minimized, untitled or without pixels is never
/// snapped to; every other window can be: some pixel lies in its rect.
pub proof fn law_candidates_can_be_pointed_at(w: WindowInfo)
    ensures
        !w.visible || w.minimized || w.title_len <= 0 || w.rect is None ==> !w.is_candidate(),
        w.visible && !w.minimized && w.title_len > 0 && w.rect is Some ==> (w.is_candidate() <==> (
        exists|x: int, y: int| #[trigger] rect_contains(w.rect->0, x, y))),
{
    if w.is_candidate() {
        let q = w.rect->0;
        assert(rect_contains(q, q.0 as int, q.1 as int));
    }
}

/// A rect's area counts its pixels: a single pixel is one, and cutting a rect
/// in two, either way, shares its pixels out.
pub proof fn law_area_counts_pixels(rect: (i32, i32, i32, i32), x: i32, y: i32)
    ensures
        rect.2 == rect.0 + 1 && rect.3 == rect.1 + 1 ==> rect_area(rect) == 1,
        rect_area((rect.0, rect.1, x, rect.3)) + rect_area((x, rect.1, rect.2, rect.3))
            == rect_area(rect),
        rect_area((rect.0, rect.1, rect.2, y)) + rect_area((rect.0, y, rect.2, rect.3))
            == rect_area(rect),
{
    let (l, t, r, b) = rect;
    assert(r - l == 1 && b - t == 1 ==> (r - l) * (b - t) == 1) by (nonlinear_arith);
    assert((x - l) * (b - t) + (r - x) * (b - t) == (r - l) * (b - t)) by (nonlinear_arith);
    assert((r - l) * (y - t) + (r - l) * (b - y) == (r - l) * (b - t)) by (nonlinear_arith);
}

} // verus!
