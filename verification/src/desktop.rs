//! The virtual desktop: one picture out of the captures of all monitors.

use crate::failure::Failure;
use crate::imageops;
use crate::picture;
use crate::picture::{Picture, RgbaImage};
use vstd::prelude::*;
use vstd::string::*;

verus! {

/// The capture of one monitor, and where the monitor lies on the virtual
/// screen, in physical pixels.
#[derive(Debug)]
pub struct Shot {
    pub x: i32,
    pub y: i32,
    pub image: RgbaImage,
}

/// The capture of all monitors, and where it lies on the virtual screen.
#[derive(Debug)]
pub struct Desktop {
    pub origin: (i32, i32),
    pub image: RgbaImage,
}

impl Shot {
    /// The point of the virtual screen lies on the monitor.
    pub open spec fn covers(self, x: int, y: int) -> bool {
        self.image@.inside(x - self.x, y - self.y)
    }
}

/// The least of some numbers.
pub open spec fn least(s: Seq<int>) -> int
    decreases s.len(),
{
    if s.len() <= 1 {
        s[0]
    } else if s.last() < least(s.drop_last()) {
        s.last()
    } else {
        least(s.drop_last())
    }
}

/// The greatest of some numbers.
pub open spec fn greatest(s: Seq<int>) -> int
    decreases s.len(),
{
    if s.len() <= 1 {
        s[0]
    } else if s.last() > greatest(s.drop_last()) {
        s.last()
    } else {
        greatest(s.drop_last())
    }
}

/// The left edge of the virtual screen.
pub open spec fn left(shots: Seq<Shot>) -> int {
    least(Seq::new(shots.len(), |i: int| shots[i].x as int))
}

/// The top edge of the virtual screen.
pub open spec fn top(shots: Seq<Shot>) -> int {
    least(Seq::new(shots.len(), |i: int| shots[i].y as int))
}

/// The right edge of the virtual screen, exclusive.
pub open spec fn right(shots: Seq<Shot>) -> int {
    greatest(Seq::new(shots.len(), |i: int| shots[i].x + shots[i].image@.width))
}

/// The bottom edge of the virtual screen, exclusive.
pub open spec fn bottom(shots: Seq<Shot>) -> int {
    greatest(Seq::new(shots.len(), |i: int| shots[i].y + shots[i].image@.height))
}

/// The captures written one after the other onto a blank picture whose first
/// pixel is the point `(x0, y0)` of the virtual screen.
pub open spec fn composed(shots: Seq<Shot>, x0: int, y0: int, width: nat, height: nat) -> Picture
    decreases shots.len(),
{
    if shots.len() == 0 {
        Picture::blank(width, height)
    } else {
        composed(shots.drop_last(), x0, y0, width, height).replaced(
            shots.last().image@,
            shots.last().x - x0,
            shots.last().y - y0,
        )
    }
}

/// The virtual desktop fits a picture.
pub open spec fn fits(shots: Seq<Shot>) -> bool {
    &&& right(shots) - left(shots) <= u32::MAX
    &&& bottom(shots) - top(shots) <= u32::MAX
    &&& 4 * ((right(shots) - left(shots)) * (bottom(shots) - top(shots))) <= picture::byte_limit()
}

/// The least number is no more than any.
pub proof fn lemma_least(s: Seq<int>, i: int)
    requires
        0 <= i < s.len(),
    ensures
        least(s) <= s[i],
    decreases s.len(),
{
    if s.len() > 1 && i < s.len() - 1 {
        lemma_least(s.drop_last(), i);
    }
}

/// The greatest number is no less than any.
pub proof fn lemma_greatest(s: Seq<int>, i: int)
    requires
        0 <= i < s.len(),
    ensures
        s[i] <= greatest(s),
    decreases s.len(),
{
    if s.len() > 1 && i < s.len() - 1 {
        lemma_greatest(s.drop_last(), i);
    }
}

/// One more shot moves an edge exactly if it lies further out.
proof fn lemma_edges(shots: Seq<Shot>, n: int)
    requires
        1 <= n < shots.len(),
    ensures
        ({
            let s = shots.take(n);
            let q = shots.take(n + 1);
            let last = shots[n];
            &&& left(q) == if last.x < left(s) { last.x as int } else { left(s) }
            &&& top(q) == if last.y < top(s) { last.y as int } else { top(s) }
            &&& right(q) == if last.x + last.image@.width > right(s) {
                last.x + last.image@.width
            } else {
                right(s)
            }
            &&& bottom(q) == if last.y + last.image@.height > bottom(s) {
                last.y + last.image@.height
            } else {
                bottom(s)
            }
        }),
{
    let s = shots.take(n);
    let q = shots.take(n + 1);
    let xs = Seq::new(q.len(), |i: int| q[i].x as int);
    assert(xs.drop_last() =~= Seq::new(s.len(), |i: int| s[i].x as int));
    let ys = Seq::new(q.len(), |i: int| q[i].y as int);
    assert(ys.drop_last() =~= Seq::new(s.len(), |i: int| s[i].y as int));
    let rs = Seq::new(q.len(), |i: int| q[i].x + q[i].image@.width);
    assert(rs.drop_last() =~= Seq::new(s.len(), |i: int| s[i].x + s[i].image@.width));
    let bs = Seq::new(q.len(), |i: int| q[i].y + q[i].image@.height);
    assert(bs.drop_last() =~= Seq::new(s.len(), |i: int| s[i].y + s[i].image@.height));
}

/// The edges of the virtual screen: left, top, right and bottom.
fn edges(shots: &Vec<Shot>) -> (r: (i32, i32, i64, i64))
    requires
        shots@.len() > 0,
    ensures
        r.0 == left(shots@),
        r.1 == top(shots@),
        r.2 == right(shots@),
        r.3 == bottom(shots@),
{
    let mut l: i32 = shots[0].x;
    let mut t: i32 = shots[0].y;
    let mut r: i64 = shots[0].x as i64 + shots[0].image.width() as i64;
    let mut b: i64 = shots[0].y as i64 + shots[0].image.height() as i64;
    let mut i: usize = 1;
    while i < shots.len()
        invariant
            1 <= i <= shots@.len(),
            l == left(shots@.take(i as int)),
            t == top(shots@.take(i as int)),
            r == right(shots@.take(i as int)),
            b == bottom(shots@.take(i as int)),
        decreases shots@.len() - i,
    {
        let shot = &shots[i];
        let shot_right: i64 = shot.x as i64 + shot.image.width() as i64;
        let shot_bottom: i64 = shot.y as i64 + shot.image.height() as i64;
        proof {
            lemma_edges(shots@, i as int);
        }
        if shot.x < l {
            l = shot.x;
        }
        if shot.y < t {
            t = shot.y;
        }
        if shot_right > r {
            r = shot_right;
        }
        if shot_bottom > b {
            b = shot_bottom;
        }
        i = i + 1;
    }
    assert(shots@.take(shots@.len() as int) =~= shots@);
    (l, t, r, b)
}

/// Put the captures of all monitors together. Where captures overlap, the
/// later one is seen; where none lies, the picture is transparent.
pub fn compose_desktop(shots: &Vec<Shot>) -> (r: Result<Desktop, Failure>)
    requires
        forall|i: int| 0 <= i < shots@.len() ==> (#[trigger] shots@[i]).image.wf(),
    ensures
        r is Ok <==> (shots@.len() > 0 && fits(shots@)),
        r matches Ok(d) ==> {
            &&& d.image.wf()
            &&& d.origin.0 == left(shots@)
            &&& d.origin.1 == top(shots@)
            &&& d.image@ == composed(
                shots@,
                left(shots@),
                top(shots@),
                (right(shots@) - left(shots@)) as nat,
                (bottom(shots@) - top(shots@)) as nat,
            )
        },
        r matches Err(e) ==> e.message@ == if shots@.len() == 0 {
            "no monitors found"@
        } else {
            "the virtual desktop is too large"@
        },
{
    if shots.len() == 0 {
        return Err(Failure { message: "no monitors found".to_string() });
    }
    let (l, t, r, b) = edges(shots);
    proof {
        lemma_least(Seq::new(shots@.len(), |i: int| shots@[i].x as int), 0);
        lemma_least(Seq::new(shots@.len(), |i: int| shots@[i].y as int), 0);
        lemma_greatest(Seq::new(shots@.len(), |i: int| shots@[i].x + shots@[i].image@.width), 0);
        lemma_greatest(Seq::new(shots@.len(), |i: int| shots@[i].y + shots@[i].image@.height), 0);
    }
    let w: i128 = r as i128 - l as i128;
    let h: i128 = b as i128 - t as i128;
    if w > u32::MAX as i128 || h > u32::MAX as i128 {
        return Err(Failure { message: "the virtual desktop is too large".to_string() });
    }
    proof {
        assert(w * h <= u32::MAX * u32::MAX) by (nonlinear_arith)
            requires
                0 <= w <= u32::MAX,
                0 <= h <= u32::MAX,
        ;
        assert(0 <= w * h) by (nonlinear_arith)
            requires
                0 <= w,
                0 <= h,
        ;
    }
    if 4 * (w * h) > (isize::MAX / 4) as i128 {
        return Err(Failure { message: "the virtual desktop is too large".to_string() });
    }
    let mut image = RgbaImage::new(w as u32, h as u32);
    let mut i: usize = 0;
    while i < shots.len()
        invariant
            i <= shots@.len(),
            forall|k: int| 0 <= k < shots@.len() ==> (#[trigger] shots@[k]).image.wf(),
            image.wf(),
            image@ == composed(shots@.take(i as int), l as int, t as int, w as nat, h as nat),
        decreases shots@.len() - i,
    {
        let shot = &shots[i];
        imageops::replace(&mut image, &shot.image, shot.x as i64 - l as i64, shot.y as i64 - t as i64);
        assert(shots@.take(i + 1).drop_last() =~= shots@.take(i as int));
        i = i + 1;
    }
    assert(shots@.take(shots@.len() as int) =~= shots@);
    Ok(Desktop { origin: (l, t), image })
}

/// A composed picture has one pixel per position.
proof fn lemma_composed_wf(shots: Seq<Shot>, x0: int, y0: int, width: nat, height: nat)
    ensures
        composed(shots, x0, y0, width, height).wf(),
        composed(shots, x0, y0, width, height).width == width,
        composed(shots, x0, y0, width, height).height == height,
    decreases shots.len(),
{
    if shots.len() > 0 {
        lemma_composed_wf(shots.drop_last(), x0, y0, width, height);
    }
}

/// A point of the virtual screen shows the last monitor that covers it.
pub proof fn law_desktop_shows_monitors(
    shots: Seq<Shot>,
    x0: int,
    y0: int,
    width: nat,
    height: nat,
    k: int,
    x: int,
    y: int,
)
    requires
        0 <= k < shots.len(),
        shots[k].covers(x, y),
        forall|j: int| k < j < shots.len() ==> !(#[trigger] shots[j]).covers(x, y),
        x0 <= x < x0 + width,
        y0 <= y < y0 + height,
    ensures
        composed(shots, x0, y0, width, height).pixel(x - x0, y - y0) == shots[k].image@.pixel(
            x - shots[k].x,
            y - shots[k].y,
        ),
    decreases shots.len(),
{
    let below = shots.drop_last();
    lemma_composed_wf(below, x0, y0, width, height);
    picture::lemma_replaced(
        composed(below, x0, y0, width, height),
        shots.last().image@,
        shots.last().x - x0,
        shots.last().y - y0,
        x - x0,
        y - y0,
    );
    if k < shots.len() - 1 {
        assert(!shots[shots.len() - 1].covers(x, y));
        assert forall|j: int| k < j < below.len() implies !(#[trigger] below[j]).covers(x, y) by {
            assert(!shots[j].covers(x, y));
        }
        law_desktop_shows_monitors(below, x0, y0, width, height, k, x, y);
    }
}

/// Every monitor lies within the virtual desktop.
pub proof fn law_desktop_holds_monitors(shots: Seq<Shot>, k: int, x: int, y: int)
    requires
        0 <= k < shots.len(),
        shots[k].covers(x, y),
    ensures
        left(shots) <= x < right(shots),
        top(shots) <= y < bottom(shots),
{
    lemma_least(Seq::new(shots.len(), |i: int| shots[i].x as int), k);
    lemma_least(Seq::new(shots.len(), |i: int| shots[i].y as int), k);
    lemma_greatest(Seq::new(shots.len(), |i: int| shots[i].x + shots[i].image@.width), k);
    lemma_greatest(Seq::new(shots.len(), |i: int| shots[i].y + shots[i].image@.height), k);
}

/// The least number is one of them.
proof fn lemma_least_is_one(s: Seq<int>) -> (k: int)
    requires
        s.len() > 0,
    ensures
        0 <= k < s.len(),
        s[k] == least(s),
    decreases s.len(),
{
    if s.len() == 1 {
        0
    } else if s.last() < least(s.drop_last()) {
        s.len() - 1
    } else {
        lemma_least_is_one(s.drop_last())
    }
}

/// The greatest number is one of them.
proof fn lemma_greatest_is_one(s: Seq<int>) -> (k: int)
    requires
        s.len() > 0,
    ensures
        0 <= k < s.len(),
        s[k] == greatest(s),
    decreases s.len(),
{
    if s.len() == 1 {
        0
    } else if s.last() > greatest(s.drop_last()) {
        s.len() - 1
    } else {
        lemma_greatest_is_one(s.drop_last())
    }
}

/// The virtual desktop is no larger than its monitors ask: each of its edges is
/// the edge of a monitor.
pub proof fn law_desktop_is_tight(shots: Seq<Shot>)
    requires
        shots.len() > 0,
    ensures
        exists|k: int| 0 <= k < shots.len() && left(shots) == (#[trigger] shots[k]).x,
        exists|k: int| 0 <= k < shots.len() && top(shots) == (#[trigger] shots[k]).y,
        exists|k: int|
            0 <= k < shots.len() && right(shots) == (#[trigger] shots[k]).x
                + shots[k].image@.width,
        exists|k: int|
            0 <= k < shots.len() && bottom(shots) == (#[trigger] shots[k]).y
                + shots[k].image@.height,
        forall|k: int|
            0 <= k < shots.len() ==> {
                &&& left(shots) <= (#[trigger] shots[k]).x
                &&& top(shots) <= shots[k].y
                &&& shots[k].x + shots[k].image@.width <= right(shots)
                &&& shots[k].y + shots[k].image@.height <= bottom(shots)
            },
{
    let xs = Seq::new(shots.len(), |i: int| shots[i].x as int);
    let ys = Seq::new(shots.len(), |i: int| shots[i].y as int);
    let rs = Seq::new(shots.len(), |i: int| shots[i].x + shots[i].image@.width);
    let bs = Seq::new(shots.len(), |i: int| shots[i].y + shots[i].image@.height);
    let l = lemma_least_is_one(xs);
    let t = lemma_least_is_one(ys);
    let r = lemma_greatest_is_one(rs);
    let b = lemma_greatest_is_one(bs);
    assert(left(shots) == shots[l].x);
    assert(top(shots) == shots[t].y);
    assert(right(shots) == shots[r].x + shots[r].image@.width);
    assert(bottom(shots) == shots[b].y + shots[b].image@.height);
    assert forall|k: int| 0 <= k < shots.len() implies {
        &&& left(shots) <= (#[trigger] shots[k]).x
        &&& top(shots) <= shots[k].y
        &&& shots[k].x + shots[k].image@.width <= right(shots)
        &&& shots[k].y + shots[k].image@.height <= bottom(shots)
    } by {
        lemma_least(xs, k);
        lemma_least(ys, k);
        lemma_greatest(rs, k);
        lemma_greatest(bs, k);
    }
}

/// A point of the virtual screen that no monitor covers is transparent black.
pub proof fn law_desktop_is_blank_between_monitors(
    shots: Seq<Shot>,
    x0: int,
    y0: int,
    width: nat,
    height: nat,
    x: int,
    y: int,
)
    requires
        forall|j: int| 0 <= j < shots.len() ==> !(#[trigger] shots[j]).covers(x, y),
        x0 <= x < x0 + width,
        y0 <= y < y0 + height,
    ensures
        ({
            let p = composed(shots, x0, y0, width, height).pixel(x - x0, y - y0);
            p.r == 0 && p.g == 0 && p.b == 0 && p.a == 0
        }),
    decreases shots.len(),
{
    if shots.len() == 0 {
        picture::law_blank_is_transparent(width, height, x - x0, y - y0);
    } else {
        let below = shots.drop_last();
        lemma_composed_wf(below, x0, y0, width, height);
        picture::lemma_replaced(
            composed(below, x0, y0, width, height),
            shots.last().image@,
            shots.last().x - x0,
            shots.last().y - y0,
            x - x0,
            y - y0,
        );
        assert(!shots[shots.len() - 1].covers(x, y));
        assert forall|j: int| 0 <= j < below.len() implies !(#[trigger] below[j]).covers(x, y) by {
            assert(!shots[j].covers(x, y));
        }
        law_desktop_is_blank_between_monitors(below, x0, y0, width, height, x, y);
    }
}

/// The composed picture has the sides that were asked for, and a monitor covers
/// the points from its corner on, as far as its picture's sides reach.
pub proof fn law_desktop_has_its_sides(
    shots: Seq<Shot>,
    x0: int,
    y0: int,
    width: nat,
    height: nat,
    shot: Shot,
    x: int,
    y: int,
)
    ensures
        composed(shots, x0, y0, width, height).width == width,
        composed(shots, x0, y0, width, height).height == height,
        shot.covers(x, y) <==> shot.x <= x < shot.x + shot.image@.width && shot.y <= y < shot.y
            + shot.image@.height,
{
    lemma_composed_wf(shots, x0, y0, width, height);
}

} // verus!
