//! Annotation drawing: strokes on a document, in physical pixels.

use crate::picture;
use crate::picture::{Picture, Rgba, RgbaImage};
use vstd::prelude::*;

verus! {

/// The larger of two numbers.
pub open spec fn larger(a: int, b: int) -> int {
    if a < b {
        b
    } else {
        a
    }
}

/// The smaller of two numbers.
pub open spec fn smaller(a: int, b: int) -> int {
    if a < b {
        a
    } else {
        b
    }
}

/// The square of side `2 * t + 1` around `(cx, cy)`.
pub open spec fn square(cx: int, cy: int, t: int) -> spec_fn(int, int) -> bool {
    |x: int, y: int| cx - t <= x <= cx + t && cy - t <= y <= cy + t
}

/// Stamp a filled square of side `thickness * 2 + 1` centered on `(cx, cy)`,
/// clamped to the image. `thickness <= 0` stamps a single pixel.
pub fn stamp_square(img: &mut RgbaImage, cx: i32, cy: i32, thickness: i32, px: Rgba)
    requires
        old(img).wf(),
    ensures
        final(img).wf(),
        final(img)@ == old(img)@.painted(
            square(cx as int, cy as int, larger(thickness as int, 0)),
            px,
        ),
{
    proof {
        img.lemma_wf();
    }
    let ghost p = img@;
    let w: i64 = img.width() as i64;
    let h: i64 = img.height() as i64;
    let t: i64 = if thickness < 0 { 0 } else { thickness as i64 };
    let ghost region = square(cx as int, cy as int, t as int);
    let xs: i64 = if (cx as i64) - t < 0 { 0 } else { (cx as i64) - t };
    let ys: i64 = if (cy as i64) - t < 0 { 0 } else { (cy as i64) - t };
    let xe: i64 = if (cx as i64) + t < w - 1 { (cx as i64) + t } else { w - 1 };
    let ye: i64 = if (cy as i64) + t < h - 1 { (cy as i64) + t } else { h - 1 };
    let mut yy: i64 = ys;
    while yy <= ye
        invariant
            p.wf(),
            img.wf(),
            img@.wf(),
            img@.same_size(p),
            w == p.width,
            h == p.height,
            region == square(cx as int, cy as int, t as int),
            0 <= xs,
            0 <= ys <= yy,
            xe < w,
            ye < h,
            w <= u32::MAX,
            h <= u32::MAX,
            forall|x: int, y: int|
                p.inside(x, y) ==> (#[trigger] region(x, y) <==> xs <= x <= xe && ys <= y <= ye),
            forall|x: int, y: int|
                p.inside(x, y) ==> #[trigger] img@.pixel(x, y) == if region(x, y) && y < yy {
                    px
                } else {
                    p.pixel(x, y)
                },
        decreases ye + 1 - yy,
    {
        let mut xx: i64 = xs;
        while xx <= xe
            invariant
                p.wf(),
                img.wf(),
                img@.wf(),
                img@.same_size(p),
                w == p.width,
                h == p.height,
                0 <= xs <= xx,
                0 <= ys <= yy <= ye,
                xe < w,
                ye < h,
                w <= u32::MAX,
                h <= u32::MAX,
                forall|x: int, y: int|
                    p.inside(x, y) ==> (#[trigger] region(x, y) <==> xs <= x <= xe && ys <= y <= ye),
                forall|x: int, y: int|
                    p.inside(x, y) ==> #[trigger] img@.pixel(x, y) == if region(x, y) && (y < yy
                        || (y == yy && x < xx)) {
                        px
                    } else {
                        p.pixel(x, y)
                    },
            decreases xe + 1 - xx,
        {
            let ghost before = img@;
            img.put_pixel(xx as u32, yy as u32, px);
            proof {
                picture::lemma_with_pixel(before, xx as int, yy as int, px);
                assert(p.inside(xx as int, yy as int));
                assert(region(xx as int, yy as int));
            }
            xx = xx + 1;
        }
        yy = yy + 1;
    }
    proof {
        picture::lemma_is_painted(p, img@, region, px);
    }
}

/// The distance between two numbers.
pub open spec fn distance(a: int, b: int) -> int {
    if a < b {
        b - a
    } else {
        a - b
    }
}

/// `k * d / n` rounded to the nearest integer, halves upward.
pub open spec fn rounded(k: int, d: int, n: int) -> int {
    (2 * (k * d) + n) / (2 * n)
}

/// The number of steps of the line from `(x0, y0)` to `(x1, y1)`: its longer
/// side.
pub open spec fn line_steps(x0: int, y0: int, x1: int, y1: int) -> int {
    larger(distance(x0, x1), distance(y0, y1))
}

/// One coordinate of the line after `k` of `n` steps from `from` to `to`: the
/// nearest pixel to the straight line.
pub open spec fn line_coord(from: int, to: int, n: int, k: int) -> int {
    if n == 0 {
        from
    } else if from < to {
        from + rounded(k, distance(from, to), n)
    } else {
        from - rounded(k, distance(from, to), n)
    }
}

/// `(x, y)` lies in the square that step `k` of the line stamps.
pub open spec fn stamped(
    x0: int,
    y0: int,
    x1: int,
    y1: int,
    t: int,
    k: int,
    x: int,
    y: int,
) -> bool {
    let n = line_steps(x0, y0, x1, y1);
    square(line_coord(x0, x1, n, k), line_coord(y0, y1, n, k), t)(x, y)
}

/// What the first `m` stamps of the line cover.
pub open spec fn line_part(
    x0: int,
    y0: int,
    x1: int,
    y1: int,
    t: int,
    m: int,
) -> spec_fn(int, int) -> bool {
    |x: int, y: int| exists|k: int| 0 <= k < m && #[trigger] stamped(x0, y0, x1, y1, t, k, x, y)
}

/// What a line of thickness `t` covers: the square of side `2 * t + 1` around
/// each of its points, both end points among them.
pub open spec fn thick_line(
    x0: int,
    y0: int,
    x1: int,
    y1: int,
    t: int,
) -> spec_fn(int, int) -> bool {
    line_part(x0, y0, x1, y1, t, line_steps(x0, y0, x1, y1) + 1)
}

proof fn lemma_rounded(k: int, d: int, n: int)
    requires
        n > 0,
    ensures
        2 * (n * rounded(k, d, n)) <= 2 * (k * d) + n < 2 * (n * rounded(k, d, n)) + 2 * n,
{
    let a = 2 * (k * d) + n;
    let q = a / (2 * n);
    vstd::arithmetic::div_mod::lemma_fundamental_div_mod(a, 2 * n);
    vstd::arithmetic::div_mod::lemma_mod_bound(a, 2 * n);
    assert((2 * n) * q == 2 * (n * q)) by (nonlinear_arith);
}

proof fn lemma_rounded_is(k: int, d: int, n: int, r: int)
    requires
        n > 0,
        2 * (n * r) <= 2 * (k * d) + n < 2 * (n * r) + 2 * n,
    ensures
        rounded(k, d, n) == r,
{
    let a = 2 * (k * d) + n;
    assert((2 * n) * r == 2 * (n * r)) by (nonlinear_arith);
    assert((2 * n) * r == r * (2 * n)) by (nonlinear_arith);
    vstd::arithmetic::div_mod::lemma_fundamental_div_mod_converse(a, 2 * n, r, a - (2 * n) * r);
}

/// Along the longer side every step advances by one; the whole way rounds to
/// the whole distance.
proof fn lemma_rounded_ends(k: int, d: int, n: int)
    requires
        n > 0,
    ensures
        rounded(k, n, n) == k,
        rounded(n, d, n) == d,
        rounded(0, d, n) == 0,
{
    assert(k * n == n * k) by (nonlinear_arith);
    lemma_rounded_is(k, n, n, k);
    lemma_rounded_is(n, d, n, d);
    assert(0 * d == 0) by (nonlinear_arith);
    assert(n * 0 == 0) by (nonlinear_arith);
    lemma_rounded_is(0, d, n, 0);
}

/// The shorter side advances exactly when the error term says so.
proof fn lemma_minor_step(k: int, d: int, n: int, r: int)
    requires
        0 <= d <= n,
        0 < n,
        r == rounded(k, d, n),
    ensures
        rounded(k + 1, d, n) == if 2 * (n * (r + 1)) <= 2 * ((k + 1) * d) + n {
            r + 1
        } else {
            r
        },
        2 * (n * (r + 1)) > 2 * (k * d) + d,
{
    lemma_rounded(k, d, n);
    assert((k + 1) * d == k * d + d) by (nonlinear_arith);
    assert(n * (r + 1) == n * r + n) by (nonlinear_arith);
    if 2 * (n * (r + 1)) <= 2 * ((k + 1) * d) + n {
        lemma_rounded_is(k + 1, d, n, r + 1);
    } else {
        lemma_rounded_is(k + 1, d, n, r);
    }
}

/// One step of the walk: the two comparisons of the error term decide which
/// coordinates advance, and the line's next point results.
proof fn lemma_line_step(dx: int, dy: int, k: int, i: int, j: int, err: int)
    requires
        0 <= dx,
        0 <= dy,
        0 <= k < larger(dx, dy),
        i == rounded(k, dx, larger(dx, dy)),
        j == rounded(k, dy, larger(dx, dy)),
        err == dx * (j + 1) - dy * (i + 1),
    ensures
        rounded(k + 1, dx, larger(dx, dy)) == if 2 * err >= -dy {
            i + 1
        } else {
            i
        },
        rounded(k + 1, dy, larger(dx, dy)) == if 2 * err <= dx {
            j + 1
        } else {
            j
        },
{
    let n = larger(dx, dy);
    if dx >= dy {
        lemma_rounded_ends(k, dx, n);
        lemma_rounded_ends(k + 1, dx, n);
        lemma_minor_step(k, dy, n, j);
        assert(dy * (k + 1) == (k + 1) * dy) by (nonlinear_arith);
        assert((k + 1) * dy == k * dy + dy) by (nonlinear_arith);
    } else {
        lemma_rounded_ends(k, dy, n);
        lemma_rounded_ends(k + 1, dy, n);
        lemma_minor_step(k, dx, n, i);
        assert(dx * (k + 1) == (k + 1) * dx) by (nonlinear_arith);
        assert((k + 1) * dx == k * dx + dx) by (nonlinear_arith);
    }
}

/// A line never leaves the box of its end points.
proof fn lemma_rounded_range(k: int, d: int, n: int)
    requires
        0 <= k <= n,
        0 < n,
        0 <= d,
    ensures
        0 <= rounded(k, d, n) <= d,
{
    lemma_rounded(k, d, n);
    let r = rounded(k, d, n);
    assert(0 <= k * d <= n * d) by (nonlinear_arith)
        requires
            0 <= k <= n,
            0 <= d,
    ;
    assert(r < d + 1) by (nonlinear_arith)
        requires
            2 * (n * r) <= 2 * (n * d) + n,
            0 < n,
    ;
    assert(-1 < r) by (nonlinear_arith)
        requires
            0 < 2 * (n * r) + 2 * n,
            0 < n,
    ;
}

/// The error term stays within a few side lengths.
proof fn lemma_line_error(dx: int, dy: int, k: int, i: int, j: int)
    requires
        0 <= dx,
        0 <= dy,
        0 < larger(dx, dy),
        i == rounded(k, dx, larger(dx, dy)),
        j == rounded(k, dy, larger(dx, dy)),
    ensures
        -2 * larger(dx, dy) <= dx * (j + 1) - dy * (i + 1) <= 2 * larger(dx, dy),
{
    let n = larger(dx, dy);
    assert(dx * (j + 1) == dx * j + dx) by (nonlinear_arith);
    assert(dy * (i + 1) == dy * i + dy) by (nonlinear_arith);
    if dx >= dy {
        lemma_rounded_ends(k, dx, n);
        lemma_rounded(k, dy, n);
        assert(dy * i == k * dy) by (nonlinear_arith)
            requires
                i == k,
        ;
    } else {
        lemma_rounded_ends(k, dy, n);
        lemma_rounded(k, dx, n);
        assert(dx * j == k * dx) by (nonlinear_arith)
            requires
                j == k,
        ;
    }
}

/// Thick line: walk from `(x0, y0)` to `(x1, y1)` and stamp a filled square of
/// side `thickness * 2 + 1` at each step, clamped to the image. A single-point
/// line stamps once.
pub fn rasterize_thick_line(
    doc: &mut RgbaImage,
    x0: i32,
    y0: i32,
    x1: i32,
    y1: i32,
    thickness: i32,
    color: Rgba,
)
    requires
        old(doc).wf(),
    ensures
        final(doc).wf(),
        final(doc)@ == old(doc)@.painted(
            thick_line(x0 as int, y0 as int, x1 as int, y1 as int, larger(thickness as int, 0)),
            color,
        ),
{
    let ghost p = doc@;
    let ghost t = larger(thickness as int, 0);
    let ghost n = line_steps(x0 as int, y0 as int, x1 as int, y1 as int);
    let dx: i64 = if x0 < x1 { x1 as i64 - x0 as i64 } else { x0 as i64 - x1 as i64 };
    let dy: i64 = if y0 < y1 { y1 as i64 - y0 as i64 } else { y0 as i64 - y1 as i64 };
    let mut err: i64 = dx - dy;
    let mut x: i32 = x0;
    let mut y: i32 = y0;
    let ghost mut k: int = 0;
    let ghost mut i: int = 0;
    let ghost mut j: int = 0;
    proof {
        doc.lemma_wf();
        if n > 0 {
            lemma_rounded_ends(0, dx as int, n);
            lemma_rounded_ends(0, dy as int, n);
        }
        assert(dx * (0 + 1) - dy * (0 + 1) == dx - dy);
        let nothing = line_part(x0 as int, y0 as int, x1 as int, y1 as int, t, 0);
        picture::lemma_painted_nothing(p, nothing, color);
    }
    loop
        invariant_except_break
            doc@ == p.painted(
                line_part(x0 as int, y0 as int, x1 as int, y1 as int, t, k),
                color,
            ),
        invariant
            p.wf(),
            doc.wf(),
            t == larger(thickness as int, 0),
            n == line_steps(x0 as int, y0 as int, x1 as int, y1 as int),
            dx == distance(x0 as int, x1 as int),
            dy == distance(y0 as int, y1 as int),
            n == larger(dx as int, dy as int),
            n <= 0xffff_ffff,
            0 <= k <= n,
            n > 0 ==> i == rounded(k, dx as int, n) && j == rounded(k, dy as int, n),
            n == 0 ==> i == 0 && j == 0,
            x == if x0 < x1 { x0 + i } else { x0 - i },
            y == if y0 < y1 { y0 + j } else { y0 - j },
            err == dx * (j + 1) - dy * (i + 1),
        ensures
            doc@ == p.painted(
                thick_line(x0 as int, y0 as int, x1 as int, y1 as int, t),
                color,
            ),
        decreases n - k,
    {
        stamp_square(doc, x, y, thickness, color);
        proof {
            let part = line_part(x0 as int, y0 as int, x1 as int, y1 as int, t, k);
            let more = line_part(x0 as int, y0 as int, x1 as int, y1 as int, t, k + 1);
            let here = square(x as int, y as int, t);
            assert forall|a: int, b: int| #[trigger] more(a, b) == (part(a, b) || here(a, b)) by {
                assert(stamped(x0 as int, y0 as int, x1 as int, y1 as int, t, k, a, b) == here(
                    a,
                    b,
                ));
                if part(a, b) {
                    let m = choose|m: int|
                        0 <= m < k && #[trigger] stamped(
                            x0 as int,
                            y0 as int,
                            x1 as int,
                            y1 as int,
                            t,
                            m,
                            a,
                            b,
                        );
                    assert(stamped(x0 as int, y0 as int, x1 as int, y1 as int, t, m, a, b));
                }
            }
            picture::lemma_painted_twice(p, part, here, more, color);
            if n > 0 {
                lemma_rounded_ends(n, dx as int, n);
                lemma_rounded_ends(n, dy as int, n);
                lemma_rounded_ends(k, n, n);
                lemma_line_error(dx as int, dy as int, k, i, j);
            }
        }
        if x == x1 && y == y1 {
            assert(k == n);
            break;
        }
        proof {
            if k == n {
                assert(x == x1 && y == y1);
            }
            lemma_line_step(dx as int, dy as int, k, i, j, err as int);
            lemma_rounded_range(k + 1, dx as int, n);
            lemma_rounded_range(k + 1, dy as int, n);
            assert(dx * (j + 2) == dx * (j + 1) + dx) by (nonlinear_arith);
            assert(dy * (i + 2) == dy * (i + 1) + dy) by (nonlinear_arith);
            lemma_line_error(
                dx as int,
                dy as int,
                k + 1,
                rounded(k + 1, dx as int, n),
                rounded(k + 1, dy as int, n),
            );
        }
        let e2: i64 = 2 * err;
        if e2 >= -dy {
            err = err - dy;
            if x0 < x1 {
                x = x + 1;
            } else {
                x = x - 1;
            }
            proof {
                i = i + 1;
            }
        }
        if e2 <= dx {
            err = err + dx;
            if y0 < y1 {
                y = y + 1;
            } else {
                y = y - 1;
            }
            proof {
                j = j + 1;
            }
        }
        proof {
            k = k + 1;
        }
    }
}

/// The `t`-pixel border of the half-open rect `[rx0, rx1) x [ry0, ry1)`.
pub open spec fn border_ring(
    rx0: int,
    ry0: int,
    rx1: int,
    ry1: int,
    t: int,
) -> spec_fn(int, int) -> bool {
    |x: int, y: int|
        {
            &&& rx0 <= x < rx1
            &&& ry0 <= y < ry1
            &&& (y < ry0 + t || y >= ry1 - t || x < rx0 + t || x >= rx1 - t)
        }
}

/// Fill the `thickness`-pixel border ring of the half-open rect
/// `[rx0, rx1) x [ry0, ry1)` with `color`, clamped to the image.
pub fn fill_border_ring(
    img: &mut RgbaImage,
    rx0: i32,
    ry0: i32,
    rx1: i32,
    ry1: i32,
    thickness: i32,
    color: Rgba,
)
    requires
        old(img).wf(),
    ensures
        final(img).wf(),
        final(img)@ == old(img)@.painted(
            border_ring(
                rx0 as int,
                ry0 as int,
                rx1 as int,
                ry1 as int,
                larger(thickness as int, 0),
            ),
            color,
        ),
{
    proof {
        img.lemma_wf();
    }
    let ghost p = img@;
    let w: i64 = img.width() as i64;
    let h: i64 = img.height() as i64;
    let t: i64 = if thickness < 0 { 0 } else { thickness as i64 };
    let ghost region = border_ring(rx0 as int, ry0 as int, rx1 as int, ry1 as int, t as int);
    if rx1 <= rx0 || ry1 <= ry0 || t == 0 {
        proof {
            picture::lemma_painted_nothing(p, region, color);
        }
        return;
    }
    let y_start: i64 = if ry0 < 0 { 0 } else { ry0 as i64 };
    let y_end: i64 = if (ry1 as i64) < h { ry1 as i64 } else { h };
    let x_start: i64 = if rx0 < 0 { 0 } else { rx0 as i64 };
    let x_end: i64 = if (rx1 as i64) < w { rx1 as i64 } else { w };
    let mut y: i64 = y_start;
    while y < y_end
        invariant
            p.wf(),
            img.wf(),
            img@.wf(),
            img@.same_size(p),
            w == p.width,
            h == p.height,
            w <= u32::MAX,
            h <= u32::MAX,
            0 <= t <= i32::MAX,
            region == border_ring(rx0 as int, ry0 as int, rx1 as int, ry1 as int, t as int),
            y_start == larger(ry0 as int, 0),
            y_end == smaller(ry1 as int, h as int),
            x_start == larger(rx0 as int, 0),
            x_end == smaller(rx1 as int, w as int),
            y_start <= y,
            forall|i: int, j: int|
                p.inside(i, j) ==> #[trigger] img@.pixel(i, j) == if region(i, j) && j < y {
                    color
                } else {
                    p.pixel(i, j)
                },
        decreases y_end - y,
    {
        let in_top = y < ry0 as i64 + t;
        let in_bottom = y >= ry1 as i64 - t;
        let mut x: i64 = x_start;
        while x < x_end
            invariant
                p.wf(),
                img.wf(),
                img@.wf(),
                img@.same_size(p),
                w == p.width,
                h == p.height,
                w <= u32::MAX,
                h <= u32::MAX,
                0 <= t <= i32::MAX,
                region == border_ring(rx0 as int, ry0 as int, rx1 as int, ry1 as int, t as int),
                y_start == larger(ry0 as int, 0),
                y_end == smaller(ry1 as int, h as int),
                x_start == larger(rx0 as int, 0),
                x_end == smaller(rx1 as int, w as int),
                y_start <= y < y_end,
                x_start <= x,
                in_top == (y < ry0 + t),
                in_bottom == (y >= ry1 - t),
                forall|i: int, j: int|
                    p.inside(i, j) ==> #[trigger] img@.pixel(i, j) == if region(i, j) && (j < y || (
                    j == y && i < x)) {
                        color
                    } else {
                        p.pixel(i, j)
                    },
            decreases x_end - x,
        {
            let in_left = x < rx0 as i64 + t;
            let in_right = x >= rx1 as i64 - t;
            if in_top || in_bottom || in_left || in_right {
                let ghost before = img@;
                img.put_pixel(x as u32, y as u32, color);
                proof {
                    picture::lemma_with_pixel(before, x as int, y as int, color);
                }
            }
            x = x + 1;
        }
        y = y + 1;
    }
    proof {
        picture::lemma_is_painted(p, img@, region, color);
    }
}

/// Rasterize a rectangle stroke as a single `color` outline between the
/// corners `(ax, ay)` and `(bx, by)`, at least one pixel wide.
///
/// Corners and width are in physical pixels of the document.
pub fn rasterize_rect(
    doc: &mut RgbaImage,
    ax: i32,
    ay: i32,
    bx: i32,
    by: i32,
    width_px: i32,
    color: Rgba,
)
    requires
        old(doc).wf(),
    ensures
        final(doc).wf(),
        final(doc)@ == old(doc)@.painted(
            border_ring(
                smaller(ax as int, bx as int),
                smaller(ay as int, by as int),
                larger(ax as int, bx as int),
                larger(ay as int, by as int),
                larger(width_px as int, 1),
            ),
            color,
        ),
{
    let rx0: i32 = if ax < bx { ax } else { bx };
    let ry0: i32 = if ay < by { ay } else { by };
    let rx1: i32 = if ax < bx { bx } else { ax };
    let ry1: i32 = if ay < by { by } else { ay };
    let t: i32 = if width_px < 1 { 1 } else { width_px };
    fill_border_ring(doc, rx0, ry0, rx1, ry1, t, color);
}

/// `(x, y)` lies on the thick line between point `m` and the next one.
pub open spec fn on_segment(
    points: Seq<(i32, i32)>,
    t: int,
    m: int,
    x: int,
    y: int,
) -> bool {
    thick_line(
        points[m].0 as int,
        points[m].1 as int,
        points[m + 1].0 as int,
        points[m + 1].1 as int,
        t,
    )(x, y)
}

/// What the first `m` segments of a polyline cover.
pub open spec fn polyline_part(
    points: Seq<(i32, i32)>,
    t: int,
    m: int,
) -> spec_fn(int, int) -> bool {
    |x: int, y: int| exists|s: int| 0 <= s < m && #[trigger] on_segment(points, t, s, x, y)
}

/// What a polyline of thickness `t` covers: nothing without points, one stamp
/// for a single point, else the thick lines between consecutive points.
pub open spec fn polyline(points: Seq<(i32, i32)>, t: int) -> spec_fn(int, int) -> bool {
    if points.len() == 1 {
        square(points[0].0 as int, points[0].1 as int, t)
    } else {
        polyline_part(points, t, points.len() - 1)
    }
}

/// Rasterize a polyline by thick-lining each consecutive pair. A single point
/// stamps once; all stamps are clamped to the image.
pub fn rasterize_polyline(
    doc: &mut RgbaImage,
    points: &Vec<(i32, i32)>,
    thickness: i32,
    color: Rgba,
)
    requires
        old(doc).wf(),
    ensures
        final(doc).wf(),
        final(doc)@ == old(doc)@.painted(polyline(points@, larger(thickness as int, 0)), color),
{
    let ghost p = doc@;
    let ghost t = larger(thickness as int, 0);
    proof {
        doc.lemma_wf();
        picture::lemma_painted_nothing(p, polyline_part(points@, t, 0), color);
        picture::lemma_painted_nothing(p, polyline_part(points@, t, -1), color);
    }
    if points.len() == 0 {
        return;
    }
    if points.len() == 1 {
        let (x, y) = points[0];
        stamp_square(doc, x, y, thickness, color);
        return;
    }
    let last: usize = points.len() - 1;
    let mut m: usize = 0;
    while m < last
        invariant
            p.wf(),
            doc.wf(),
            t == larger(thickness as int, 0),
            last + 1 == points@.len(),
            m <= last,
            doc@ == p.painted(polyline_part(points@, t, m as int), color),
        decreases last - m,
    {
        let (x0, y0) = points[m];
        let (x1, y1) = points[m + 1];
        rasterize_thick_line(doc, x0, y0, x1, y1, thickness, color);
        proof {
            let part = polyline_part(points@, t, m as int);
            let more = polyline_part(points@, t, m + 1);
            let here = thick_line(x0 as int, y0 as int, x1 as int, y1 as int, t);
            assert forall|a: int, b: int| #[trigger] more(a, b) == (part(a, b) || here(a, b)) by {
                assert(on_segment(points@, t, m as int, a, b) == here(a, b));
                if part(a, b) {
                    let s = choose|s: int|
                        0 <= s < m && #[trigger] on_segment(points@, t, s, a, b);
                    assert(on_segment(points@, t, s, a, b));
                }
            }
            picture::lemma_painted_twice(p, part, here, more, color);
        }
        m = m + 1;
    }
}

/// Rasterize a freehand polyline given in physical pixels, at least one pixel
/// thick.
pub fn rasterize_pencil(
    doc: &mut RgbaImage,
    points: &Vec<(i32, i32)>,
    width_px: i32,
    color: Rgba,
)
    requires
        old(doc).wf(),
    ensures
        final(doc).wf(),
        final(doc)@ == old(doc)@.painted(polyline(points@, larger(width_px as int, 1)), color),
{
    let t: i32 = if width_px < 1 { 1 } else { width_px };
    rasterize_polyline(doc, points, t, color);
}

/// The far ends of the two barbs of an arrowhead, in physical pixels.
#[derive(Clone, Copy, Debug, PartialEq, Eq, Structural)]
pub struct Barbs {
    pub ax: i32,
    pub ay: i32,
    pub bx: i32,
    pub by: i32,
}

/// What an arrowhead covers: a thick line from the tip to the end of each
/// barb; nothing when the shaft has no length.
pub open spec fn arrowhead(
    tip_x: int,
    tip_y: int,
    base_x: int,
    base_y: int,
    barbs: Barbs,
    t: int,
) -> spec_fn(int, int) -> bool {
    |x: int, y: int|
        {
            &&& tip_x != base_x || tip_y != base_y
            &&& {
                ||| thick_line(tip_x, tip_y, barbs.ax as int, barbs.ay as int, t)(x, y)
                ||| thick_line(tip_x, tip_y, barbs.bx as int, barbs.by as int, t)(x, y)
            }
        }
}

/// Rasterize an arrowhead at the tip `(tip_x, tip_y)` of a shaft that comes
/// from `(base_x, base_y)`: two thick barbs. A shaft without length has no
/// head.
pub fn rasterize_arrowhead(
    doc: &mut RgbaImage,
    tip_x: i32,
    tip_y: i32,
    base_x: i32,
    base_y: i32,
    barbs: Barbs,
    thickness: i32,
    color: Rgba,
)
    requires
        old(doc).wf(),
    ensures
        final(doc).wf(),
        final(doc)@ == old(doc)@.painted(
            arrowhead(
                tip_x as int,
                tip_y as int,
                base_x as int,
                base_y as int,
                barbs,
                larger(thickness as int, 0),
            ),
            color,
        ),
{
    let ghost p = doc@;
    let ghost t = larger(thickness as int, 0);
    let ghost head = arrowhead(
        tip_x as int,
        tip_y as int,
        base_x as int,
        base_y as int,
        barbs,
        t,
    );
    proof {
        doc.lemma_wf();
    }
    if tip_x == base_x && tip_y == base_y {
        proof {
            picture::lemma_painted_nothing(p, head, color);
        }
        return;
    }
    rasterize_thick_line(doc, tip_x, tip_y, barbs.ax, barbs.ay, thickness, color);
    rasterize_thick_line(doc, tip_x, tip_y, barbs.bx, barbs.by, thickness, color);
    proof {
        let first = thick_line(tip_x as int, tip_y as int, barbs.ax as int, barbs.ay as int, t);
        let second = thick_line(tip_x as int, tip_y as int, barbs.bx as int, barbs.by as int, t);
        picture::lemma_painted_twice(p, first, second, head, color);
    }
}

/// What an arrow covers: its shaft and its head.
pub open spec fn arrow(
    x0: int,
    y0: int,
    x1: int,
    y1: int,
    barbs: Barbs,
    t: int,
) -> spec_fn(int, int) -> bool {
    |x: int, y: int|
        thick_line(x0, y0, x1, y1, t)(x, y) || arrowhead(x1, y1, x0, y0, barbs, t)(x, y)
}

/// Rasterize an arrow from `(x0, y0)` to its tip `(x1, y1)` in one color pass,
/// at least one pixel thick. All coordinates are physical pixels.
pub fn rasterize_arrow(
    doc: &mut RgbaImage,
    x0: i32,
    y0: i32,
    x1: i32,
    y1: i32,
    barbs: Barbs,
    width_px: i32,
    color: Rgba,
)
    requires
        old(doc).wf(),
    ensures
        final(doc).wf(),
        final(doc)@ == old(doc)@.painted(
            arrow(
                x0 as int,
                y0 as int,
                x1 as int,
                y1 as int,
                barbs,
                larger(width_px as int, 1),
            ),
            color,
        ),
{
    let ghost p = doc@;
    let t: i32 = if width_px < 1 { 1 } else { width_px };
    proof {
        doc.lemma_wf();
    }
    rasterize_thick_line(doc, x0, y0, x1, y1, t, color);
    rasterize_arrowhead(doc, x1, y1, x0, y0, barbs, t, color);
    proof {
        let shaft = thick_line(x0 as int, y0 as int, x1 as int, y1 as int, t as int);
        let head = arrowhead(x1 as int, y1 as int, x0 as int, y0 as int, barbs, t as int);
        let both = arrow(x0 as int, y0 as int, x1 as int, y1 as int, barbs, t as int);
        picture::lemma_painted_twice(p, shaft, head, both, color);
    }
}

/// The document position of one glyph sample: the text anchor plus the
/// glyph's offset plus the sample's place in the glyph, if that position is
/// on the document. Off-canvas samples are skipped.
pub fn glyph_target(
    doc: &RgbaImage,
    anchor_x: i32,
    anchor_y: i32,
    min_x: i32,
    min_y: i32,
    gx: u32,
    gy: u32,
) -> (r: Option<(u32, u32)>)
    requires
        doc.wf(),
    ensures
        r is Some <==> doc@.inside(anchor_x + min_x + gx, anchor_y + min_y + gy),
        r matches Some(at) ==> at.0 == anchor_x + min_x + gx && at.1 == anchor_y + min_y + gy,
{
    proof {
        doc.lemma_wf();
    }
    let px: i64 = anchor_x as i64 + min_x as i64 + gx as i64;
    let py: i64 = anchor_y as i64 + min_y as i64 + gy as i64;
    if 0 <= px && 0 <= py && px < doc.width() as i64 && py < doc.height() as i64 {
        Some((px as u32, py as u32))
    } else {
        None
    }
}

/// A thick line covers both of its end points.
pub proof fn law_line_covers_ends(x0: int, y0: int, x1: int, y1: int, t: int)
    requires
        0 <= t,
    ensures
        thick_line(x0, y0, x1, y1, t)(x0, y0),
        thick_line(x0, y0, x1, y1, t)(x1, y1),
{
    let n = line_steps(x0, y0, x1, y1);
    if n > 0 {
        lemma_rounded_ends(0, distance(x0, x1), n);
        lemma_rounded_ends(0, distance(y0, y1), n);
    }
    assert(stamped(x0, y0, x1, y1, t, 0, x0, y0));
    assert(stamped(x0, y0, x1, y1, t, n, x1, y1));
}

/// A thick line stays within `t` pixels of the box that its end points span.
pub proof fn law_line_stays_near(x0: int, y0: int, x1: int, y1: int, t: int, x: int, y: int)
    requires
        thick_line(x0, y0, x1, y1, t)(x, y),
    ensures
        smaller(x0, x1) - t <= x <= larger(x0, x1) + t,
        smaller(y0, y1) - t <= y <= larger(y0, y1) + t,
{
    let n = line_steps(x0, y0, x1, y1);
    let k = choose|k: int| 0 <= k < n + 1 && #[trigger] stamped(x0, y0, x1, y1, t, k, x, y);
    if n > 0 {
        lemma_rounded_range(k, distance(x0, x1), n);
        lemma_rounded_range(k, distance(y0, y1), n);
    }
}

/// A line has no gaps: from one step to the next no coordinate moves by more
/// than one pixel, and one of them moves.
pub proof fn law_line_is_connected(x0: int, y0: int, x1: int, y1: int, k: int)
    requires
        0 <= k < line_steps(x0, y0, x1, y1),
    ensures
        ({
            let n = line_steps(x0, y0, x1, y1);
            let mx = distance(line_coord(x0, x1, n, k), line_coord(x0, x1, n, k + 1));
            let my = distance(line_coord(y0, y1, n, k), line_coord(y0, y1, n, k + 1));
            0 <= mx <= 1 && 0 <= my <= 1 && mx + my >= 1
        }),
{
    let n = line_steps(x0, y0, x1, y1);
    let dx = distance(x0, x1);
    let dy = distance(y0, y1);
    lemma_minor_step(k, dx, n, rounded(k, dx, n));
    lemma_minor_step(k, dy, n, rounded(k, dy, n));
    lemma_rounded_ends(k, n, n);
    lemma_rounded_ends(k + 1, n, n);
}

/// Each point of a line is within half a pixel of the straight line, along
/// either coordinate.
pub proof fn law_line_is_straight(from: int, to: int, n: int, k: int)
    requires
        0 < n,
        0 <= k <= n,
    ensures
        distance(
            2 * (n * distance(from, line_coord(from, to, n, k))),
            2 * (k * distance(from, to)),
        ) <= n,
{
    let d = distance(from, to);
    lemma_rounded(k, d, n);
    lemma_rounded_range(k, d, n);
    assert(distance(from, line_coord(from, to, n, k)) == rounded(k, d, n));
}

/// Drawing a line whose surroundings miss the picture changes nothing.
pub proof fn law_line_off_canvas(
    p: Picture,
    x0: int,
    y0: int,
    x1: int,
    y1: int,
    t: int,
    color: Rgba,
)
    requires
        p.wf(),
        larger(x0, x1) + t < 0 || larger(y0, y1) + t < 0 || smaller(x0, x1) - t >= p.width
            || smaller(y0, y1) - t >= p.height,
    ensures
        p.painted(thick_line(x0, y0, x1, y1, t), color) == p,
{
    assert forall|x: int, y: int| p.inside(x, y) implies !#[trigger] thick_line(
        x0,
        y0,
        x1,
        y1,
        t,
    )(x, y) by {
        if thick_line(x0, y0, x1, y1, t)(x, y) {
            law_line_stays_near(x0, y0, x1, y1, t, x, y);
        }
    }
    picture::lemma_painted_nothing(p, thick_line(x0, y0, x1, y1, t), color);
}

/// A rectangle outline leaves its interior alone, and everything outside.
pub proof fn law_ring_leaves_interior(
    p: Picture,
    rx0: int,
    ry0: int,
    rx1: int,
    ry1: int,
    t: int,
    color: Rgba,
    x: int,
    y: int,
)
    requires
        p.wf(),
        p.inside(x, y),
        (rx0 + t <= x < rx1 - t && ry0 + t <= y < ry1 - t) || x < rx0 || x >= rx1 || y < ry0 || y
            >= ry1,
    ensures
        p.painted(border_ring(rx0, ry0, rx1, ry1, t), color).pixel(x, y) == p.pixel(x, y),
{
    picture::lemma_painted(p, border_ring(rx0, ry0, rx1, ry1, t), color, x, y);
}

/// A rectangle may be dragged from either of two opposite corners.
pub proof fn law_rect_from_either_corner(ax: int, ay: int, bx: int, by: int, t: int)
    ensures
        border_ring(smaller(ax, bx), smaller(ay, by), larger(ax, bx), larger(ay, by), t)
            == border_ring(smaller(bx, ax), smaller(by, ay), larger(bx, ax), larger(by, ay), t),
{
}

/// Of two numbers the larger is no less than either, the smaller no more, and
/// their distance is what lies between.
pub proof fn law_larger_and_smaller(a: int, b: int)
    ensures
        larger(a, b) >= a && larger(a, b) >= b,
        smaller(a, b) <= a && smaller(a, b) <= b,
        larger(a, b) == a || larger(a, b) == b,
        larger(a, b) + smaller(a, b) == a + b,
        distance(a, b) == larger(a, b) - smaller(a, b),
{
}

/// A stamp covers the pixels at most `t` columns and at most `t` rows away, and
/// no others.
pub proof fn law_stamp_reaches_thickness(cx: int, cy: int, t: int, x: int, y: int)
    ensures
        square(cx, cy, t)(x, y) <==> -t <= x - cx <= t && -t <= y - cy <= t,
{
}

/// `(u, v)` is a point of the one-pixel line from `(x0, y0)` to `(x1, y1)`: in
/// the box of the two, and along the shorter side the nearest pixel to the
/// straight line, of two the one further from the start.
pub open spec fn is_line_point(x0: int, y0: int, x1: int, y1: int, u: int, v: int) -> bool {
    let (dx, dy) = (x1 - x0, y1 - y0);
    let (wide, tall) = (if dx < 0 { -dx } else { dx }, if dy < 0 { -dy } else { dy });
    let (i, j) = (if dx < 0 { x0 - u } else { u - x0 }, if dy < 0 { y0 - v } else { v - y0 });
    &&& 0 <= i <= wide
    &&& 0 <= j <= tall
    &&& wide >= tall && wide > 0 ==> -wide <= 2 * (i * tall) - 2 * (j * wide) < wide
    &&& tall > wide ==> -tall <= 2 * (j * wide) - 2 * (i * tall) < tall
}

/// The step of a line that reaches a given point.
proof fn lemma_step_of_point(x0: int, y0: int, x1: int, y1: int, u: int, v: int) -> (k: int)
    requires
        is_line_point(x0, y0, x1, y1, u, v),
    ensures
        0 <= k <= line_steps(x0, y0, x1, y1),
        line_coord(x0, x1, line_steps(x0, y0, x1, y1), k) == u,
        line_coord(y0, y1, line_steps(x0, y0, x1, y1), k) == v,
{
    let n = line_steps(x0, y0, x1, y1);
    let (wide, tall) = (distance(x0, x1), distance(y0, y1));
    let (i, j) = (distance(x0, u), distance(y0, v));
    if n == 0 {
        0
    } else if wide >= tall {
        lemma_rounded_ends(i, wide, n);
        assert(j * wide == n * j) by (nonlinear_arith)
            requires
                wide == n,
        ;
        lemma_rounded_is(i, tall, n, j);
        i
    } else {
        lemma_rounded_ends(j, tall, n);
        assert(i * tall == n * i) by (nonlinear_arith)
            requires
                tall == n,
        ;
        lemma_rounded_is(j, wide, n, i);
        j
    }
}

/// Every step of a line reaches one of its points.
proof fn lemma_point_of_step(x0: int, y0: int, x1: int, y1: int, k: int)
    requires
        0 <= k <= line_steps(x0, y0, x1, y1),
    ensures
        is_line_point(
            x0,
            y0,
            x1,
            y1,
            line_coord(x0, x1, line_steps(x0, y0, x1, y1), k),
            line_coord(y0, y1, line_steps(x0, y0, x1, y1), k),
        ),
{
    let n = line_steps(x0, y0, x1, y1);
    let (wide, tall) = (distance(x0, x1), distance(y0, y1));
    if n > 0 {
        let (i, j) = (rounded(k, wide, n), rounded(k, tall, n));
        lemma_rounded_range(k, wide, n);
        lemma_rounded_range(k, tall, n);
        if wide >= tall {
            lemma_rounded_ends(k, wide, n);
            lemma_rounded(k, tall, n);
            assert(j * wide == n * j) by (nonlinear_arith)
                requires
                    wide == n,
            ;
        } else {
            lemma_rounded_ends(k, tall, n);
            lemma_rounded(k, wide, n);
            assert(i * tall == n * i) by (nonlinear_arith)
                requires
                    tall == n,
            ;
        }
    }
}

/// A thick line covers exactly what is at most `t` columns and `t` rows away
/// from a point of the one-pixel line.
pub proof fn law_line_is_thickened_points(x0: int, y0: int, x1: int, y1: int, t: int, x: int, y: int)
    ensures
        thick_line(x0, y0, x1, y1, t)(x, y) <==> exists|u: int, v: int| #[trigger]
            is_line_point(x0, y0, x1, y1, u, v) && -t <= x - u <= t && -t <= y - v <= t,
{
    let n = line_steps(x0, y0, x1, y1);
    if thick_line(x0, y0, x1, y1, t)(x, y) {
        let k = choose|k: int| 0 <= k < n + 1 && #[trigger] stamped(x0, y0, x1, y1, t, k, x, y);
        lemma_point_of_step(x0, y0, x1, y1, k);
        let (u, v) = (line_coord(x0, x1, n, k), line_coord(y0, y1, n, k));
        assert(is_line_point(x0, y0, x1, y1, u, v));
    }
    if exists|u: int, v: int| #[trigger]
        is_line_point(x0, y0, x1, y1, u, v) && -t <= x - u <= t && -t <= y - v <= t {
        let (u, v) = choose|u: int, v: int| #[trigger]
            is_line_point(x0, y0, x1, y1, u, v) && -t <= x - u <= t && -t <= y - v <= t;
        let k = lemma_step_of_point(x0, y0, x1, y1, u, v);
        assert(stamped(x0, y0, x1, y1, t, k, x, y));
    }
}

/// A line has a point in every column of its box if it is at least as wide as
/// tall, and in every row if it is taller.
pub proof fn law_line_has_no_holes(x0: int, y0: int, x1: int, y1: int, w: int) -> (found: int)
    ensures
        distance(x0, x1) >= distance(y0, y1) && smaller(x0, x1) <= w <= larger(x0, x1)
            ==> is_line_point(x0, y0, x1, y1, w, found),
        distance(x0, x1) < distance(y0, y1) && smaller(y0, y1) <= w <= larger(y0, y1)
            ==> is_line_point(x0, y0, x1, y1, found, w),
{
    let n = line_steps(x0, y0, x1, y1);
    if distance(x0, x1) >= distance(y0, y1) {
        if smaller(x0, x1) <= w <= larger(x0, x1) {
            let k = distance(x0, w);
            lemma_point_of_step(x0, y0, x1, y1, k);
            if n > 0 {
                lemma_rounded_ends(k, n, n);
            }
            line_coord(y0, y1, n, k)
        } else {
            0
        }
    } else if smaller(y0, y1) <= w <= larger(y0, y1) {
        let k = distance(y0, w);
        lemma_point_of_step(x0, y0, x1, y1, k);
        lemma_rounded_ends(k, n, n);
        line_coord(x0, x1, n, k)
    } else {
        0
    }
}

/// An outline covers a position exactly if it lies in the rectangle and fewer
/// than `t` pixels from one of the four edges.
pub proof fn law_ring_hugs_the_edges(rx0: int, ry0: int, rx1: int, ry1: int, t: int, x: int, y: int)
    ensures
        border_ring(rx0, ry0, rx1, ry1, t)(x, y) <==> {
            let (left, right) = (x - rx0, rx1 - 1 - x);
            let (above, below) = (y - ry0, ry1 - 1 - y);
            &&& left >= 0 && right >= 0 && above >= 0 && below >= 0
            &&& left < t || right < t || above < t || below < t
        },
{
}

/// Each pair of consecutive points is joined by a thick line: drawing the
/// polyline gives every position of the picture that such a line covers the
/// stroke's color.
pub proof fn law_polyline_joins_all_points(
    p: Picture,
    points: Seq<(i32, i32)>,
    t: int,
    color: Rgba,
    k: int,
    x: int,
    y: int,
)
    requires
        p.wf(),
        p.inside(x, y),
        0 <= k,
        k + 1 < points.len(),
        thick_line(
            points[k].0 as int,
            points[k].1 as int,
            points[k + 1].0 as int,
            points[k + 1].1 as int,
            t,
        )(x, y),
    ensures
        p.painted(polyline(points, t), color).pixel(x, y) == color,
{
    assert(on_segment(points, t, k, x, y));
    picture::lemma_painted(p, polyline(points, t), color, x, y);
}

/// Drawing a polyline leaves alone what none of its lines covers; without
/// points it changes nothing, and one point is one stamp.
pub proof fn law_polyline_draws_nothing_else(
    p: Picture,
    points: Seq<(i32, i32)>,
    t: int,
    color: Rgba,
    x: int,
    y: int,
)
    requires
        p.wf(),
        p.inside(x, y),
        points.len() == 1 ==> !(-t <= x - points[0].0 <= t && -t <= y - points[0].1 <= t),
        forall|k: int|
            0 <= k && k + 1 < points.len() ==> !(#[trigger] thick_line(
                points[k].0 as int,
                points[k].1 as int,
                points[k + 1].0 as int,
                points[k + 1].1 as int,
                t,
            ))(x, y),
    ensures
        p.painted(polyline(points, t), color).pixel(x, y) == p.pixel(x, y),
{
    picture::lemma_painted(p, polyline(points, t), color, x, y);
    if points.len() != 1 && polyline(points, t)(x, y) {
        let k = choose|k: int|
            0 <= k < points.len() - 1 && #[trigger] on_segment(points, t, k, x, y);
        assert(thick_line(
            points[k].0 as int,
            points[k].1 as int,
            points[k + 1].0 as int,
            points[k + 1].1 as int,
            t,
        )(x, y));
    }
}

/// One point is drawn as one stamp.
pub proof fn law_single_point_is_a_stamp(
    p: Picture,
    point: (i32, i32),
    t: int,
    color: Rgba,
    x: int,
    y: int,
)
    requires
        p.wf(),
        p.inside(x, y),
        -t <= x - point.0 <= t,
        -t <= y - point.1 <= t,
    ensures
        p.painted(polyline(seq![point], t), color).pixel(x, y) == color,
{
    picture::lemma_painted(p, polyline(seq![point], t), color, x, y);
}

/// A stroke may be drawn in two parts that share a point: the whole covers what
/// the parts cover.
pub proof fn law_polyline_is_its_parts(points: Seq<(i32, i32)>, t: int, m: int, x: int, y: int)
    requires
        0 < m,
        m + 1 < points.len(),
    ensures
        polyline(points, t)(x, y) <==> polyline(points.take(m + 1), t)(x, y) || polyline(
            points.skip(m),
            t,
        )(x, y),
{
    let (head, tail) = (points.take(m + 1), points.skip(m));
    if polyline(points, t)(x, y) {
        let k = choose|k: int|
            0 <= k < points.len() - 1 && #[trigger] on_segment(points, t, k, x, y);
        if k < m {
            assert(on_segment(head, t, k, x, y));
        } else {
            assert(on_segment(tail, t, k - m, x, y));
        }
    }
    if polyline(head, t)(x, y) {
        let k = choose|k: int| 0 <= k < head.len() - 1 && #[trigger] on_segment(head, t, k, x, y);
        assert(on_segment(points, t, k, x, y));
    }
    if polyline(tail, t)(x, y) {
        let k = choose|k: int| 0 <= k < tail.len() - 1 && #[trigger] on_segment(tail, t, k, x, y);
        assert(on_segment(points, t, k + m, x, y));
    }
}

/// An arrow has its barbs at the tip: both lines from the tip `(x1, y1)` to the
/// barbs' ends are drawn, and so is the shaft.
pub proof fn law_arrow_has_its_head_at_the_tip(
    p: Picture,
    x0: int,
    y0: int,
    x1: int,
    y1: int,
    barbs: Barbs,
    t: int,
    color: Rgba,
    x: int,
    y: int,
)
    requires
        p.wf(),
        p.inside(x, y),
        x0 != x1 || y0 != y1,
        thick_line(x0, y0, x1, y1, t)(x, y) || thick_line(
            x1,
            y1,
            barbs.ax as int,
            barbs.ay as int,
            t,
        )(x, y) || thick_line(x1, y1, barbs.bx as int, barbs.by as int, t)(x, y),
    ensures
        p.painted(arrow(x0, y0, x1, y1, barbs, t), color).pixel(x, y) == color,
{
    picture::lemma_painted(p, arrow(x0, y0, x1, y1, barbs, t), color, x, y);
}

/// An arrow draws nothing but its shaft and what lies within `t` pixels of the
/// box that the tip `(x1, y1)` spans with the end of one barb; without length
/// it is its shaft alone.
pub proof fn law_arrow_draws_nothing_else(
    p: Picture,
    x0: int,
    y0: int,
    x1: int,
    y1: int,
    barbs: Barbs,
    t: int,
    color: Rgba,
    x: int,
    y: int,
)
    requires
        p.wf(),
        p.inside(x, y),
        !thick_line(x0, y0, x1, y1, t)(x, y),
        (x0 == x1 && y0 == y1) || {
            &&& !(smaller(x1, barbs.ax as int) - t <= x <= larger(x1, barbs.ax as int) + t
                && smaller(y1, barbs.ay as int) - t <= y <= larger(y1, barbs.ay as int) + t)
            &&& !(smaller(x1, barbs.bx as int) - t <= x <= larger(x1, barbs.bx as int) + t
                && smaller(y1, barbs.by as int) - t <= y <= larger(y1, barbs.by as int) + t)
        } || {
            &&& !thick_line(x1, y1, barbs.ax as int, barbs.ay as int, t)(x, y)
            &&& !thick_line(x1, y1, barbs.bx as int, barbs.by as int, t)(x, y)
        },
    ensures
        p.painted(arrow(x0, y0, x1, y1, barbs, t), color).pixel(x, y) == p.pixel(x, y),
{
    picture::lemma_painted(p, arrow(x0, y0, x1, y1, barbs, t), color, x, y);
    if thick_line(x1, y1, barbs.ax as int, barbs.ay as int, t)(x, y) {
        law_line_stays_near(x1, y1, barbs.ax as int, barbs.ay as int, t, x, y);
    }
    if thick_line(x1, y1, barbs.bx as int, barbs.by as int, t)(x, y) {
        law_line_stays_near(x1, y1, barbs.bx as int, barbs.by as int, t, x, y);
    }
}

} // verus!
