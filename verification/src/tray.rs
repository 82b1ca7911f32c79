//! The tray icon, drawn in code.

use crate::picture;
use crate::picture::Rgba;
use crate::ui::theme;
use vstd::prelude::*;

verus! {

/// Side of the icon in pixels.
pub const ICON_SIDE: u32 = 32;

/// Distance to the nearer of the two edges of the icon.
pub open spec fn inset(v: int) -> int {
    if v < ICON_SIDE - 1 - v {
        v
    } else {
        ICON_SIDE - 1 - v
    }
}

/// The pixel lies in the rounded square: four pixels away from every edge,
/// with corners rounded to a radius of six.
pub open spec fn in_square(x: int, y: int) -> bool {
    let dx = inset(x) - 4;
    let dy = inset(y) - 4;
    &&& dx >= 0
    &&& dy >= 0
    &&& dx >= 6 || dy >= 6 || (6 - dx) * (6 - dx) + (6 - dy) * (6 - dy) <= 36
}

/// The pixel lies on one of the corner marks: angles with arms of six pixels
/// and a thickness of two, eight pixels away from the edges.
pub open spec fn on_mark(x: int, y: int) -> bool {
    let dx = inset(x) - 8;
    let dy = inset(y) - 8;
    ||| 0 <= dx < 6 && 0 <= dy < 2
    ||| 0 <= dx < 2 && 0 <= dy < 6
}

/// The icon's pixels: an accent-blue rounded square with white corner marks.
pub open spec fn icon_pixel(x: int, y: int) -> Rgba {
    if on_mark(x, y) {
        theme::opaque(255, 255, 255)
    } else if in_square(x, y) {
        theme::opaque(0x26, 0x8b, 0xd2)
    } else {
        Rgba { r: 0, g: 0, b: 0, a: 0 }
    }
}

/// Distance to the nearer of the two edges of the icon.
fn edge_distance(v: u32) -> (r: i32)
    requires
        v < ICON_SIDE,
    ensures
        r == inset(v as int),
{
    if v < ICON_SIDE - 1 - v {
        v as i32
    } else {
        (ICON_SIDE - 1 - v) as i32
    }
}

/// The icon's pixel at `(x, y)`.
fn draw_pixel(x: u32, y: u32) -> (r: Rgba)
    requires
        x < ICON_SIDE,
        y < ICON_SIDE,
    ensures
        r == icon_pixel(x as int, y as int),
{
    let u: i32 = edge_distance(x);
    let v: i32 = edge_distance(y);
    let (mx, my): (i32, i32) = (u - 8, v - 8);
    if (0 <= mx && mx < 6 && 0 <= my && my < 2) || (0 <= mx && mx < 2 && 0 <= my && my < 6) {
        return theme::from_rgb(255, 255, 255);
    }
    let (dx, dy): (i32, i32) = (u - 4, v - 4);
    if dx < 0 || dy < 0 {
        return Rgba { r: 0, g: 0, b: 0, a: 0 };
    }
    if dx < 6 && dy < 6 {
        proof {
            assert((6 - dx) * (6 - dx) <= 36) by (nonlinear_arith)
                requires
                    0 <= dx < 6,
            ;
            assert((6 - dy) * (6 - dy) <= 36) by (nonlinear_arith)
                requires
                    0 <= dy < 6,
            ;
            assert((6 - dx) * (6 - dx) >= 0) by (nonlinear_arith);
            assert((6 - dy) * (6 - dy) >= 0) by (nonlinear_arith);
        }
        if (6 - dx) * (6 - dx) + (6 - dy) * (6 - dy) > 36 {
            return Rgba { r: 0, g: 0, b: 0, a: 0 };
        }
    }
    theme::from_rgb(0x26, 0x8b, 0xd2)
}

/// The icon as raw RGBA bytes, row by row.
pub fn tray_icon_rgba() -> (r: Vec<u8>)
    ensures
        r@.len() == 4 * (ICON_SIDE * ICON_SIDE),
        forall|x: int, y: int|
            0 <= x < ICON_SIDE && 0 <= y < ICON_SIDE ==> picture::raw_pixel(
                r@,
                y * ICON_SIDE + x,
            ) == #[trigger] icon_pixel(x, y),
{
    let mut rgba: Vec<u8> = Vec::new();
    let mut i: u32 = 0;
    while i < ICON_SIDE * ICON_SIDE
        invariant
            i <= ICON_SIDE * ICON_SIDE,
            rgba@.len() == 4 * i,
            forall|k: int|
                0 <= k < i ==> #[trigger] picture::raw_pixel(rgba@, k) == icon_pixel(
                    k % (ICON_SIDE as int),
                    k / (ICON_SIDE as int),
                ),
        decreases ICON_SIDE * ICON_SIDE - i,
    {
        let c = draw_pixel(i % ICON_SIDE, i / ICON_SIDE);
        let ghost before = rgba@;
        rgba.push(c.r);
        rgba.push(c.g);
        rgba.push(c.b);
        rgba.push(c.a);
        assert forall|k: int| 0 <= k < i + 1 implies #[trigger] picture::raw_pixel(rgba@, k)
            == icon_pixel(k % (ICON_SIDE as int), k / (ICON_SIDE as int)) by {
            if k < i {
                assert(picture::raw_pixel(rgba@, k) == picture::raw_pixel(before, k));
            }
        }
        i = i + 1;
    }
    assert forall|x: int, y: int|
        0 <= x < ICON_SIDE && 0 <= y < ICON_SIDE implies picture::raw_pixel(
        rgba@,
        y * ICON_SIDE + x,
    ) == #[trigger] icon_pixel(x, y) by {
        let k = y * ICON_SIDE + x;
        assert(k % 32 == x && k / 32 == y);
        assert(picture::raw_pixel(rgba@, k) == icon_pixel(k % 32, k / 32));
    }
    rgba
}

/// The icon looks the same mirrored, either way.
pub proof fn law_icon_is_symmetric(x: int, y: int)
    ensures
        icon_pixel(ICON_SIDE - 1 - x, y) == icon_pixel(x, y),
        icon_pixel(x, ICON_SIDE - 1 - y) == icon_pixel(x, y),
        icon_pixel(y, x) == icon_pixel(x, y),
{
}

/// The marks lie within the square.
pub proof fn law_marks_lie_in_square(x: int, y: int)
    requires
        on_mark(x, y),
    ensures
        in_square(x, y),
{
    let dx = inset(x) - 4;
    let dy = inset(y) - 4;
    if dx < 6 && dy < 6 {
        assert((6 - dx) * (6 - dx) + (6 - dy) * (6 - dy) <= 36) by (nonlinear_arith)
            requires
                4 <= dx < 6,
                4 <= dy < 6,
        ;
    }
}

/// The icon has a clear margin of four pixels on every side and rounded
/// corners, and is opaque in between.
pub proof fn law_icon_has_a_clear_margin(x: int, y: int)
    requires
        0 <= x < 32,
        0 <= y < 32,
    ensures
        x < 4 || x > 27 || y < 4 || y > 27 ==> icon_pixel(x, y).a == 0,
        (x == 4 || x == 27) && (y == 4 || y == 27) ==> icon_pixel(x, y).a == 0,
        10 <= x <= 21 && 4 <= y <= 27 ==> icon_pixel(x, y).a == 255,
        4 <= x <= 27 && 10 <= y <= 21 ==> icon_pixel(x, y).a == 255,
        6 <= x <= 25 && 6 <= y <= 25 ==> icon_pixel(x, y).a == 255,
{
    assert((6 - 0) * (6 - 0) + (6 - 0) * (6 - 0) > 36) by (nonlinear_arith);
    if (x == 4 || x == 27) && (y == 4 || y == 27) {
        assert(inset(x) - 4 == 0 && inset(y) - 4 == 0);
        assert(!in_square(x, y));
    }
    if 6 <= x <= 25 && 6 <= y <= 25 {
        let dx = inset(x) - 4;
        let dy = inset(y) - 4;
        if dx < 6 && dy < 6 {
            assert((6 - dx) * (6 - dx) + (6 - dy) * (6 - dy) <= 36) by (nonlinear_arith)
                requires
                    2 <= dx < 6,
                    2 <= dy < 6,
            ;
        }
    }
}

/// Where a pixel of the icon is opaque, so is every pixel that lies no nearer
/// to the edges: the square has no holes.
pub proof fn law_icon_has_no_holes(x: int, y: int, u: int, v: int)
    requires
        0 <= x <= u <= 31 - x,
        0 <= y <= v <= 31 - y,
        icon_pixel(x, y).a == 255,
    ensures
        icon_pixel(u, v).a == 255,
{
    let (dx, dy) = (inset(x) - 4, inset(y) - 4);
    let (du, dv) = (inset(u) - 4, inset(v) - 4);
    if on_mark(x, y) {
        law_marks_lie_in_square(x, y);
    }
    if du < 6 && dv < 6 {
        assert((6 - du) * (6 - du) <= (6 - dx) * (6 - dx)) by (nonlinear_arith)
            requires
                0 <= dx <= du < 6,
        ;
        assert((6 - dv) * (6 - dv) <= (6 - dy) * (6 - dy)) by (nonlinear_arith)
            requires
                0 <= dy <= dv < 6,
        ;
    }
}

/// White are the corner marks and nothing else: eight pixels away from the
/// edges, six pixels long and two thick; all else of the square is blue.
pub proof fn law_icon_has_white_corner_marks(x: int, y: int)
    requires
        0 <= x < 16,
        0 <= y < 16,
    ensures
        icon_pixel(x, y) == (Rgba { r: 255, g: 255, b: 255, a: 255 }) <==> {
            ||| 8 <= x < 14 && 8 <= y < 10
            ||| 8 <= x < 10 && 8 <= y < 14
        },
        icon_pixel(x, y).a == 0 || icon_pixel(x, y) == (Rgba { r: 255, g: 255, b: 255, a: 255 })
            || icon_pixel(x, y) == (Rgba { r: 0x26, g: 0x8b, b: 0xd2, a: 255 }),
{
}

} // verus!
