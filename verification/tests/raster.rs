//! Drawing on documents.

use screenshot_dai::picture::{Rgba, RgbaImage};
use screenshot_dai::raster::{
    fill_border_ring, glyph_target, rasterize_arrow, rasterize_arrowhead, rasterize_pencil,
    rasterize_polyline, rasterize_rect, rasterize_thick_line, stamp_square, Barbs,
};

const WHITE: Rgba = Rgba { r: 255, g: 255, b: 255, a: 255 };
const RED: Rgba = Rgba { r: 220, g: 0, b: 0, a: 255 };
const CLEAR: Rgba = Rgba { r: 0, g: 0, b: 0, a: 0 };

fn filled(width: u32, height: u32, color: Rgba) -> RgbaImage {
    let mut doc = RgbaImage::new(width, height);
    for y in 0..height {
        for x in 0..width {
            doc.put_pixel(x, y, color);
        }
    }
    doc
}

fn painted_count(doc: &RgbaImage, color: Rgba) -> usize {
    let mut count = 0;
    for y in 0..doc.height() {
        for x in 0..doc.width() {
            if doc.get_pixel(x, y) == color {
                count += 1;
            }
        }
    }
    count
}

/// The barb ends of an arrowhead of twelve logical pixels, thirty degrees off
/// the shaft.
fn barbs_of(tip: (i32, i32), base: (i32, i32), scale: f32) -> Barbs {
    let dx = (base.0 - tip.0) as f32;
    let dy = (base.1 - tip.1) as f32;
    let len = (dx * dx + dy * dy).sqrt();
    let (ux, uy) = (dx / len, dy / len);
    let head = (12.0_f32 * scale).min(len).max(1.0);
    let cos = 30.0_f32.to_radians().cos();
    let sin = 30.0_f32.to_radians().sin();
    let end = |sign: f32| {
        (
            (tip.0 as f32 + head * (cos * ux + sign * sin * -uy)).round() as i32,
            (tip.1 as f32 + head * (cos * uy + sign * sin * ux)).round() as i32,
        )
    };
    let (ax, ay) = end(-1.0);
    let (bx, by) = end(1.0);
    Barbs { ax, ay, bx, by }
}

#[test]
fn rasterize_rect_draws_single_color_outline() {
    // 12x8 doc, rect covering the whole doc, scale 1, width 2: a 2px red ring;
    // the interior mid-gray stays untouched.
    let gray = Rgba { r: 128, g: 128, b: 128, a: 255 };
    let mut doc = filled(12, 8, gray);
    rasterize_rect(&mut doc, 0, 0, 12, 8, 2, RED);
    assert_eq!(doc.get_pixel(0, 0), RED);
    assert_eq!(doc.get_pixel(1, 1), RED);
    assert_eq!(doc.get_pixel(11, 7), RED);
    assert_eq!(doc.get_pixel(6, 4), gray);
}

#[test]
fn fill_border_ring_clamps_to_image_bounds_without_panicking() {
    let mut doc = RgbaImage::new(4, 4);
    let before = doc.clone();
    // The border ring lies entirely off the image.
    fill_border_ring(&mut doc, -5, -5, 20, 20, 2, WHITE);
    assert_eq!(doc, before);

    // A partially off-image rect draws only the part of its ring that lies on
    // the image: the right and bottom edges.
    let mut doc = RgbaImage::new(4, 4);
    fill_border_ring(&mut doc, -2, -2, 4, 4, 2, WHITE);
    for y in 0..4 {
        for x in 0..4 {
            let expected = if x >= 2 || y >= 2 { WHITE } else { CLEAR };
            assert_eq!(doc.get_pixel(x, y), expected, "at ({x},{y})");
        }
    }
}

#[test]
fn fill_border_ring_noop_for_degenerate_rect() {
    let mut doc = RgbaImage::new(4, 4);
    let before = doc.clone();
    fill_border_ring(&mut doc, 1, 1, 1, 3, 2, WHITE); // zero width
    assert_eq!(doc, before);
    let mut doc = RgbaImage::new(4, 4);
    let before = doc.clone();
    fill_border_ring(&mut doc, 0, 0, 4, 4, 0, WHITE); // zero thickness
    assert_eq!(doc, before);
}

#[test]
fn thick_line_horizontal() {
    let mut doc = RgbaImage::new(20, 10);
    rasterize_thick_line(&mut doc, 2, 5, 8, 5, 1, WHITE);
    // Along the line, thickness 1: y in 4..=6 stamped.
    assert_eq!(doc.get_pixel(5, 5), WHITE);
    assert_eq!(doc.get_pixel(5, 4), WHITE);
    assert_eq!(doc.get_pixel(5, 6), WHITE);
    assert_eq!(doc.get_pixel(0, 0), CLEAR);
}

#[test]
fn thick_line_vertical_thickness_zero() {
    let mut doc = RgbaImage::new(10, 20);
    rasterize_thick_line(&mut doc, 5, 2, 5, 8, 0, WHITE);
    assert_eq!(doc.get_pixel(5, 5), WHITE);
    // Thickness 0: a single-pixel stamp, neighbors untouched.
    assert_eq!(doc.get_pixel(4, 5), CLEAR);
    assert_eq!(doc.get_pixel(6, 5), CLEAR);
}

#[test]
fn thick_line_diagonal_endpoints() {
    let mut doc = RgbaImage::new(10, 10);
    rasterize_thick_line(&mut doc, 0, 0, 9, 9, 0, WHITE);
    assert_eq!(doc.get_pixel(0, 0), WHITE);
    assert_eq!(doc.get_pixel(9, 9), WHITE);
    assert_eq!(doc.get_pixel(5, 5), WHITE);
}

#[test]
fn thick_line_thickness_gt_one() {
    let mut doc = RgbaImage::new(20, 10);
    rasterize_thick_line(&mut doc, 5, 5, 15, 5, 2, WHITE);
    // Thickness 2: y in 3..=7 stamped along the line.
    assert_eq!(doc.get_pixel(10, 3), WHITE);
    assert_eq!(doc.get_pixel(10, 7), WHITE);
    assert_eq!(doc.get_pixel(10, 2), CLEAR);
}

#[test]
fn thick_line_fully_off_canvas_no_panic() {
    let mut doc = RgbaImage::new(10, 10);
    let before = doc.clone();
    rasterize_thick_line(&mut doc, -50, -50, -40, -40, 3, WHITE);
    assert_eq!(doc, before);
}

#[test]
fn thick_line_single_point_stamps_once() {
    let mut doc = RgbaImage::new(10, 10);
    rasterize_thick_line(&mut doc, 5, 5, 5, 5, 1, WHITE);
    // Thickness 1: a 3x3 stamp centered on (5,5).
    assert_eq!(doc.get_pixel(5, 5), WHITE);
    assert_eq!(doc.get_pixel(4, 4), WHITE);
    assert_eq!(doc.get_pixel(6, 6), WHITE);
    assert_eq!(doc.get_pixel(7, 7), CLEAR);
}

#[test]
fn polyline_multi_segment() {
    let mut doc = RgbaImage::new(20, 20);
    let pts = vec![(2, 2), (2, 10), (10, 10)];
    rasterize_polyline(&mut doc, &pts, 0, WHITE);
    assert_eq!(doc.get_pixel(2, 6), WHITE);
    assert_eq!(doc.get_pixel(6, 10), WHITE);
}

#[test]
fn polyline_clamps_off_canvas_without_panic() {
    let mut doc = RgbaImage::new(5, 5);
    let pts = vec![(-10, -10), (20, 20)];
    rasterize_polyline(&mut doc, &pts, 1, WHITE);
    // The diagonal passes through (0,0); thickness 1 stamps it.
    assert_eq!(doc.get_pixel(0, 0), WHITE);
}

#[test]
fn arrow_rasterizes_without_panic_and_writes_pixels() {
    let mut doc = RgbaImage::new(40, 20);
    let barbs = barbs_of((30, 10), (0, 0), 1.0);
    rasterize_arrow(&mut doc, 0, 0, 30, 10, barbs, 2, RED);
    // The tip region near (30,10) has some red pixels.
    let mut found_red = false;
    for y in 7..14 {
        for x in 27..34 {
            if doc.get_pixel(x as u32, y as u32) == RED {
                found_red = true;
            }
        }
    }
    assert!(found_red, "expected red pixels near the arrow tip");
}

#[test]
fn stamp_is_a_square_of_odd_side() {
    let mut doc = RgbaImage::new(9, 9);
    stamp_square(&mut doc, 4, 4, 2, WHITE);
    assert_eq!(painted_count(&doc, WHITE), 25);
    assert_eq!(doc.get_pixel(2, 2), WHITE);
    assert_eq!(doc.get_pixel(1, 2), CLEAR);
    // A negative thickness stamps one pixel.
    let mut doc = RgbaImage::new(9, 9);
    stamp_square(&mut doc, 4, 4, -3, WHITE);
    assert_eq!(painted_count(&doc, WHITE), 1);
}

#[test]
fn stamp_at_extreme_coordinates_is_cut() {
    let mut doc = RgbaImage::new(3, 3);
    stamp_square(&mut doc, i32::MAX, i32::MIN, i32::MAX, WHITE);
    let corner = painted_count(&doc, WHITE);
    assert_eq!(corner, 0);
    stamp_square(&mut doc, 0, 0, i32::MAX, WHITE);
    assert_eq!(painted_count(&doc, WHITE), 9);
}

#[test]
fn line_covers_its_ends_and_stays_in_their_box() {
    let mut doc = RgbaImage::new(12, 12);
    rasterize_thick_line(&mut doc, 1, 2, 10, 6, 0, WHITE);
    assert_eq!(doc.get_pixel(1, 2), WHITE);
    assert_eq!(doc.get_pixel(10, 6), WHITE);
    // One pixel per column: ten steps along the longer side.
    assert_eq!(painted_count(&doc, WHITE), 10);
    for y in 0..12 {
        for x in 0..12 {
            if doc.get_pixel(x, y) == WHITE {
                assert!((1..=10).contains(&x) && (2..=6).contains(&y));
            }
        }
    }
}

#[test]
fn line_steps_are_connected() {
    let mut doc = RgbaImage::new(20, 20);
    rasterize_thick_line(&mut doc, 2, 17, 15, 3, 0, WHITE);
    let mut rows: Vec<u32> = Vec::new();
    for y in 3..=17 {
        let xs: Vec<u32> = (0..20).filter(|x| doc.get_pixel(*x, y) == WHITE).collect();
        assert_eq!(xs.len(), 1, "row {y}");
        rows.push(xs[0]);
    }
    for pair in rows.windows(2) {
        assert!(pair[0].abs_diff(pair[1]) <= 1);
    }
}

#[test]
fn rect_is_the_same_from_either_corner() {
    let mut a = RgbaImage::new(16, 16);
    rasterize_rect(&mut a, 3, 12, 11, 4, 2, RED);
    let mut b = RgbaImage::new(16, 16);
    rasterize_rect(&mut b, 11, 4, 3, 12, 2, RED);
    assert_eq!(a, b);
    // The interior of the ring is left alone.
    assert_eq!(a.get_pixel(7, 8), CLEAR);
    // An 8x8 box with a ring of two leaves a 4x4 interior.
    assert_eq!(painted_count(&a, RED), 48);
}

#[test]
fn rect_width_is_at_least_one() {
    let mut doc = RgbaImage::new(8, 8);
    rasterize_rect(&mut doc, 1, 1, 7, 7, 0, RED);
    assert_eq!(painted_count(&doc, RED), 20);
}

#[test]
fn polyline_of_nothing_and_of_one_point() {
    let mut doc = RgbaImage::new(5, 5);
    rasterize_polyline(&mut doc, &vec![], 1, WHITE);
    assert_eq!(painted_count(&doc, WHITE), 0);
    rasterize_polyline(&mut doc, &vec![(2, 2)], 1, WHITE);
    assert_eq!(painted_count(&doc, WHITE), 9);
}

#[test]
fn pencil_is_at_least_one_wide() {
    let mut a = RgbaImage::new(9, 9);
    rasterize_pencil(&mut a, &vec![(4, 4)], 0, WHITE);
    let mut b = RgbaImage::new(9, 9);
    rasterize_polyline(&mut b, &vec![(4, 4)], 1, WHITE);
    assert_eq!(a, b);
}

#[test]
fn arrowhead_without_a_shaft_is_nothing() {
    let mut doc = RgbaImage::new(9, 9);
    let barbs = Barbs { ax: 0, ay: 0, bx: 8, by: 8 };
    rasterize_arrowhead(&mut doc, 4, 4, 4, 4, barbs, 1, WHITE);
    assert_eq!(painted_count(&doc, WHITE), 0);
    rasterize_arrowhead(&mut doc, 4, 4, 0, 4, barbs, 0, WHITE);
    assert_eq!(painted_count(&doc, WHITE), 9);
}

#[test]
fn glyph_pixels_off_the_document_have_no_target() {
    let doc = RgbaImage::new(30, 40);
    assert_eq!(glyph_target(&doc, 24, 4, -1, 2, 3, 5), Some((26, 11)));
    assert_eq!(glyph_target(&doc, 24, 4, 3, 0, 3, 0), None);
    assert_eq!(glyph_target(&doc, -500, -500, 0, 0, 10, 10), None);
    assert_eq!(glyph_target(&doc, i32::MAX, 0, i32::MAX, 0, u32::MAX, 0), None);
}
