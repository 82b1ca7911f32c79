//! Cropping, blurring and pixelating documents.

use screenshot_dai::imageops::{
    apply_blur_region, apply_mosaic_region, blur_source, crop, drag_region_physical,
};
use screenshot_dai::picture::{Rgba, RgbaImage};

const BLACK: Rgba = Rgba { r: 0, g: 0, b: 0, a: 255 };
const WHITE: Rgba = Rgba { r: 255, g: 255, b: 255, a: 255 };

fn filled(width: u32, height: u32, color: Rgba) -> RgbaImage {
    let mut doc = RgbaImage::new(width, height);
    for y in 0..height {
        for x in 0..width {
            doc.put_pixel(x, y, color);
        }
    }
    doc
}

/// 20x20 black doc with a 2x2 white block at (6,6)-(7,7).
fn block_doc() -> RgbaImage {
    let mut doc = filled(20, 20, BLACK);
    for y in 6..8 {
        for x in 6..8 {
            doc.put_pixel(x, y, WHITE);
        }
    }
    doc
}

/// An image whose pixels tell their position.
fn map_doc(width: u32, height: u32) -> RgbaImage {
    let mut doc = RgbaImage::new(width, height);
    for y in 0..height {
        for x in 0..width {
            doc.put_pixel(x, y, Rgba { r: x as u8, g: y as u8, b: 7, a: 255 });
        }
    }
    doc
}

fn differs_inside(a: &RgbaImage, b: &RgbaImage, x0: u32, y0: u32, x1: u32, y1: u32) -> bool {
    for y in y0..y1 {
        for x in x0..x1 {
            if a.get_pixel(x, y) != b.get_pixel(x, y) {
                return true;
            }
        }
    }
    false
}

fn same_outside(a: &RgbaImage, b: &RgbaImage, x0: u32, y0: u32, x1: u32, y1: u32) -> bool {
    for y in 0..a.height() {
        for x in 0..a.width() {
            let inside = (x0..x1).contains(&x) && (y0..y1).contains(&y);
            if !inside && a.get_pixel(x, y) != b.get_pixel(x, y) {
                return false;
            }
        }
    }
    true
}

/// Blur a region: take its pixels, blur them, put them back.
fn blur(doc: &RgbaImage, x0: i32, y0: i32, x1: i32, y1: i32, sigma: f32) -> RgbaImage {
    match blur_source(doc, x0, y0, x1, y1) {
        Some(part) => {
            let raw = part.as_raw().clone();
            let sub = image::RgbaImage::from_raw(part.width(), part.height(), raw).unwrap();
            let soft = image::imageops::blur(&sub, sigma);
            let (w, h) = (soft.width(), soft.height());
            let soft = RgbaImage::from_raw(w, h, soft.into_raw()).unwrap();
            apply_blur_region(doc, x0, y0, x1, y1, &soft)
        }
        None => apply_blur_region(doc, x0, y0, x1, y1, &RgbaImage::new(0, 0)),
    }
}

#[test]
fn blur_changes_region_only() {
    let doc = block_doc();
    let out = blur(&doc, 2, 2, 12, 12, 2.0);
    assert!(differs_inside(&doc, &out, 2, 2, 12, 12), "region should change");
    assert!(same_outside(&doc, &out, 2, 2, 12, 12), "outside must be unchanged");
    // The block's core (6,6) was pure white; blur softens it toward gray.
    assert_ne!(out.get_pixel(6, 6), doc.get_pixel(6, 6));
    // An outside pixel is untouched black.
    assert_eq!(out.get_pixel(0, 0), doc.get_pixel(0, 0));
}

#[test]
fn blur_degenerate_region_is_noop() {
    let doc = block_doc();
    assert_eq!(blur(&doc, 5, 5, 5, 10, 2.0), doc);
    assert_eq!(blur(&doc, 5, 5, 10, 5, 2.0), doc);
}

#[test]
fn blur_off_canvas_region_is_noop() {
    let doc = block_doc();
    assert_eq!(blur(&doc, 100, 100, 110, 110, 2.0), doc);
}

#[test]
fn blur_inverted_corners_still_works() {
    let doc = block_doc();
    // Corners are not swapped: an inverted region is degenerate.
    assert_eq!(blur(&doc, 11, 11, 2, 2, 2.0), doc);
}

#[test]
fn mosaic_changes_region_only() {
    let mut doc = filled(20, 20, BLACK);
    // Inside region [4,4,16,16): a checkerboard of black and white.
    for y in 4..16 {
        for x in 4..16 {
            let c = if (x + y) % 2 == 0 { 255 } else { 0 };
            doc.put_pixel(x, y, Rgba { r: c, g: c, b: c, a: 255 });
        }
    }
    let out = apply_mosaic_region(&doc, 4, 4, 16, 16, 4);
    assert!(differs_inside(&doc, &out, 4, 4, 16, 16), "region should change");
    assert!(same_outside(&doc, &out, 4, 4, 16, 16), "outside must be unchanged");
    // A black checker pixel inside the region must have changed.
    assert_ne!(out.get_pixel(5, 4), doc.get_pixel(5, 4));
}

#[test]
fn mosaic_produces_uniform_blocks() {
    let mut doc = filled(20, 8, BLACK);
    // Left half white, right half black.
    for y in 0..8 {
        for x in 0..10 {
            doc.put_pixel(x, y, WHITE);
        }
    }
    let out = apply_mosaic_region(&doc, 0, 0, 20, 8, 4);
    let p0 = out.get_pixel(0, 0);
    for x in 0..4 {
        for y in 0..8 {
            assert_eq!(out.get_pixel(x, y), p0, "block pixel ({x},{y}) differs");
        }
    }
}

#[test]
fn mosaic_degenerate_region_is_noop() {
    let doc = block_doc();
    assert_eq!(apply_mosaic_region(&doc, 5, 5, 5, 10, 4), doc);
    assert_eq!(apply_mosaic_region(&doc, 5, 5, 10, 5, 4), doc);
}

#[test]
fn mosaic_off_canvas_region_is_noop() {
    let doc = block_doc();
    assert_eq!(apply_mosaic_region(&doc, 100, 100, 110, 110, 4), doc);
}

#[test]
fn drag_region_physical_clamps_and_detects_degenerate() {
    // 20x20 doc, scale 1. A clean 5x5 box at origin maps to (0,0,5,5).
    assert_eq!(drag_region_physical(0, 0, 5, 5, 20, 20), Some((0, 0, 5, 5)));
    // Dragged mostly off the bottom-right: clamps to the doc edge.
    assert_eq!(drag_region_physical(18, 18, 40, 40, 20, 20), Some((18, 18, 20, 20)));
    // Fully off-canvas: degenerate.
    assert_eq!(drag_region_physical(30, 30, 40, 40, 20, 20), None);
    // Off-canvas origin but the drag re-enters the doc.
    assert_eq!(drag_region_physical(-5, -5, 5, 5, 20, 20), Some((0, 0, 5, 5)));
}

#[test]
fn drag_region_of_one_pixel_does_not_count() {
    assert_eq!(drag_region_physical(3, 3, 4, 9, 20, 20), None);
    assert_eq!(drag_region_physical(3, 3, 5, 5, 20, 20), Some((3, 3, 5, 5)));
    assert_eq!(drag_region_physical(5, 5, 3, 3, 20, 20), Some((3, 3, 5, 5)));
    assert_eq!(drag_region_physical(i32::MIN, i32::MIN, i32::MAX, i32::MAX, 4, 4), Some((0, 0, 4, 4)));
}

#[test]
fn crop_keeps_the_pixels_of_the_part() {
    let full = map_doc(10, 8);
    let part = crop(&full, 3, 2, 4, 5).unwrap();
    assert_eq!((part.width(), part.height()), (4, 5));
    for y in 0..5 {
        for x in 0..4 {
            assert_eq!(part.get_pixel(x, y), full.get_pixel(x + 3, y + 2));
        }
    }
}

#[test]
fn crop_is_cut_at_the_edges() {
    let full = map_doc(10, 8);
    // What lies left of or above the image is cut.
    let part = crop(&full, -3, -2, 4, 5).unwrap();
    assert_eq!((part.width(), part.height()), (1, 3));
    assert_eq!(part.get_pixel(0, 0), full.get_pixel(0, 0));
    assert_eq!(part.get_pixel(0, 2), full.get_pixel(0, 2));
    let wide = crop(&map_doc(100, 100), -10, 0, 20, 10).unwrap();
    assert_eq!((wide.width(), wide.height()), (10, 10));
    // The far side is cut.
    let part = crop(&full, 8, 6, 100, 100).unwrap();
    assert_eq!((part.width(), part.height()), (2, 2));
    // A crop has at least one pixel.
    let part = crop(&full, 9, 7, 0, -5).unwrap();
    assert_eq!((part.width(), part.height()), (1, 1));
    assert_eq!(part.get_pixel(0, 0), full.get_pixel(9, 7));
    // Beyond the image there is nothing to crop.
    assert!(crop(&full, 10, 0, 1, 1).is_none());
    assert!(crop(&full, 0, 8, 1, 1).is_none());
    assert!(crop(&full, -4, 0, 4, 5).is_none());
    assert!(crop(&full, 0, -1, 4, 0).is_none());
    assert!(crop(&full, -1, -1, 2, 2).is_some());
    assert!(crop(&full, i32::MIN, 0, i32::MAX, 5).is_none());
    let all = crop(&full, -5, -5, i32::MAX, i32::MAX).unwrap();
    assert_eq!(all, full);
    assert!(crop(&RgbaImage::new(0, 0), 0, 0, 1, 1).is_none());
}

#[test]
fn blur_source_is_the_clamped_region() {
    let doc = map_doc(10, 8);
    let part = blur_source(&doc, -2, 6, 3, 50).unwrap();
    assert_eq!((part.width(), part.height()), (3, 2));
    assert_eq!(part.get_pixel(2, 1), doc.get_pixel(2, 7));
    assert!(blur_source(&doc, 3, 3, 3, 5).is_none());
}

#[test]
fn blurred_pixels_land_on_the_region() {
    let doc = map_doc(10, 8);
    let soft = filled(3, 2, WHITE);
    let out = apply_blur_region(&doc, -2, 6, 3, 50, &soft);
    assert!(same_outside(&doc, &out, 0, 6, 3, 8));
    for y in 6..8 {
        for x in 0..3 {
            assert_eq!(out.get_pixel(x, y), WHITE);
        }
    }
}

#[test]
fn nothing_outside_bleeds_into_a_blur() {
    let a = block_doc();
    let mut b = block_doc();
    for y in 0..20 {
        for x in 0..20 {
            if !((2..12).contains(&x) && (2..12).contains(&y)) {
                b.put_pixel(x, y, Rgba { r: 9 * x as u8, g: 200, b: 7, a: 90 });
            }
        }
    }
    let (before_a, before_b) = (a.clone(), b.clone());
    assert_eq!(blur_source(&a, 2, 2, 12, 12), blur_source(&b, 2, 2, 12, 12));
    let out_a = blur(&a, 2, 2, 12, 12, 3.0);
    let out_b = blur(&b, 2, 2, 12, 12, 3.0);
    assert!(!differs_inside(&out_a, &out_b, 2, 2, 12, 12));
    assert!(same_outside(&b, &out_b, 2, 2, 12, 12));
    assert_eq!((out_b.width(), out_b.height()), (20, 20));
    assert_eq!((a, b), (before_a, before_b));
}

#[test]
fn mosaic_blocks_take_colors_of_the_region() {
    let doc = map_doc(12, 12);
    let out = apply_mosaic_region(&doc, 2, 2, 10, 10, 4);
    assert!(same_outside(&doc, &out, 2, 2, 10, 10));
    let mut colors: Vec<Rgba> = Vec::new();
    for y in 2..10 {
        for x in 2..10 {
            let c = out.get_pixel(x, y);
            assert!((2..10).contains(&c.r) && (2..10).contains(&c.g));
            if !colors.contains(&c) {
                colors.push(c);
            }
            // Each block of four by four is solid.
            assert_eq!(c, out.get_pixel(2 + (x - 2) / 4 * 4, 2 + (y - 2) / 4 * 4));
        }
    }
    assert_eq!(colors.len(), 4);
}

#[test]
fn mosaic_with_large_or_zero_blocks() {
    let doc = map_doc(6, 6);
    // One block for everything.
    let out = apply_mosaic_region(&doc, 0, 0, 6, 6, 100);
    for y in 0..6 {
        for x in 0..6 {
            assert_eq!(out.get_pixel(x, y), out.get_pixel(0, 0));
        }
    }
    // Blocks of zero or one pixel change nothing.
    assert_eq!(apply_mosaic_region(&doc, 0, 0, 6, 6, 0), doc);
    assert_eq!(apply_mosaic_region(&doc, 0, 0, 6, 6, 1), doc);
}

#[test]
fn full_blocks_show_their_middle() {
    for (block, blocks) in [(2u32, 5u32), (3, 4), (4, 3), (7, 2)] {
        let side = block * blocks;
        let doc = map_doc(side + 3, side + 5);
        let out = apply_mosaic_region(&doc, 1, 2, 1 + side as i32, 2 + side as i32, block);
        for y in 0..side {
            for x in 0..side {
                let u = 1 + x / block * block + block / 2;
                let v = 2 + y / block * block + block / 2;
                assert_eq!(out.get_pixel(1 + x, 2 + y), doc.get_pixel(u, v));
            }
        }
    }
}

#[test]
fn mosaic_shows_no_more_colors_than_blocks() {
    for (w, h, block) in [(17u32, 11u32, 4u32), (5, 9, 7), (13, 13, 2), (6, 4, 1)] {
        let doc = map_doc(20, 20);
        let out = apply_mosaic_region(&doc, 3, 3, 3 + w as i32, 3 + h as i32, block);
        let mut colors: Vec<Rgba> = Vec::new();
        for y in 3..3 + h {
            for x in 3..3 + w {
                if !colors.contains(&out.get_pixel(x, y)) {
                    colors.push(out.get_pixel(x, y));
                }
            }
        }
        assert!(colors.len() as u32 <= (w / block).max(1) * (h / block).max(1));
    }
}

#[test]
fn full_blocks_show_their_middle_on_long_sides() {
    for (width, block) in [(994u32, 7u32), (100_000, 10), (1_048_572, 3), (1_048_576, 2)] {
        let mut doc = RgbaImage::new(width, block);
        for x in 0..width {
            doc.put_pixel(x, 0, Rgba { r: x as u8, g: (x >> 8) as u8, b: (x >> 16) as u8, a: 255 });
            for y in 1..block {
                doc.put_pixel(x, y, doc.get_pixel(x, 0));
            }
        }
        let out = apply_mosaic_region(&doc, 0, 0, width as i32, block as i32, block);
        for x in 0..width {
            let middle = doc.get_pixel(x / block * block + block / 2, 0);
            assert_eq!(out.get_pixel(x, block - 1), middle, "{x}");
        }
    }
}
