//! Images and geometry.

use screenshot_dai::geometry::{bits, exceeds, rank, Pos2, Rect, INFINITY_RANK};
use screenshot_dai::picture::{Rgba, RgbaImage};

#[test]
fn image_starts_transparent() {
    let img = RgbaImage::new(3, 2);
    assert_eq!((img.width(), img.height()), (3, 2));
    assert_eq!(img.as_raw(), &vec![0u8; 24]);
}

#[test]
fn image_needs_four_bytes_per_pixel() {
    assert!(RgbaImage::from_raw(2, 2, vec![0; 15]).is_none());
    assert!(RgbaImage::from_raw(2, 2, vec![0; 17]).is_none());
    assert!(RgbaImage::from_raw(u32::MAX, u32::MAX, vec![0; 4]).is_none());
    let img = RgbaImage::from_raw(2, 1, vec![1, 2, 3, 4, 5, 6, 7, 8]).unwrap();
    assert_eq!(img.get_pixel(1, 0), Rgba { r: 5, g: 6, b: 7, a: 8 });
}

#[test]
fn put_pixel_changes_one_pixel() {
    let mut img = RgbaImage::new(3, 3);
    let c = Rgba { r: 9, g: 8, b: 7, a: 6 };
    img.put_pixel(2, 1, c);
    assert_eq!(img.get_pixel(2, 1), c);
    assert_eq!(img.as_raw().iter().filter(|b| **b != 0).count(), 4);
    assert_eq!(img.as_raw()[20], 9);
    assert_eq!(img.clone(), img);
}

#[test]
fn rect_spans_two_points() {
    let a = Pos2 { x: 5, y: -3 };
    let b = Pos2 { x: -1, y: 8 };
    let r = Rect::from_two_pos(a, b);
    assert_eq!(r, Rect { min: Pos2 { x: -1, y: -3 }, max: Pos2 { x: 5, y: 8 } });
    assert_eq!(r, Rect::from_two_pos(b, a));
    assert!(r.contains(a) && r.contains(b));
    assert!(!r.contains(Pos2 { x: 6, y: 0 }));
    assert!(!r.contains(Pos2 { x: 0, y: 9 }));
}

#[test]
fn ranks_order_like_the_numbers() {
    let numbers = [-1.0e30_f32, -2.5, -2.0, -1.0e-40, 0.0, 1.0e-40, 1.0, 4.0, 4.001, 1.0e30];
    for (i, a) in numbers.iter().enumerate() {
        assert_eq!(f32::from_bits(bits(rank(a.to_bits()))), *a);
        for (j, b) in numbers.iter().enumerate() {
            assert_eq!(rank(a.to_bits()) < rank(b.to_bits()), i < j);
            assert_eq!(a < b, i < j);
        }
    }
    assert_eq!(rank((-0.0_f32).to_bits()), 0);
    assert_eq!(rank(4.0_f32.to_bits()), 0x4080_0000);
}

#[test]
fn what_is_no_number_compares_with_nothing() {
    let numbers = [f32::NEG_INFINITY, -3.0, -0.0, 0.0, 1.0e-40, 2.5, f32::INFINITY];
    let all = [numbers.as_slice(), &[f32::NAN, -f32::NAN, f32::from_bits(0x7f80_0001)]].concat();
    let r = |v: f32| rank(v.to_bits());
    assert_eq!(INFINITY_RANK, r(f32::INFINITY));
    for a in &all {
        for b in &all {
            assert_eq!(exceeds(r(*a), r(*b)), a > b, "{a} {b}");
            for c in &all {
                // A rectangle from `a` to `b`, and whether it holds `c`.
                let rect = Rect::from_two_pos(
                    Pos2 { x: r(*a), y: r(1.0) },
                    Pos2 { x: r(*b), y: r(2.0) },
                );
                let held = a.min(*b) <= *c && *c <= a.max(*b);
                assert_eq!(rect.contains(Pos2 { x: r(*c), y: r(1.5) }), held, "{a} {b} {c}");
                let rect = Rect::from_two_pos(
                    Pos2 { x: r(1.0), y: r(*a) },
                    Pos2 { x: r(2.0), y: r(*b) },
                );
                assert_eq!(rect.contains(Pos2 { x: r(1.5), y: r(*c) }), held, "{a} {b} {c}");
            }
        }
    }
}
