//! Cropping, pixelating and blurring regions of a document.

use crate::picture;
use crate::picture::{Picture, Rgba, RgbaImage};
use crate::raster;
use vstd::prelude::*;

verus! {

/// Copy a part out of an image with `image::imageops::crop_imm` and
/// `SubImage::to_image`.
///
/// Claimed: for a part that lies inside the image, the copy has the part's
/// sides and its pixels.
#[verifier::external_body]
fn crop_imm(img: &RgbaImage, x: u32, y: u32, width: u32, height: u32) -> (r: RgbaImage)
    requires
        img.wf(),
        x + width <= img@.width,
        y + height <= img@.height,
    ensures
        r.wf(),
        r@ == img@.cropped(x as int, y as int, width as nat, height as nat),
{
    let raw = img.as_raw().clone();
    let full = image::RgbaImage::from_raw(img.width(), img.height(), raw).unwrap();
    let part = image::imageops::crop_imm(&full, x, y, width, height).to_image();
    RgbaImage::from_raw(part.width(), part.height(), part.into_raw()).unwrap()
}

/// Write an image over another with `image::imageops::replace`.
///
/// Claimed: every position of `bottom` that `top`, placed at `(x, y)`, covers
/// takes `top`'s pixel; every other position keeps its own.
#[verifier::external_body]
pub(crate) fn replace(bottom: &mut RgbaImage, top: &RgbaImage, x: i64, y: i64)
    requires
        old(bottom).wf(),
        top.wf(),
    ensures
        final(bottom).wf(),
        final(bottom)@ == old(bottom)@.replaced(top@, x as int, y as int),
{
    let (w, h) = (bottom.width(), bottom.height());
    let mut out = image::RgbaImage::from_raw(w, h, bottom.as_raw().clone()).unwrap();
    let over = image::ImageBuffer::<image::Rgba<u8>, &[u8]>::from_raw(
        top.width(),
        top.height(),
        top.as_raw().as_slice(),
    ).unwrap();
    image::imageops::replace(&mut out, &over, x, y);
    *bottom = RgbaImage::from_raw(w, h, out.into_raw()).unwrap();
}

/// The source index that `image::imageops::resize` with
/// `FilterType::Nearest` samples for index `out` of a side that goes from
/// `from` to `to` pixels.
pub uninterp spec fn nearest_source(out: int, from: int, to: int) -> int;

/// A side grows by a whole factor, to at most a million pixels or so: far
/// enough from where single precision would blur two neighboring indices.
pub open spec fn grows_evenly(from: int, to: int) -> bool {
    0 < from && to % from == 0 && to <= 0x10_0000
}

/// A side shrinks by a whole factor, from at most a million pixels or so.
pub open spec fn shrinks_evenly(from: int, to: int) -> bool {
    0 < to && from % to == 0 && from <= 0x10_0000
}

/// The middle index of run `k` of `n` indices, the later of two.
pub open spec fn middle_of_run(k: int, n: int) -> int {
    k * n + n / 2
}

/// Resize an image with `image::imageops::resize` and `FilterType::Nearest`.
///
/// Claimed: an image that already has the wanted sides comes back as it is;
/// else each pixel of the result is one pixel of the source, whose column
/// depends on the result's column and the two widths alone, and whose row
/// depends on the result's row and the two heights alone. A side that grows by
/// a whole factor repeats each of its indices that many times; one that shrinks
/// by a whole factor keeps the middle one of each run of that many, the later
/// of two. Which index any other side samples, a matter of rounding, is left
/// unsaid.
#[verifier::external_body]
fn resize_nearest(img: &RgbaImage, width: u32, height: u32) -> (r: RgbaImage)
    requires
        img.wf(),
        0 < img@.width,
        0 < img@.height,
        4 * (width * height) <= picture::byte_limit(),
        4 * (img@.width * height) <= picture::byte_limit(),
    ensures
        r.wf(),
        r@.width == width,
        r@.height == height,
        img@.width == width && img@.height == height ==> r@ == img@,
        img@.width != width || img@.height != height ==> forall|x: int, y: int|
            r@.inside(x, y) ==> {
                &&& 0 <= nearest_source(x, img@.width as int, width as int) < img@.width
                &&& 0 <= nearest_source(y, img@.height as int, height as int) < img@.height
                &&& #[trigger] r@.pixel(x, y) == img@.pixel(
                    nearest_source(x, img@.width as int, width as int),
                    nearest_source(y, img@.height as int, height as int),
                )
                &&& grows_evenly(img@.width as int, width as int) ==> nearest_source(
                    x,
                    img@.width as int,
                    width as int,
                ) == x / (width as int / img@.width as int)
                &&& grows_evenly(img@.height as int, height as int) ==> nearest_source(
                    y,
                    img@.height as int,
                    height as int,
                ) == y / (height as int / img@.height as int)
                &&& shrinks_evenly(img@.width as int, width as int) ==> nearest_source(
                    x,
                    img@.width as int,
                    width as int,
                ) == middle_of_run(x, img@.width as int / width as int)
                &&& shrinks_evenly(img@.height as int, height as int) ==> nearest_source(
                    y,
                    img@.height as int,
                    height as int,
                ) == middle_of_run(y, img@.height as int / height as int)
            },
{
    let src = image::ImageBuffer::<image::Rgba<u8>, &[u8]>::from_raw(
        img.width(),
        img.height(),
        img.as_raw().as_slice(),
    ).unwrap();
    let out = image::imageops::resize(&src, width, height, image::imageops::FilterType::Nearest);
    RgbaImage::from_raw(out.width(), out.height(), out.into_raw()).unwrap()
}

/// `v` moved into `[0, limit]`.
pub open spec fn clamped(v: int, limit: int) -> int {
    if v < 0 {
        0
    } else if v > limit {
        limit
    } else {
        v
    }
}

/// `v` moved into `[0, limit]`.
fn clamp_to(v: i64, limit: u32) -> (r: u32)
    ensures
        r == clamped(v as int, limit as int),
{
    if v < 0 {
        0
    } else if v > limit as i64 {
        limit
    } else {
        v as u32
    }
}

/// The pixels of `full` that a selection with physical corner `(x, y)` and
/// physical sides `w` and `h`, each at least one, covers.
pub open spec fn crop_of(full: Picture, x: int, y: int, w: int, h: int) -> Picture {
    let x0 = clamped(x, full.width as int);
    let x1 = clamped(x + raster::larger(w, 1), full.width as int);
    let y0 = clamped(y, full.height as int);
    let y1 = clamped(y + raster::larger(h, 1), full.height as int);
    full.cropped(x0, y0, (x1 - x0) as nat, (y1 - y0) as nat)
}

/// The selection lies beside the image and covers none of its pixels.
pub open spec fn crop_is_empty(full: Picture, x: int, y: int, w: int, h: int) -> bool {
    ||| clamped(x + raster::larger(w, 1), full.width as int) <= clamped(x, full.width as int)
    ||| clamped(y + raster::larger(h, 1), full.height as int) <= clamped(y, full.height as int)
}

/// Crop the full image to a selection given in physical pixels. `None` if the
/// selection covers none of the image.
pub fn crop(full: &RgbaImage, x: i32, y: i32, w: i32, h: i32) -> (r: Option<RgbaImage>)
    requires
        full.wf(),
    ensures
        r is None <==> crop_is_empty(full@, x as int, y as int, w as int, h as int),
        r matches Some(part) ==> part.wf() && part@ == crop_of(
            full@,
            x as int,
            y as int,
            w as int,
            h as int,
        ),
{
    let cw: i64 = if w < 1 { 1 } else { w as i64 };
    let ch: i64 = if h < 1 { 1 } else { h as i64 };
    let x0: u32 = clamp_to(x as i64, full.width());
    let x1: u32 = clamp_to(x as i64 + cw, full.width());
    let y0: u32 = clamp_to(y as i64, full.height());
    let y1: u32 = clamp_to(y as i64 + ch, full.height());
    if x1 <= x0 || y1 <= y0 {
        None
    } else {
        Some(crop_imm(full, x0, y0, x1 - x0, y1 - y0))
    }
}

/// Map a drag between two physical corners to the region of a
/// `doc_w` by `doc_h` document that it covers, half-open, as
/// `(x0, y0, x1, y1)`. `None` if at most one pixel wide or tall remains.
pub fn drag_region_physical(
    ax: i32,
    ay: i32,
    bx: i32,
    by: i32,
    doc_w: i32,
    doc_h: i32,
) -> (r: Option<(i32, i32, i32, i32)>)
    ensures
        ({
            let x0 = raster::larger(raster::smaller(ax as int, bx as int), 0);
            let x1 = raster::smaller(raster::larger(ax as int, bx as int), doc_w as int);
            let y0 = raster::larger(raster::smaller(ay as int, by as int), 0);
            let y1 = raster::smaller(raster::larger(ay as int, by as int), doc_h as int);
            &&& r is Some <==> x1 - x0 > 1 && y1 - y0 > 1
            &&& r matches Some(q) ==> q.0 == x0 && q.1 == y0 && q.2 == x1 && q.3 == y1
        }),
        r matches Some(q) ==> forall|x: int, y: int| #[trigger]
            in_region(q.0 as int, q.1 as int, q.2 as int, q.3 as int, x, y) <==> {
                &&& 0 <= x < doc_w && 0 <= y < doc_h
                &&& ax <= x < bx || bx <= x < ax
                &&& ay <= y < by || by <= y < ay
            },
{
    let left: i32 = if ax < bx { ax } else { bx };
    let right: i32 = if ax < bx { bx } else { ax };
    let top: i32 = if ay < by { ay } else { by };
    let bottom: i32 = if ay < by { by } else { ay };
    let x0: i32 = if left < 0 { 0 } else { left };
    let x1: i32 = if right < doc_w { right } else { doc_w };
    let y0: i32 = if top < 0 { 0 } else { top };
    let y1: i32 = if bottom < doc_h { bottom } else { doc_h };
    if x1 as i64 <= x0 as i64 + 1 || y1 as i64 <= y0 as i64 + 1 {
        None
    } else {
        Some((x0, y0, x1, y1))
    }
}

/// `(x, y)` lies in the half-open region `[x0, x1) x [y0, y1)`.
pub open spec fn in_region(x0: int, y0: int, x1: int, y1: int, x: int, y: int) -> bool {
    x0 <= x < x1 && y0 <= y < y1
}

/// The sides of the part of a picture that a region covers.
pub open spec fn region_width(p: Picture, x0: int, x1: int) -> int {
    clamped(x1, p.width as int) - clamped(x0, p.width as int)
}

/// See [`region_width`].
pub open spec fn region_height(p: Picture, y0: int, y1: int) -> int {
    clamped(y1, p.height as int) - clamped(y0, p.height as int)
}

/// Nothing of the region is left on the picture.
pub open spec fn region_is_empty(p: Picture, x0: int, y0: int, x1: int, y1: int) -> bool {
    region_width(p, x0, x1) <= 0 || region_height(p, y0, y1) <= 0
}

/// The part of a picture that a region covers.
pub open spec fn region_part(p: Picture, x0: int, y0: int, x1: int, y1: int) -> Picture {
    p.cropped(
        clamped(x0, p.width as int),
        clamped(y0, p.height as int),
        region_width(p, x0, x1) as nat,
        region_height(p, y0, y1) as nat,
    )
}

/// The picture with the part that a region covers replaced.
pub open spec fn region_replaced(
    p: Picture,
    x0: int,
    y0: int,
    x1: int,
    y1: int,
    part: Picture,
) -> Picture {
    if region_is_empty(p, x0, y0, x1, y1) {
        p
    } else {
        p.replaced(part, clamped(x0, p.width as int), clamped(y0, p.height as int))
    }
}

/// The pixels of a region, for blurring: `None` where nothing of the region
/// is left on the document.
pub fn blur_source(doc: &RgbaImage, x0: i32, y0: i32, x1: i32, y1: i32) -> (r: Option<RgbaImage>)
    requires
        doc.wf(),
    ensures
        r is None <==> region_is_empty(doc@, x0 as int, y0 as int, x1 as int, y1 as int),
        r matches Some(part) ==> part.wf() && part@ == region_part(
            doc@,
            x0 as int,
            y0 as int,
            x1 as int,
            y1 as int,
        ),
{
    let (w, h) = (doc.width(), doc.height());
    let cx0: u32 = clamp_to(x0 as i64, w);
    let cx1: u32 = clamp_to(x1 as i64, w);
    let cy0: u32 = clamp_to(y0 as i64, h);
    let cy1: u32 = clamp_to(y1 as i64, h);
    if cx1 <= cx0 || cy1 <= cy0 {
        None
    } else {
        Some(crop_imm(doc, cx0, cy0, cx1 - cx0, cy1 - cy0))
    }
}

/// Put the blurred pixels of a region back into the document. A region of
/// which nothing is left on the document changes nothing.
pub fn apply_blur_region(
    doc: &RgbaImage,
    x0: i32,
    y0: i32,
    x1: i32,
    y1: i32,
    blurred: &RgbaImage,
) -> (r: RgbaImage)
    requires
        doc.wf(),
        blurred.wf(),
        region_is_empty(doc@, x0 as int, y0 as int, x1 as int, y1 as int) || blurred@.same_size(
            region_part(doc@, x0 as int, y0 as int, x1 as int, y1 as int),
        ),
    ensures
        r.wf(),
        r@ == region_replaced(doc@, x0 as int, y0 as int, x1 as int, y1 as int, blurred@),
{
    let (w, h) = (doc.width(), doc.height());
    let cx0: u32 = clamp_to(x0 as i64, w);
    let cx1: u32 = clamp_to(x1 as i64, w);
    let cy0: u32 = clamp_to(y0 as i64, h);
    let cy1: u32 = clamp_to(y1 as i64, h);
    let mut nd = doc.clone();
    if cx1 <= cx0 || cy1 <= cy0 {
        return nd;
    }
    replace(&mut nd, blurred, cx0 as i64, cy0 as i64);
    nd
}

/// A picture resized by nearest-pixel sampling.
pub open spec fn resized(p: Picture, width: nat, height: nat) -> Picture {
    if p.width == width && p.height == height {
        p
    } else {
        Picture {
            width,
            height,
            pixels: Seq::new(
                width * height,
                |i: int|
                    p.pixel(
                        nearest_source(i % (width as int), p.width as int, width as int),
                        nearest_source(i / (width as int), p.height as int, height as int),
                    ),
            ),
        }
    }
}

/// The number of mosaic blocks along a side, at least one.
pub open spec fn block_count(side: int, block: int) -> nat {
    raster::larger(side / raster::larger(block, 1), 1) as nat
}

/// A picture reduced to one sample per block and blown up again.
pub open spec fn pixelated(p: Picture, block: int) -> Picture {
    resized(
        resized(p, block_count(p.width as int, block), block_count(p.height as int, block)),
        p.width,
        p.height,
    )
}

/// [`resize_nearest`], stated as one picture.
fn resize(img: &RgbaImage, width: u32, height: u32) -> (r: RgbaImage)
    requires
        img.wf(),
        0 < img@.width,
        0 < img@.height,
        4 * (width * height) <= picture::byte_limit(),
        4 * (img@.width * height) <= picture::byte_limit(),
    ensures
        r.wf(),
        r@ == resized(img@, width as nat, height as nat),
        forall|x: int, y: int| r@.inside(x, y) ==> img@.has(#[trigger] r@.pixel(x, y)),
        grows_evenly(img@.width as int, width as int) && grows_evenly(
            img@.height as int,
            height as int,
        ) ==> forall|x: int, y: int|
            r@.inside(x, y) ==> #[trigger] r@.pixel(x, y) == img@.pixel(
                x / (width as int / img@.width as int),
                y / (height as int / img@.height as int),
            ),
        shrinks_evenly(img@.width as int, width as int) && shrinks_evenly(
            img@.height as int,
            height as int,
        ) ==> forall|x: int, y: int|
            r@.inside(x, y) ==> #[trigger] r@.pixel(x, y) == img@.pixel(
                middle_of_run(x, img@.width as int / width as int),
                middle_of_run(y, img@.height as int / height as int),
            ),
{
    let r = resize_nearest(img, width, height);
    proof {
        r.lemma_wf();
        let q = resized(img@, width as nat, height as nat);
        if img@.width != width || img@.height != height {
            assert forall|x: int, y: int| r@.inside(x, y) implies #[trigger] r@.pixel(x, y)
                == q.pixel(x, y) by {
                picture::lemma_index(width as int, height as int, x, y);
            }
            picture::lemma_same_pixels(r@, q);
        } else {
            vstd::arithmetic::div_mod::lemma_div_by_self(width as int);
            vstd::arithmetic::div_mod::lemma_div_by_self(height as int);
        }
        assert forall|x: int, y: int| r@.inside(x, y) implies img@.has(
            #[trigger] r@.pixel(x, y),
        ) by {
            if img@.width == width && img@.height == height {
                assert(img@.inside(x, y));
                assert(img@.pixel(x, y) == r@.pixel(x, y));
            } else {
                let u = nearest_source(x, img@.width as int, width as int);
                let v = nearest_source(y, img@.height as int, height as int);
                assert(img@.pixel(u, v) == r@.pixel(x, y));
                assert(img@.inside(u, v));
            }
        }
        let (fw, fh) = (img@.width as int, img@.height as int);
        let (tw, th) = (width as int, height as int);
        if grows_evenly(fw, tw) && grows_evenly(fh, th) {
            assert forall|x: int, y: int| r@.inside(x, y) implies #[trigger] r@.pixel(x, y)
                == img@.pixel(x / (tw / fw), y / (th / fh)) by {
                if fw == tw && fh == th {
                    assert(x / 1 == x && y / 1 == y);
                }
            }
        }
        if shrinks_evenly(fw, tw) && shrinks_evenly(fh, th) {
            assert forall|x: int, y: int| r@.inside(x, y) implies #[trigger] r@.pixel(x, y)
                == img@.pixel(middle_of_run(x, fw / tw), middle_of_run(y, fh / th)) by {
                if fw == tw && fh == th {
                    assert(middle_of_run(x, 1) == x && middle_of_run(y, 1) == y);
                }
            }
        }
    }
    r
}

/// The blocks fill a side without a rest, and the side has at most a million
/// pixels or so.
pub open spec fn blocks_fit(side: int, block: int) -> bool {
    0 < block && side % block == 0 && side <= 0x10_0000
}

/// The first index of the block that `v` lies in, of blocks that start at
/// `from`.
pub open spec fn block_start(v: int, from: int, block: int) -> int {
    from + (v - from) / block * block
}

/// One sample per block of the region.
pub open spec fn block_samples(
    p: Picture,
    x0: int,
    y0: int,
    x1: int,
    y1: int,
    block: int,
) -> Picture {
    resized(
        region_part(p, x0, y0, x1, y1),
        block_count(region_width(p, x0, x1), block),
        block_count(region_height(p, y0, y1), block),
    )
}

/// The colors that a region of a picture shows.
pub open spec fn region_colors(p: Picture, x0: int, y0: int, x1: int, y1: int) -> Set<Rgba> {
    Set::new(
        |c: Rgba|
            exists|x: int, y: int|
                p.inside(x, y) && in_region(x0, y0, x1, y1, x, y) && #[trigger] p.pixel(x, y) == c,
    )
}

/// A region whose colors all come from another picture shows no more colors
/// than that picture has pixels.
proof fn lemma_few_colors(p: Picture, x0: int, y0: int, x1: int, y1: int, samples: Picture)
    requires
        samples.wf(),
        forall|x: int, y: int|
            p.inside(x, y) && in_region(x0, y0, x1, y1, x, y) ==> samples.has(
                #[trigger] p.pixel(x, y),
            ),
    ensures
        region_colors(p, x0, y0, x1, y1).finite(),
        region_colors(p, x0, y0, x1, y1).len() <= samples.width * samples.height,
{
    let shown = region_colors(p, x0, y0, x1, y1);
    let offered = samples.pixels.to_set();
    assert forall|c: Rgba| shown.contains(c) implies offered.contains(c) by {
        let (x, y) = choose|x: int, y: int|
            p.inside(x, y) && in_region(x0, y0, x1, y1, x, y) && #[trigger] p.pixel(x, y) == c;
        assert(samples.has(p.pixel(x, y)));
        let (u, v) = choose|u: int, v: int|
            samples.inside(u, v) && #[trigger] samples.pixel(u, v) == c;
        picture::lemma_index(samples.width as int, samples.height as int, u, v);
        assert(samples.pixels[v * samples.width + u] == c);
    }
    vstd::seq_lib::seq_to_set_is_finite(samples.pixels);
    samples.pixels.lemma_cardinality_of_set();
    vstd::set_lib::lemma_len_subset(shown, offered);
}

/// Blocks that fill a side are what the side's reduction is blown up by.
proof fn lemma_blocks_fit(side: int, block: int)
    requires
        0 < side,
        blocks_fit(side, block),
    ensures
        block_count(side, block) == side / block,
        grows_evenly(block_count(side, block) as int, side),
        shrinks_evenly(side, block_count(side, block) as int),
        side / (block_count(side, block) as int) == block,
{
    let n = side / block;
    vstd::arithmetic::div_mod::lemma_fundamental_div_mod(side, block);
    assert(n >= 1) by (nonlinear_arith)
        requires
            0 < side,
            side == block * n,
            0 < block,
    ;
    assert(side == block * n + 0);
    vstd::arithmetic::div_mod::lemma_fundamental_div_mod_converse(side, n, block, 0);
}

/// The middle of the block that a position lies in is on the side.
proof fn lemma_block_middle(v: int, side: int, block: int)
    requires
        0 <= v < side,
        blocks_fit(side, block),
    ensures
        0 <= v / block < side / block,
        0 <= middle_of_run(v / block, block) < side,
{
    let k = v / block;
    let n = side / block;
    vstd::arithmetic::div_mod::lemma_fundamental_div_mod(v, block);
    vstd::arithmetic::div_mod::lemma_mod_bound(v, block);
    vstd::arithmetic::div_mod::lemma_fundamental_div_mod(side, block);
    vstd::arithmetic::div_mod::lemma_div_pos_is_pos(v, block);
    assert(k < n) by (nonlinear_arith)
        requires
            block * k <= v,
            v < side,
            side == block * n,
            0 < block,
    ;
    assert(k * block + block <= n * block && 0 <= k * block && n * block == side) by (nonlinear_arith)
        requires
            0 <= k < n,
            0 < block,
            side == block * n,
    ;
}

/// Reduce an image to one sample per block and blow it up again.
fn pixelate(img: &RgbaImage, block: u32) -> (r: RgbaImage)
    requires
        img.wf(),
        0 < img@.width,
        0 < img@.height,
    ensures
        r.wf(),
        r@ == pixelated(img@, block as int),
        ({
            let samples = resized(
                img@,
                block_count(img@.width as int, block as int),
                block_count(img@.height as int, block as int),
            );
            &&& samples.wf()
            &&& forall|x: int, y: int|
                r@.inside(x, y) ==> samples.has(#[trigger] r@.pixel(x, y))
            &&& forall|x: int, y: int| r@.inside(x, y) ==> img@.has(#[trigger] r@.pixel(x, y))
        }),
        blocks_fit(img@.width as int, block as int) && blocks_fit(img@.height as int, block as int)
            ==> forall|x: int, y: int|
            r@.inside(x, y) ==> #[trigger] r@.pixel(x, y) == img@.pixel(
                middle_of_run(x / block as int, block as int),
                middle_of_run(y / block as int, block as int),
            ),
{
    let (w, h) = (img.width(), img.height());
    let side: u32 = if block < 1 { 1 } else { block };
    let new_w: u32 = if w / side < 1 { 1 } else { w / side };
    let new_h: u32 = if h / side < 1 { 1 } else { h / side };
    proof {
        img.lemma_wf();
        assert(1 <= new_w <= w) by (nonlinear_arith)
            requires
                1 <= w,
                1 <= side,
                new_w == if w / side < 1 { 1 } else { w / side },
        ;
        assert(1 <= new_h <= h) by (nonlinear_arith)
            requires
                1 <= h,
                1 <= side,
                new_h == if h / side < 1 { 1 } else { h / side },
        ;
        assert(w * new_h <= w * h && new_w * h <= w * h && new_w * new_h <= w * h)
            by (nonlinear_arith)
            requires
                1 <= new_w <= w,
                1 <= new_h <= h,
        ;
    }
    let small = resize(img, new_w, new_h);
    let big = resize(&small, w, h);
    proof {
        small.lemma_wf();
        assert forall|x: int, y: int| big@.inside(x, y) implies img@.has(
            #[trigger] big@.pixel(x, y),
        ) by {
            let c = big@.pixel(x, y);
            assert(small@.has(c));
            let (u, v) = choose|u: int, v: int|
                small@.inside(u, v) && #[trigger] small@.pixel(u, v) == c;
            assert(img@.has(small@.pixel(u, v)));
        }
        if blocks_fit(w as int, block as int) && blocks_fit(h as int, block as int) {
            let b = block as int;
            lemma_blocks_fit(w as int, b);
            lemma_blocks_fit(h as int, b);
            assert forall|x: int, y: int| big@.inside(x, y) implies #[trigger] big@.pixel(x, y)
                == img@.pixel(middle_of_run(x / b, b), middle_of_run(y / b, b)) by {
                lemma_block_middle(x, w as int, b);
                lemma_block_middle(y, h as int, b);
                assert(big@.pixel(x, y) == small@.pixel(x / b, y / b));
                assert(small@.inside(x / b, y / b));
            }
        }
    }
    big
}

/// Pixelate the region `[x0, x1) x [y0, y1)` of `doc` in `block`-pixel blocks.
/// A region of which nothing is left on the document changes nothing.
pub fn apply_mosaic_region(
    doc: &RgbaImage,
    x0: i32,
    y0: i32,
    x1: i32,
    y1: i32,
    block: u32,
) -> (r: RgbaImage)
    requires
        doc.wf(),
    ensures
        r.wf(),
        r@ == region_replaced(
            doc@,
            x0 as int,
            y0 as int,
            x1 as int,
            y1 as int,
            pixelated(
                region_part(doc@, x0 as int, y0 as int, x1 as int, y1 as int),
                block as int,
            ),
        ),
        forall|x: int, y: int|
            doc@.inside(x, y) && in_region(x0 as int, y0 as int, x1 as int, y1 as int, x, y)
                ==> region_part(doc@, x0 as int, y0 as int, x1 as int, y1 as int).has(
                #[trigger] r@.pixel(x, y),
            ),
        // The colors are those of one sample per block, so no more than blocks.
        forall|x: int, y: int|
            doc@.inside(x, y) && in_region(x0 as int, y0 as int, x1 as int, y1 as int, x, y)
                ==> block_samples(
                doc@,
                x0 as int,
                y0 as int,
                x1 as int,
                y1 as int,
                block as int,
            ).has(#[trigger] r@.pixel(x, y)),
        region_colors(r@, x0 as int, y0 as int, x1 as int, y1 as int).finite(),
        region_colors(r@, x0 as int, y0 as int, x1 as int, y1 as int).len() <= block_count(
            region_width(doc@, x0 as int, x1 as int),
            block as int,
        ) * block_count(region_height(doc@, y0 as int, y1 as int), block as int),
        // Where the blocks fill the region, each block has the one color that
        // its middle had.
        blocks_fit(region_width(doc@, x0 as int, x1 as int), block as int) && blocks_fit(
            region_height(doc@, y0 as int, y1 as int),
            block as int,
        ) ==> forall|x: int, y: int|
            doc@.inside(x, y) && in_region(x0 as int, y0 as int, x1 as int, y1 as int, x, y)
                ==> #[trigger] r@.pixel(x, y) == doc@.pixel(
                block_start(x, clamped(x0 as int, doc@.width as int), block as int) + block as int
                    / 2,
                block_start(y, clamped(y0 as int, doc@.height as int), block as int) + block as int
                    / 2,
            ),
{
    let (w, h) = (doc.width(), doc.height());
    let cx0: u32 = clamp_to(x0 as i64, w);
    let cx1: u32 = clamp_to(x1 as i64, w);
    let cy0: u32 = clamp_to(y0 as i64, h);
    let cy1: u32 = clamp_to(y1 as i64, h);
    let mut nd = doc.clone();
    if cx1 <= cx0 || cy1 <= cy0 {
        proof {
            let none = region_colors(nd@, x0 as int, y0 as int, x1 as int, y1 as int);
            assert(none =~= Set::empty());
        }
        return nd;
    }
    let sub = crop_imm(doc, cx0, cy0, cx1 - cx0, cy1 - cy0);
    let part = pixelate(&sub, block);
    replace(&mut nd, &part, cx0 as i64, cy0 as i64);
    proof {
        doc.lemma_wf();
        let (a0, b0, a1, b1) = (x0 as int, y0 as int, x1 as int, y1 as int);
        assert forall|x: int, y: int|
            doc@.inside(x, y) && in_region(a0, b0, a1, b1, x, y) implies #[trigger] nd@.pixel(x, y)
            == part@.pixel(x - cx0, y - cy0) && part@.inside(x - cx0, y - cy0) by {
            law_region_shows_part(doc@, a0, b0, a1, b1, part@, x, y);
        }
        let samples = block_samples(doc@, a0, b0, a1, b1, block as int);
        lemma_few_colors(nd@, a0, b0, a1, b1, samples);
        if blocks_fit(sub@.width as int, block as int) && blocks_fit(
            sub@.height as int,
            block as int,
        ) {
            assert forall|x: int, y: int|
                doc@.inside(x, y) && in_region(a0, b0, a1, b1, x, y) implies #[trigger] nd@.pixel(
                x,
                y,
            ) == doc@.pixel(
                block_start(x, cx0 as int, block as int) + block as int / 2,
                block_start(y, cy0 as int, block as int) + block as int / 2,
            ) by {
                let b = block as int;
                let (i, j) = (x - cx0, y - cy0);
                assert(nd@.pixel(x, y) == part@.pixel(i, j));
                lemma_block_middle(i, sub@.width as int, b);
                lemma_block_middle(j, sub@.height as int, b);
                picture::lemma_cropped(
                    doc@,
                    cx0 as int,
                    cy0 as int,
                    sub@.width,
                    sub@.height,
                    middle_of_run(i / b, b),
                    middle_of_run(j / b, b),
                );
            }
        }
    }
    nd
}

/// Replacing the part of a picture that a region covers leaves every pixel
/// outside the region as it was, and the picture's size.
pub proof fn law_only_region_changes(
    p: Picture,
    x0: int,
    y0: int,
    x1: int,
    y1: int,
    part: Picture,
    x: int,
    y: int,
)
    requires
        p.wf(),
        part.same_size(region_part(p, x0, y0, x1, y1)),
        p.inside(x, y),
        !in_region(x0, y0, x1, y1, x, y),
    ensures
        region_replaced(p, x0, y0, x1, y1, part).wf(),
        region_replaced(p, x0, y0, x1, y1, part).same_size(p),
        region_replaced(p, x0, y0, x1, y1, part).pixel(x, y) == p.pixel(x, y),
{
    if !region_is_empty(p, x0, y0, x1, y1) {
        picture::lemma_replaced(
            p,
            part,
            clamped(x0, p.width as int),
            clamped(y0, p.height as int),
            x,
            y,
        );
    }
}

/// Inside the region the new part shows, pixel for pixel.
pub proof fn law_region_shows_part(
    p: Picture,
    x0: int,
    y0: int,
    x1: int,
    y1: int,
    part: Picture,
    x: int,
    y: int,
)
    requires
        p.wf(),
        part.same_size(region_part(p, x0, y0, x1, y1)),
        p.inside(x, y),
        in_region(x0, y0, x1, y1, x, y),
    ensures
        region_replaced(p, x0, y0, x1, y1, part).pixel(x, y) == part.pixel(
            x - clamped(x0, p.width as int),
            y - clamped(y0, p.height as int),
        ),
{
    picture::lemma_replaced(
        p,
        part,
        clamped(x0, p.width as int),
        clamped(y0, p.height as int),
        x,
        y,
    );
}

/// Nothing outside a region bleeds into it. Two documents of one size that
/// agree on the region hand out the same part to be blurred, and with the same
/// part put back they agree on the region again; outside of it each is as it
/// was.
pub proof fn law_nothing_bleeds_in(
    p: Picture,
    q: Picture,
    x0: int,
    y0: int,
    x1: int,
    y1: int,
    part: Picture,
)
    requires
        p.wf(),
        q.wf(),
        p.same_size(q),
        forall|x: int, y: int|
            p.inside(x, y) && in_region(x0, y0, x1, y1, x, y) ==> #[trigger] p.pixel(x, y)
                == q.pixel(x, y),
        region_is_empty(p, x0, y0, x1, y1) || part.same_size(region_part(p, x0, y0, x1, y1)),
    ensures
        region_is_empty(p, x0, y0, x1, y1) == region_is_empty(q, x0, y0, x1, y1),
        !region_is_empty(p, x0, y0, x1, y1) ==> region_part(p, x0, y0, x1, y1) == region_part(
            q,
            x0,
            y0,
            x1,
            y1,
        ),
        region_replaced(p, x0, y0, x1, y1, part).same_size(p),
        forall|x: int, y: int|
            p.inside(x, y) && in_region(x0, y0, x1, y1, x, y) ==> #[trigger] region_replaced(
                p,
                x0,
                y0,
                x1,
                y1,
                part,
            ).pixel(x, y) == region_replaced(q, x0, y0, x1, y1, part).pixel(x, y),
        forall|x: int, y: int|
            p.inside(x, y) && !in_region(x0, y0, x1, y1, x, y) ==> #[trigger] region_replaced(
                p,
                x0,
                y0,
                x1,
                y1,
                part,
            ).pixel(x, y) == p.pixel(x, y),
{
    if !region_is_empty(p, x0, y0, x1, y1) {
        let a = region_part(p, x0, y0, x1, y1);
        let b = region_part(q, x0, y0, x1, y1);
        let cx = clamped(x0, p.width as int);
        let cy = clamped(y0, p.height as int);
        assert forall|i: int, j: int| a.inside(i, j) implies #[trigger] a.pixel(i, j) == b.pixel(
            i,
            j,
        ) by {
            picture::lemma_cropped(p, cx, cy, a.width, a.height, i, j);
            picture::lemma_cropped(q, cx, cy, b.width, b.height, i, j);
            assert(p.inside(cx + i, cy + j));
            assert(p.pixel(cx + i, cy + j) == q.pixel(cx + i, cy + j));
        }
        picture::lemma_same_pixels(a, b);
        assert forall|x: int, y: int| p.inside(x, y) implies #[trigger] region_replaced(
            p,
            x0,
            y0,
            x1,
            y1,
            part,
        ).pixel(x, y) == if in_region(x0, y0, x1, y1, x, y) {
            region_replaced(q, x0, y0, x1, y1, part).pixel(x, y)
        } else {
            p.pixel(x, y)
        } by {
            if in_region(x0, y0, x1, y1, x, y) {
                law_region_shows_part(p, x0, y0, x1, y1, part, x, y);
                law_region_shows_part(q, x0, y0, x1, y1, part, x, y);
            } else {
                law_only_region_changes(p, x0, y0, x1, y1, part, x, y);
            }
        }
    }
}

/// Pixelation makes solid blocks: two positions that fall on the same column
/// and the same row of the reduced picture show the same color.
pub proof fn law_blocks_are_solid(p: Picture, block: int, x: int, y: int, u: int, v: int)
    requires
        p.inside(x, y),
        p.inside(u, v),
        block_count(p.width as int, block) != p.width || block_count(p.height as int, block)
            != p.height,
        ({
            let w = block_count(p.width as int, block) as int;
            let h = block_count(p.height as int, block) as int;
            &&& nearest_source(x, w, p.width as int) == nearest_source(u, w, p.width as int)
            &&& nearest_source(y, h, p.height as int) == nearest_source(v, h, p.height as int)
        }),
    ensures
        pixelated(p, block).pixel(x, y) == pixelated(p, block).pixel(u, v),
{
    picture::lemma_index(p.width as int, p.height as int, x, y);
    picture::lemma_index(p.width as int, p.height as int, u, v);
}

/// A selection with corner `from` and a side `len`, at least one, covers `v`.
pub open spec fn side_covers(from: int, len: int, v: int) -> bool {
    from <= v < from + raster::larger(len, 1)
}

/// A cropped document shows what the selection covers of the screenshot and
/// nothing else: its pixel `(i, j)` is the screenshot's pixel that far from
/// where the covered part starts, and that pixel lies in the selection.
pub proof fn law_crop_keeps_pixels(full: Picture, x: int, y: int, w: int, h: int, i: int, j: int)
    requires
        full.wf(),
        crop_of(full, x, y, w, h).inside(i, j),
    ensures
        ({
            let u = clamped(x, full.width as int) + i;
            let v = clamped(y, full.height as int) + j;
            &&& full.inside(u, v)
            &&& side_covers(x, w, u)
            &&& side_covers(y, h, v)
            &&& crop_of(full, x, y, w, h).pixel(i, j) == full.pixel(u, v)
        }),
{
    let c = crop_of(full, x, y, w, h);
    picture::lemma_cropped(
        full,
        clamped(x, full.width as int),
        clamped(y, full.height as int),
        c.width,
        c.height,
        i,
        j,
    );
}

/// Every pixel of the screenshot that the selection covers is on the cropped
/// document.
pub proof fn law_crop_holds_selection(full: Picture, x: int, y: int, w: int, h: int, u: int, v: int)
    requires
        full.inside(u, v),
        side_covers(x, w, u),
        side_covers(y, h, v),
    ensures
        !crop_is_empty(full, x, y, w, h),
        crop_of(full, x, y, w, h).inside(
            u - clamped(x, full.width as int),
            v - clamped(y, full.height as int),
        ),
{
}

/// Clamping leaves what is in `[0, limit]` alone and moves the rest to the
/// nearer end.
pub proof fn law_clamping_moves_least(v: int, limit: int, w: int)
    requires
        0 <= limit,
        0 <= w <= limit,
    ensures
        0 <= clamped(v, limit) <= limit,
        0 <= v <= limit ==> clamped(v, limit) == v,
        raster::distance(v, clamped(v, limit)) <= raster::distance(v, w),
{
}

/// The part of a picture that a region covers is made of the region's own
/// pixels, each in its place, and of all of them.
pub proof fn law_part_is_the_region(p: Picture, x0: int, y0: int, x1: int, y1: int, x: int, y: int)
    requires
        p.wf(),
        p.inside(x, y),
        !region_is_empty(p, x0, y0, x1, y1),
    ensures
        ({
            let part = region_part(p, x0, y0, x1, y1);
            let u = x - raster::larger(x0, 0);
            let v = y - raster::larger(y0, 0);
            &&& part.wf()
            &&& part.inside(u, v) <==> x0 <= x < x1 && y0 <= y < y1
            &&& part.inside(u, v) ==> part.pixel(u, v) == p.pixel(x, y)
        }),
{
    let part = region_part(p, x0, y0, x1, y1);
    let u = x - raster::larger(x0, 0);
    let v = y - raster::larger(y0, 0);
    if part.inside(u, v) {
        picture::lemma_cropped(
            p,
            clamped(x0, p.width as int),
            clamped(y0, p.height as int),
            part.width,
            part.height,
            u,
            v,
        );
    }
}

/// A region is empty exactly if it covers no pixel of the picture.
pub proof fn law_empty_region_has_no_pixel(p: Picture, x0: int, y0: int, x1: int, y1: int)
    ensures
        region_is_empty(p, x0, y0, x1, y1) <==> forall|x: int, y: int|
            !(#[trigger] p.inside(x, y) && x0 <= x < x1 && y0 <= y < y1),
{
    if !region_is_empty(p, x0, y0, x1, y1) {
        assert(p.inside(clamped(x0, p.width as int), clamped(y0, p.height as int)));
    }
}

/// Putting a part back where it was taken from changes nothing, and putting
/// another one there is all that a region's replacement does.
pub proof fn law_own_part_changes_nothing(p: Picture, x0: int, y0: int, x1: int, y1: int)
    requires
        p.wf(),
    ensures
        region_replaced(p, x0, y0, x1, y1, region_part(p, x0, y0, x1, y1)) == p,
{
    let part = region_part(p, x0, y0, x1, y1);
    if !region_is_empty(p, x0, y0, x1, y1) {
        let r = region_replaced(p, x0, y0, x1, y1, part);
        assert forall|x: int, y: int| p.inside(x, y) implies #[trigger] r.pixel(x, y) == p.pixel(
            x,
            y,
        ) by {
            if in_region(x0, y0, x1, y1, x, y) {
                law_region_shows_part(p, x0, y0, x1, y1, part, x, y);
                law_part_is_the_region(p, x0, y0, x1, y1, x, y);
            } else {
                law_only_region_changes(p, x0, y0, x1, y1, part, x, y);
            }
        }
        picture::lemma_same_pixels(r, p);
    }
}

/// There are as many blocks as fit along a side, and one if none fits; a block
/// is at least one pixel.
pub proof fn law_blocks_that_fit(side: int, block: int)
    requires
        0 < side,
    ensures
        block <= 1 ==> block_count(side, block) == side,
        block > side ==> block_count(side, block) == 1,
        1 <= block <= side ==> block_count(side, block) * block <= side < (block_count(side, block)
            + 1) * block,
{
    if block <= 1 {
        assert(side / 1 == side);
    } else if block > side {
        vstd::arithmetic::div_mod::lemma_basic_div(side, block);
    } else {
        let n = side / block;
        vstd::arithmetic::div_mod::lemma_fundamental_div_mod(side, block);
        vstd::arithmetic::div_mod::lemma_mod_bound(side, block);
        assert(n >= 1) by (nonlinear_arith)
            requires
                side == block * n + side % block,
                side % block < block,
                block <= side,
                0 < block,
        ;
        assert(n * block == block * n && (n + 1) * block == block * n + block) by (nonlinear_arith);
    }
}

/// Blocks of one pixel leave a picture as it is.
pub proof fn law_pixelating_by_one_changes_nothing(p: Picture, block: int)
    requires
        0 < p.width,
        0 < p.height,
        block <= 1,
    ensures
        pixelated(p, block) == p,
{
    assert(p.width as int / 1 == p.width && p.height as int / 1 == p.height);
}

/// Pixelating samples the picture twice, down to as many columns and rows as
/// blocks fit and up to the old sides: each pixel of the result is the one that
/// the two samplings lead back to.
pub proof fn law_pixelating_samples_twice(p: Picture, block: int, n: int, m: int, x: int, y: int)
    requires
        p.wf(),
        p.inside(x, y),
        1 <= block,
        n * block <= p.width < (n + 1) * block,
        m * block <= p.height < (m + 1) * block,
        1 <= n < p.width,
        1 <= m < p.height,
        0 <= nearest_source(x, n, p.width as int) < n,
        0 <= nearest_source(y, m, p.height as int) < m,
    ensures
        pixelated(p, block).same_size(p),
        pixelated(p, block).pixel(x, y) == p.pixel(
            nearest_source(nearest_source(x, n, p.width as int), p.width as int, n),
            nearest_source(nearest_source(y, m, p.height as int), p.height as int, m),
        ),
{
    let (w, h) = (p.width as int, p.height as int);
    assert((n + 1) * block == n * block + block && (m + 1) * block == m * block + block)
        by (nonlinear_arith);
    vstd::arithmetic::div_mod::lemma_fundamental_div_mod_converse(w, block, n, w - n * block);
    vstd::arithmetic::div_mod::lemma_fundamental_div_mod_converse(h, block, m, h - m * block);
    assert(block_count(w, block) == n && block_count(h, block) == m);
    let u = nearest_source(x, n, w);
    let v = nearest_source(y, m, h);
    picture::lemma_index(w, h, x, y);
    picture::lemma_index(n, m, u, v);
}

} // verus!
