//! Screenshots: which monitor to capture, how a capture is shown, encoded and
//! named.

use crate::failure::Failure;
use crate::picture::{Picture, Rgba, RgbaImage};
use crate::text;
use vstd::prelude::*;
use vstd::string::*;

verus! {

/// The index of the monitor to capture, given for each monitor whether it is
/// the primary one: the first that is, else the first of all.
pub fn primary_monitor(primary: &Vec<bool>) -> (r: Result<usize, Failure>)
    ensures
        r is Ok <==> primary@.len() > 0,
        r matches Ok(i) ==> {
            &&& i < primary@.len()
            &&& forall|k: int| 0 <= k < i ==> !#[trigger] primary@[k]
            &&& primary@[i as int] || (i == 0 && !primary@.contains(true))
        },
        r matches Err(e) ==> e.message@ == "no monitors found"@,
{
    if primary.len() == 0 {
        return Err(Failure { message: "no monitors found".to_string() });
    }
    let mut i: usize = 0;
    while i < primary.len()
        invariant
            i <= primary@.len(),
            forall|k: int| 0 <= k < i ==> !#[trigger] primary@[k],
        decreases primary@.len() - i,
    {
        if primary[i] {
            return Ok(i);
        }
        i = i + 1;
    }
    Ok(0)
}

/// An image in the form that egui displays.
#[verifier::external_type_specification]
#[verifier::external_body]
pub struct ExColorImage(egui::ColorImage);

/// The width and height of an egui image.
pub uninterp spec fn color_image_size(img: egui::ColorImage) -> (int, int);

/// The pixels of an egui image, row by row, premultiplied.
pub uninterp spec fn color_image_pixels(img: egui::ColorImage) -> Seq<Rgba>;

/// A channel scaled by an alpha, rounded to the nearest integer.
pub open spec fn scaled_channel(v: u8, a: u8) -> u8 {
    ((2 * v * a + 255) / 510) as u8
}

/// A color with its alpha multiplied into its other channels.
pub open spec fn premultiplied(c: Rgba) -> Rgba {
    Rgba {
        r: scaled_channel(c.r, c.a),
        g: scaled_channel(c.g, c.a),
        b: scaled_channel(c.b, c.a),
        a: c.a,
    }
}

/// Build an egui image with `egui::ColorImage::from_rgba_unmultiplied`.
///
/// Claimed: the image has the given sides, and its pixels are the given ones,
/// each premultiplied with rounding to nearest. The image's `source_size`, a
/// pair of floating-point numbers, is left unsaid.
#[verifier::external_body]
fn from_rgba_unmultiplied(width: usize, height: usize, rgba: &Vec<u8>) -> (r: egui::ColorImage)
    requires
        width * height * 4 == rgba@.len(),
    ensures
        color_image_size(r) == (width as int, height as int),
        color_image_pixels(r) == Seq::new(
            (width * height) as nat,
            |i: int| premultiplied(crate::picture::raw_pixel(rgba@, i)),
        ),
{
    egui::ColorImage::from_rgba_unmultiplied([width, height], rgba)
}

/// The pixels of a picture as egui displays them.
pub open spec fn displayed(p: Picture) -> Seq<Rgba> {
    Seq::new(p.pixels.len(), |i: int| premultiplied(p.pixels[i]))
}

/// Convert an image for display.
pub fn rgba_image_to_color_image(img: &RgbaImage) -> (r: egui::ColorImage)
    requires
        img.wf(),
    ensures
        color_image_size(r) == (img@.width as int, img@.height as int),
        color_image_pixels(r) == displayed(img@),
{
    proof {
        img.lemma_wf();
        assert(4 * (img@.width * img@.height) == img@.width * img@.height * 4);
    }
    let r = from_rgba_unmultiplied(img.width() as usize, img.height() as usize, img.as_raw());
    assert(color_image_pixels(r) =~= displayed(img@));
    r
}

/// A failure of the `image` crate.
#[verifier::external_type_specification]
#[verifier::external_body]
pub struct ExImageError(image::ImageError);

/// The PNG file that the `image` crate makes of the given sides and raw RGBA
/// bytes.
pub uninterp spec fn png_encoding(width: int, height: int, raw: Seq<u8>) -> Seq<u8>;

/// Encode an image as PNG with `image::DynamicImage::write_to`.
///
/// Claimed: an image with pixels is encoded, into bytes that depend on its
/// sides and its raw bytes alone; one without is not.
#[verifier::external_body]
fn write_png(img: &RgbaImage) -> (r: Result<Vec<u8>, image::ImageError>)
    requires
        img.wf(),
    ensures
        r is Err <==> (img@.width == 0 || img@.height == 0),
        r matches Ok(bytes) ==> bytes@ == png_encoding(
            img@.width as int,
            img@.height as int,
            img.raw(),
        ),
{
    let raw = img.as_raw().clone();
    let full = image::RgbaImage::from_raw(img.width(), img.height(), raw).unwrap();
    let mut bytes = Vec::new();
    image::DynamicImage::ImageRgba8(full).write_to(
        &mut std::io::Cursor::new(&mut bytes),
        image::ImageFormat::Png,
    )?;
    Ok(bytes)
}

/// The result of encoding, with a failure in the library's own terms.
pub fn png_result(encoded: Result<Vec<u8>, image::ImageError>) -> (r: Result<Vec<u8>, Failure>)
    ensures
        encoded matches Ok(bytes) ==> r == Ok::<Vec<u8>, Failure>(bytes),
        encoded is Err ==> (r matches Err(e) && e.message@ == "failed to encode PNG"@),
{
    match encoded {
        Ok(bytes) => Ok(bytes),
        Err(_) => Err(Failure { message: "failed to encode PNG".to_string() }),
    }
}

/// Encode an image as PNG, in memory. An image without pixels is refused.
pub fn encode_png_bytes(img: &RgbaImage) -> (r: Result<Vec<u8>, Failure>)
    requires
        img.wf(),
    ensures
        r is Err <==> (img@.width == 0 || img@.height == 0),
        r matches Ok(bytes) ==> bytes@ == png_encoding(
            img@.width as int,
            img@.height as int,
            img.raw(),
        ),
        r matches Err(e) ==> e.message@ == "failed to encode PNG"@,
{
    png_result(write_png(img))
}

/// The name of a screenshot file with the given timestamp.
pub open spec fn file_name_of(timestamp: nat) -> Seq<char> {
    "screenshot-"@ + text::decimal(timestamp) + ".png"@
}

/// The name of a screenshot file with the given timestamp.
pub fn screenshot_file_name(timestamp: u128) -> (r: String)
    ensures
        r@ == file_name_of(timestamp as nat),
{
    let mut name = "screenshot-".to_string();
    text::push_decimal(&mut name, timestamp);
    name.append(".png");
    name
}

/// Screenshots with different timestamps have different file names.
pub proof fn law_file_names_differ(a: nat, b: nat)
    requires
        a != b,
    ensures
        file_name_of(a) != file_name_of(b),
{
    text::lemma_decimal_injective(a, b);
    let head = "screenshot-"@;
    let tail = ".png"@;
    let x = file_name_of(a);
    let y = file_name_of(b);
    if x == y {
        let n = head.len() as int;
        assert(x.subrange(n, x.len() - tail.len()) =~= text::decimal(a));
        assert(y.subrange(n, y.len() - tail.len()) =~= text::decimal(b));
    }
}

/// An opaque picture is displayed as it is.
pub proof fn law_opaque_is_displayed_unchanged(p: Picture)
    requires
        forall|i: int| 0 <= i < p.pixels.len() ==> (#[trigger] p.pixels[i]).a == 255,
    ensures
        displayed(p) == p.pixels,
{
    assert forall|i: int| 0 <= i < p.pixels.len() implies displayed(p)[i] == p.pixels[i] by {
        lemma_opaque_channel(p.pixels[i].r);
        lemma_opaque_channel(p.pixels[i].g);
        lemma_opaque_channel(p.pixels[i].b);
    }
    assert(displayed(p) =~= p.pixels);
}

/// A full alpha keeps a channel.
proof fn lemma_opaque_channel(v: u8)
    ensures
        scaled_channel(v, 255) == v,
{
    assert((2 * v * 255 + 255) / 510 == v) by (nonlinear_arith)
        requires
            0 <= v <= 255,
    ;
}

/// A displayed channel is the nearest whole number to its share by the alpha,
/// and never more than the alpha.
pub proof fn law_scaling_rounds_to_nearest(v: u8, a: u8)
    ensures
        -255 <= 510 * scaled_channel(v, a) - 2 * (v * a) <= 255,
        scaled_channel(v, a) <= a,
        scaled_channel(v, a) <= v,
{
    assert(0 <= v * a <= 255 * a && v * a <= 255 * v) by (nonlinear_arith)
        requires
            0 <= v <= 255,
            0 <= a <= 255,
    ;
    assert(2 * v * a == 2 * (v * a)) by (nonlinear_arith);
}

/// A picture is displayed pixel by pixel, in place: the alpha stays and each
/// other channel is scaled by it. What is transparent is displayed as nothing.
pub proof fn law_display_keeps_places(p: Picture, i: int)
    requires
        0 <= i < p.pixels.len(),
    ensures
        displayed(p).len() == p.pixels.len(),
        displayed(p)[i].a == p.pixels[i].a,
        -255 <= 510 * displayed(p)[i].r - 2 * (p.pixels[i].r * p.pixels[i].a) <= 255,
        -255 <= 510 * displayed(p)[i].g - 2 * (p.pixels[i].g * p.pixels[i].a) <= 255,
        -255 <= 510 * displayed(p)[i].b - 2 * (p.pixels[i].b * p.pixels[i].a) <= 255,
        p.pixels[i].a == 0 ==> displayed(p)[i] == (Rgba { r: 0, g: 0, b: 0, a: 0 }),
{
    law_scaling_rounds_to_nearest(p.pixels[i].r, p.pixels[i].a);
    law_scaling_rounds_to_nearest(p.pixels[i].g, p.pixels[i].a);
    law_scaling_rounds_to_nearest(p.pixels[i].b, p.pixels[i].a);
}

/// A file name is the timestamp's digits between `screenshot-` and `.png`.
pub proof fn law_file_name_holds_its_timestamp(timestamp: nat)
    ensures
        ({
            let name = file_name_of(timestamp);
            &&& name.len() >= 16
            &&& name.take(11) == "screenshot-"@
            &&& name.skip(name.len() - 4) == ".png"@
            &&& text::value(name.subrange(11, name.len() - 4)) == timestamp
        }),
{
    reveal_strlit("screenshot-");
    reveal_strlit(".png");
    let name = file_name_of(timestamp);
    let digits = text::decimal(timestamp);
    text::law_decimal_stands_for_its_number(timestamp);
    assert(name.take(11) =~= "screenshot-"@);
    assert(name.skip(name.len() - 4) =~= ".png"@);
    assert(name.subrange(11, name.len() - 4) =~= digits);
}

} // verus!
