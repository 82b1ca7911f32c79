//! What the editor's toolbar offers and shows.

use crate::picture::Rgba;
use crate::text;
use crate::ui::theme;
use vstd::prelude::*;
use vstd::string::*;

verus! {

/// Ten thousand times the Rec. 709 luma of a color.
pub open spec fn luma(c: Rgba) -> int {
    2126 * c.r + 7152 * c.g + 722 * c.b
}

/// The color's luma, summed up in single precision, is more than 140.
///
/// Of the colors whose exact luma is 140 the rounding of the sum takes one
/// above the limit; every other color falls on the side of its exact luma.
pub open spec fn is_light(c: Rgba) -> bool {
    luma(c) > 1_400_000 || (c.r == 205 && c.g == 123 && c.b == 117)
}

/// A legible text color for a button filled with `c`: black on light fills,
/// white on dark ones.
pub fn contrast_text_color(c: Rgba) -> (r: Rgba)
    ensures
        r == if is_light(c) {
            theme::opaque(0, 0, 0)
        } else {
            theme::opaque(255, 255, 255)
        },
{
    let luma: u32 = 2126 * c.r as u32 + 7152 * c.g as u32 + 722 * c.b as u32;
    if luma > 1_400_000 || (c.r == 205 && c.g == 123 && c.b == 117) {
        theme::from_rgb(0, 0, 0)
    } else {
        theme::from_rgb(255, 255, 255)
    }
}

/// The colors that the color picker offers, in order.
pub open spec fn offered_colors() -> Seq<Rgba> {
    seq![
        theme::opaque(0x26, 0x8b, 0xd2),
        theme::opaque(0xdc, 0x32, 0x2f),
        theme::opaque(0x85, 0x99, 0x00),
        theme::opaque(0xcb, 0x4b, 0x16),
        theme::opaque(0xd3, 0x36, 0x82),
        theme::opaque(0x58, 0x6e, 0x75),
    ]
}

/// The colors that the color picker offers, in order: blue, red, green,
/// orange, magenta and dark gray.
pub fn color_presets() -> (r: Vec<Rgba>)
    ensures
        r@ == offered_colors(),
{
    let r = vec![
        theme::from_rgb(0x26, 0x8b, 0xd2),
        theme::from_rgb(0xdc, 0x32, 0x2f),
        theme::from_rgb(0x85, 0x99, 0x00),
        theme::from_rgb(0xcb, 0x4b, 0x16),
        theme::from_rgb(0xd3, 0x36, 0x82),
        theme::from_rgb(0x58, 0x6e, 0x75),
    ];
    assert(r@ =~= offered_colors());
    r
}

/// The stroke widths that the size picker offers, in logical pixels.
pub fn width_presets() -> (r: Vec<u32>)
    ensures
        r@ == seq![1u32, 2, 4],
{
    let r = vec![1u32, 2, 4];
    assert(r@ =~= seq![1u32, 2, 4]);
    r
}

/// The label of a stroke width. The active one is marked.
pub fn width_label(width: u32, active_width: u32) -> (r: String)
    ensures
        r@ == text::decimal(width as nat) + if width == active_width {
            " px  ✓"@
        } else {
            " px"@
        },
{
    let mut label = String::new();
    text::push_decimal(&mut label, width as u128);
    assert(label@ =~= text::decimal(width as nat));
    if width == active_width {
        label.append(" px  ✓");
    } else {
        label.append(" px");
    }
    label
}

/// A whole number in decimal, with a minus sign if it is negative.
pub open spec fn signed(n: int) -> Seq<char> {
    if n < 0 {
        "-"@ + text::decimal((-n) as nat)
    } else {
        text::decimal(n as nat)
    }
}

/// Append a whole number in decimal.
fn push_signed(out: &mut String, n: i32)
    ensures
        final(out)@ == old(out)@ + signed(n as int),
{
    if n < 0 {
        out.append("-");
        text::push_decimal(out, (-(n as i64)) as u128);
        assert(out@ =~= old(out)@ + signed(n as int));
    } else {
        text::push_decimal(out, n as u128);
    }
}

/// The label of a selection: its sides in physical pixels.
pub fn size_label(width: i32, height: i32) -> (r: String)
    ensures
        r@ == signed(width as int) + " × "@ + signed(height as int),
{
    let mut label = String::new();
    push_signed(&mut label, width);
    assert(label@ =~= signed(width as int));
    label.append(" × ");
    push_signed(&mut label, height);
    label
}

/// The first color offered is the one a session starts with.
pub proof fn law_default_color_is_offered()
    ensures
        offered_colors()[0] == crate::ui::region_overlay::active_color_default(),
{
}

/// A fill that is no darker in any channel than a light one is light too; a
/// gray is light exactly if it is above 140; the alpha does not count.
pub proof fn law_brighter_is_light(c: Rgba, d: Rgba)
    ensures
        is_light(c) && c.r <= d.r && c.g <= d.g && c.b <= d.b ==> is_light(d),
        c.r == c.g && c.g == c.b ==> (is_light(c) <==> c.r > 140),
{
}

/// Green counts most for how light a fill is, and blue least: moving some of a
/// channel to one that counts more never makes a fill dark.
pub proof fn law_green_counts_most(c: Rgba, d: Rgba)
    requires
        is_light(c),
        c.r + c.g + c.b == d.r + d.g + d.b,
        c.g <= d.g,
        d.b <= c.b,
    ensures
        is_light(d),
{
}

/// A number is its digits, behind a minus sign exactly if it is negative.
pub proof fn law_minus_marks_negatives(n: int)
    ensures
        n >= 0 ==> signed(n) == text::decimal(n as nat),
        n < 0 ==> signed(n).len() > 0 && signed(n)[0] == '-' && signed(n).skip(1) == text::decimal(
            (-n) as nat,
        ),
{
    reveal_strlit("-");
    if n < 0 {
        assert(signed(n).skip(1) =~= text::decimal((-n) as nat));
    }
}

/// The colors offered are opaque and all different.
pub proof fn law_offered_colors_differ(i: int, j: int)
    requires
        0 <= i < j < offered_colors().len(),
    ensures
        offered_colors()[i] != offered_colors()[j],
        offered_colors()[i].a == 255 && offered_colors()[j].a == 255,
{
}

} // verus!
