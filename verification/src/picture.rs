//! Documents: RGBA pixel grids and their mathematical model.

use vstd::prelude::*;

verus! {

/// One pixel: red, green, blue and alpha, not premultiplied.
#[derive(Clone, Copy, Debug, PartialEq, Eq, Structural)]
pub struct Rgba {
    pub r: u8,
    pub g: u8,
    pub b: u8,
    pub a: u8,
}

/// A rectangular grid of pixels, stored row by row.
#[verifier::ext_equal]
pub struct Picture {
    pub width: nat,
    pub height: nat,
    pub pixels: Seq<Rgba>,
}

/// The pixel of a raw RGBA byte sequence at index `i`.
pub open spec fn raw_pixel(raw: Seq<u8>, i: int) -> Rgba {
    Rgba { r: raw[4 * i], g: raw[4 * i + 1], b: raw[4 * i + 2], a: raw[4 * i + 3] }
}

/// The pixels that a raw RGBA byte sequence holds.
pub open spec fn raw_pixels(raw: Seq<u8>, count: nat) -> Seq<Rgba> {
    Seq::new(count, |i: int| raw_pixel(raw, i))
}

impl Picture {
    /// The grid holds exactly one pixel per position.
    pub open spec fn wf(self) -> bool {
        self.pixels.len() == self.width * self.height
    }

    /// `(x, y)` is a position of the grid.
    pub open spec fn inside(self, x: int, y: int) -> bool {
        0 <= x < self.width && 0 <= y < self.height
    }

    /// The pixel at `(x, y)`.
    pub open spec fn pixel(self, x: int, y: int) -> Rgba {
        self.pixels[y * self.width + x]
    }

    /// Some position has this pixel.
    pub open spec fn has(self, color: Rgba) -> bool {
        exists|x: int, y: int| self.inside(x, y) && #[trigger] self.pixel(x, y) == color
    }

    /// Both grids have the same sides.
    pub open spec fn same_size(self, other: Picture) -> bool {
        self.width == other.width && self.height == other.height
    }

    /// The grid with every position of `region` set to `color`.
    pub open spec fn painted(self, region: spec_fn(int, int) -> bool, color: Rgba) -> Picture {
        Picture {
            width: self.width,
            height: self.height,
            pixels: Seq::new(
                self.pixels.len(),
                |i: int|
                    if region(i % (self.width as int), i / (self.width as int)) {
                        color
                    } else {
                        self.pixels[i]
                    },
            ),
        }
    }

    /// The grid with the pixel at `(x, y)` set to `color`.
    pub open spec fn with_pixel(self, x: int, y: int, color: Rgba) -> Picture {
        Picture {
            width: self.width,
            height: self.height,
            pixels: self.pixels.update(y * self.width + x, color),
        }
    }

    /// A grid of `width` by `height` transparent black pixels.
    pub open spec fn blank(width: nat, height: nat) -> Picture {
        Picture {
            width,
            height,
            pixels: Seq::new(width * height, |i: int| Rgba { r: 0, g: 0, b: 0, a: 0 }),
        }
    }

    /// The part of the grid that starts at `(x, y)` and has the given sides.
    pub open spec fn cropped(self, x: int, y: int, width: nat, height: nat) -> Picture {
        Picture {
            width,
            height,
            pixels: Seq::new(
                width * height,
                |i: int| self.pixel(x + i % (width as int), y + i / (width as int)),
            ),
        }
    }

    /// The grid with `top` written over it, `top`'s first pixel at `(x, y)`.
    pub open spec fn replaced(self, top: Picture, x: int, y: int) -> Picture {
        Picture {
            width: self.width,
            height: self.height,
            pixels: Seq::new(
                self.pixels.len(),
                |i: int|
                    {
                        let px = i % (self.width as int) - x;
                        let py = i / (self.width as int) - y;
                        if top.inside(px, py) {
                            top.pixel(px, py)
                        } else {
                            self.pixels[i]
                        }
                    },
            ),
        }
    }
}

/// A position's index lies in the grid, and the index determines the position.
pub proof fn lemma_index(width: int, height: int, x: int, y: int)
    requires
        0 <= x < width,
        0 <= y < height,
    ensures
        0 <= y * width + x < width * height,
        (y * width + x) % width == x,
        (y * width + x) / width == y,
{
    assert(y * width + width <= width * height) by (nonlinear_arith)
        requires
            0 <= y < height,
            0 <= width,
    ;
    assert(0 <= y * width) by (nonlinear_arith)
        requires
            0 <= y,
            0 <= width,
    ;
    vstd::arithmetic::div_mod::lemma_fundamental_div_mod_converse(y * width + x, width, y, x);
}

/// Every index of the grid is the index of one position.
pub proof fn lemma_position(width: int, height: int, i: int)
    requires
        0 <= i < width * height,
        0 <= width,
    ensures
        0 < width,
        0 <= i % width < width,
        0 <= i / width < height,
        i == (i / width) * width + i % width,
{
    assert(width != 0) by (nonlinear_arith)
        requires
            0 < width * height,
    ;
    vstd::arithmetic::div_mod::lemma_fundamental_div_mod(i, width);
    vstd::arithmetic::div_mod::lemma_mod_bound(i, width);
    let q = i / width;
    assert(width * q == q * width) by (nonlinear_arith);
    assert(0 <= q < height) by (nonlinear_arith)
        requires
            i == width * q + i % width,
            0 <= i % width < width,
            0 <= i < width * height,
    ;
}

/// Two grids of the same size that agree at every position are equal.
pub proof fn lemma_same_pixels(p: Picture, q: Picture)
    requires
        p.wf(),
        q.wf(),
        p.same_size(q),
        forall|x: int, y: int| p.inside(x, y) ==> #[trigger] p.pixel(x, y) == q.pixel(x, y),
    ensures
        p == q,
{
    assert forall|i: int| 0 <= i < p.pixels.len() implies p.pixels[i] == q.pixels[i] by {
        lemma_position(p.width as int, p.height as int, i);
        let x = i % (p.width as int);
        let y = i / (p.width as int);
        assert(p.inside(x, y));
        assert(p.pixel(x, y) == q.pixel(x, y));
    }
    assert(p.pixels =~= q.pixels);
    assert(p =~= q);
}

/// What painting a region does to one pixel.
pub proof fn lemma_painted(
    p: Picture,
    region: spec_fn(int, int) -> bool,
    color: Rgba,
    x: int,
    y: int,
)
    requires
        p.wf(),
        p.inside(x, y),
    ensures
        p.painted(region, color).wf(),
        p.painted(region, color).pixel(x, y) == if region(x, y) {
            color
        } else {
            p.pixel(x, y)
        },
{
    lemma_index(p.width as int, p.height as int, x, y);
}

/// A grid whose pixels are those of a painted one is that painted grid.
pub proof fn lemma_is_painted(
    p: Picture,
    q: Picture,
    region: spec_fn(int, int) -> bool,
    color: Rgba,
)
    requires
        p.wf(),
        q.wf(),
        p.same_size(q),
        forall|x: int, y: int|
            p.inside(x, y) ==> #[trigger] q.pixel(x, y) == if region(x, y) {
                color
            } else {
                p.pixel(x, y)
            },
    ensures
        q == p.painted(region, color),
{
    assert forall|x: int, y: int| q.inside(x, y) implies #[trigger] q.pixel(x, y) == p.painted(
        region,
        color,
    ).pixel(x, y) by {
        assert(p.inside(x, y));
        lemma_painted(p, region, color, x, y);
    }
    lemma_same_pixels(q, p.painted(region, color));
}

/// Painting two regions in one color paints their union, in either order.
pub proof fn lemma_painted_twice(
    p: Picture,
    first: spec_fn(int, int) -> bool,
    second: spec_fn(int, int) -> bool,
    both: spec_fn(int, int) -> bool,
    color: Rgba,
)
    requires
        p.wf(),
        forall|x: int, y: int| p.inside(x, y) ==> #[trigger] both(x, y) == (first(x, y) || second(x, y)),
    ensures
        p.painted(first, color).painted(second, color) == p.painted(both, color),
{
    let q = p.painted(first, color);
    let r = q.painted(second, color);
    assert forall|x: int, y: int| p.inside(x, y) implies #[trigger] r.pixel(x, y) == if both(
        x,
        y,
    ) {
        color
    } else {
        p.pixel(x, y)
    } by {
        lemma_painted(p, first, color, x, y);
        lemma_painted(q, second, color, x, y);
    }
    lemma_is_painted(p, r, both, color);
}

/// Painting a region that misses the grid changes nothing.
pub proof fn lemma_painted_nothing(p: Picture, region: spec_fn(int, int) -> bool, color: Rgba)
    requires
        p.wf(),
        forall|x: int, y: int| p.inside(x, y) ==> !#[trigger] region(x, y),
    ensures
        p.painted(region, color) == p,
{
    assert forall|x: int, y: int| p.inside(x, y) implies #[trigger] p.pixel(x, y) == if region(
        x,
        y,
    ) {
        color
    } else {
        p.pixel(x, y)
    } by {
        assert(!region(x, y));
    }
    lemma_is_painted(p, p, region, color);
}

/// What setting one pixel does to any pixel.
pub proof fn lemma_with_pixel(p: Picture, x: int, y: int, color: Rgba)
    requires
        p.wf(),
        p.inside(x, y),
    ensures
        p.with_pixel(x, y, color).wf(),
        forall|i: int, j: int|
            p.inside(i, j) ==> #[trigger] p.with_pixel(x, y, color).pixel(i, j) == if i == x && j
                == y {
                color
            } else {
                p.pixel(i, j)
            },
{
    lemma_index(p.width as int, p.height as int, x, y);
    assert forall|i: int, j: int| p.inside(i, j) implies #[trigger] p.with_pixel(
        x,
        y,
        color,
    ).pixel(i, j) == if i == x && j == y {
        color
    } else {
        p.pixel(i, j)
    } by {
        lemma_index(p.width as int, p.height as int, i, j);
    }
}

/// What cropping leaves at one position of the part.
pub proof fn lemma_cropped(p: Picture, x: int, y: int, width: nat, height: nat, i: int, j: int)
    requires
        0 <= i < width,
        0 <= j < height,
    ensures
        p.cropped(x, y, width, height).pixel(i, j) == p.pixel(x + i, y + j),
{
    lemma_index(width as int, height as int, i, j);
}

/// What writing a grid over another does to one pixel.
pub proof fn lemma_replaced(p: Picture, top: Picture, x: int, y: int, i: int, j: int)
    requires
        p.wf(),
        p.inside(i, j),
    ensures
        p.replaced(top, x, y).wf(),
        p.replaced(top, x, y).pixel(i, j) == if top.inside(i - x, j - y) {
            top.pixel(i - x, j - y)
        } else {
            p.pixel(i, j)
        },
{
    lemma_index(p.width as int, p.height as int, i, j);
}

/// The most bytes a document may have: as single-precision samples, four times
/// the size, it still fits the address space.
pub open spec fn byte_limit() -> int {
    (isize::MAX as int) / 4
}

/// An RGBA image: the document that the editor works on.
///
/// The bytes hold the pixels row by row, four bytes per pixel.
#[derive(Debug, PartialEq, Eq)]
pub struct RgbaImage {
    width: u32,
    height: u32,
    data: Vec<u8>,
}

impl View for RgbaImage {
    type V = Picture;

    closed spec fn view(&self) -> Picture {
        Picture {
            width: self.width as nat,
            height: self.height as nat,
            pixels: raw_pixels(self.data@, self.width as nat * self.height as nat),
        }
    }
}

impl RgbaImage {
    /// The byte buffer has exactly four bytes per pixel and stays within
    /// [`byte_limit`].
    pub closed spec fn wf(self) -> bool {
        &&& self.data@.len() == 4 * (self.width * self.height)
        &&& self.data@.len() <= byte_limit()
    }

    /// The raw bytes.
    pub closed spec fn raw(self) -> Seq<u8> {
        self.data@
    }

    /// What every well-formed image satisfies.
    pub proof fn lemma_wf(self)
        requires
            self.wf(),
        ensures
            self@.wf(),
            self@.width <= u32::MAX,
            self@.height <= u32::MAX,
            self.raw().len() == 4 * (self@.width * self@.height),
            self.raw().len() <= byte_limit(),
            self@.pixels == raw_pixels(self.raw(), self@.width * self@.height),
    {
    }

    /// A transparent black image.
    ///
    /// The byte count has to stay within [`byte_limit`].
    pub fn new(width: u32, height: u32) -> (r: RgbaImage)
        requires
            4 * (width * height) <= byte_limit(),
        ensures
            r.wf(),
            r@ == Picture::blank(width as nat, height as nat),
    {
        let count: usize = 4 * ((width as u128 * height as u128) as usize);
        let mut data: Vec<u8> = Vec::new();
        let mut i: usize = 0;
        while i < count
            invariant
                i <= count,
                data@.len() == i,
                forall|k: int| 0 <= k < i ==> data@[k] == 0,
            decreases count - i,
        {
            data.push(0);
            i = i + 1;
        }
        let r = RgbaImage { width, height, data };
        assert(r@ =~= Picture::blank(width as nat, height as nat));
        r
    }

    /// An image over the given bytes, if there are exactly four per pixel and
    /// no more than [`byte_limit`].
    pub fn from_raw(width: u32, height: u32, data: Vec<u8>) -> (r: Option<RgbaImage>)
        ensures
            r is Some <==> data@.len() == 4 * (width * height) && data@.len() <= byte_limit(),
            r matches Some(img) ==> {
                &&& img.wf()
                &&& img.raw() == data@
                &&& img@.width == width
                &&& img@.height == height
                &&& img@.pixels == raw_pixels(data@, width as nat * height as nat)
            },
    {
        proof {
            assert(width * height <= u32::MAX * u32::MAX) by (nonlinear_arith)
                requires
                    0 <= width <= u32::MAX,
                    0 <= height <= u32::MAX,
            ;
        }
        if data.len() as u128 == 4 * (width as u128 * height as u128) && data.len() <= (
        isize::MAX as usize) / 4 {
            Some(RgbaImage { width, height, data })
        } else {
            None
        }
    }

    /// The width in pixels.
    pub fn width(&self) -> (r: u32)
        ensures
            r == self@.width,
    {
        self.width
    }

    /// The height in pixels.
    pub fn height(&self) -> (r: u32)
        ensures
            r == self@.height,
    {
        self.height
    }

    /// The raw bytes, row by row, four per pixel.
    pub fn as_raw(&self) -> (r: &Vec<u8>)
        ensures
            r@ == self.raw(),
    {
        &self.data
    }

    /// Index of the first byte of the pixel at `(x, y)`.
    fn offset(&self, x: u32, y: u32) -> (r: usize)
        requires
            self.wf(),
            self@.inside(x as int, y as int),
        ensures
            r == 4 * (y * self.width + x),
            r + 4 <= self.data@.len(),
    {
        proof {
            self.lemma_wf();
            lemma_index(self.width as int, self.height as int, x as int, y as int);
            assert(y * self.width <= u32::MAX * u32::MAX) by (nonlinear_arith)
                requires
                    0 <= y <= u32::MAX,
                    0 <= self.width <= u32::MAX,
            ;
        }
        (4 * (y as u128 * self.width as u128 + x as u128)) as usize
    }

    /// The pixel at `(x, y)`.
    pub fn get_pixel(&self, x: u32, y: u32) -> (r: Rgba)
        requires
            self.wf(),
            self@.inside(x as int, y as int),
        ensures
            r == self@.pixel(x as int, y as int),
    {
        let i: usize = self.offset(x, y);
        proof {
            lemma_index(self.width as int, self.height as int, x as int, y as int);
        }
        Rgba { r: self.data[i], g: self.data[i + 1], b: self.data[i + 2], a: self.data[i + 3] }
    }

    /// Set the pixel at `(x, y)`.
    pub fn put_pixel(&mut self, x: u32, y: u32, color: Rgba)
        requires
            old(self).wf(),
            old(self)@.inside(x as int, y as int),
        ensures
            final(self).wf(),
            final(self)@ == old(self)@.with_pixel(x as int, y as int, color),
    {
        let i: usize = self.offset(x, y);
        proof {
            lemma_index(self.width as int, self.height as int, x as int, y as int);
        }
        self.data.set(i, color.r);
        self.data.set(i + 1, color.g);
        self.data.set(i + 2, color.b);
        self.data.set(i + 3, color.a);
        assert(self@ =~= old(self)@.with_pixel(x as int, y as int, color)) by {
            let n = self@.pixels.len() as int;
            let k = y * self.width + x;
            assert forall|j: int| 0 <= j < n implies self@.pixels[j] == old(self)@.with_pixel(
                x as int,
                y as int,
                color,
            ).pixels[j] by {
                if j == k {
                } else {
                }
            }
        }
    }
}

impl Clone for RgbaImage {
    fn clone(&self) -> (r: RgbaImage)
        ensures
            r@ == self@,
            r.raw() == self.raw(),
            r.wf() == self.wf(),
    {
        let data = self.data.clone();
        assert(data@ =~= self.data@);
        RgbaImage { width: self.width, height: self.height, data }
    }
}

/// Raw bytes hold the pixels one after the other, each as red, green, blue and
/// alpha.
pub proof fn law_raw_bytes_are_rgba(raw: Seq<u8>, count: nat, i: int)
    requires
        0 <= i < count,
    ensures
        raw_pixels(raw, count).len() == count,
        raw_pixels(raw, count)[i].r == raw[4 * i],
        raw_pixels(raw, count)[i].g == raw[4 * i + 1],
        raw_pixels(raw, count)[i].b == raw[4 * i + 2],
        raw_pixels(raw, count)[i].a == raw[4 * i + 3],
{
}

/// A blank grid is transparent black everywhere.
pub proof fn law_blank_is_transparent(width: nat, height: nat, x: int, y: int)
    requires
        0 <= x < width,
        0 <= y < height,
    ensures
        Picture::blank(width, height).wf(),
        Picture::blank(width, height).inside(x, y),
        Picture::blank(width, height).pixel(x, y) == (Rgba { r: 0, g: 0, b: 0, a: 0 }),
{
    lemma_index(width as int, height as int, x, y);
}

/// Two positions of a grid are the same pixel only if they are the same.
pub proof fn law_positions_are_apart(p: Picture, x: int, y: int, u: int, v: int, color: Rgba)
    requires
        p.wf(),
        p.inside(x, y),
        p.inside(u, v),
        x != u || y != v,
    ensures
        p.with_pixel(x, y, color).pixel(x, y) == color,
        p.with_pixel(x, y, color).pixel(u, v) == p.pixel(u, v),
{
    lemma_with_pixel(p, x, y, color);
}

} // verus!
