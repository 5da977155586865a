//! The four 8-bit pixel layouts and the image that a canvas is finalized
//! into.

use vstd::prelude::*;
use crate::render::Pixel;
use crate::types::Color;

verus! {

/// One channel: luminance.
#[derive(Clone, Copy, Debug, PartialEq, Eq)]
pub struct Luma(pub [u8; 1]);

/// Two channels: luminance and alpha.
#[derive(Clone, Copy, Debug, PartialEq, Eq)]
pub struct LumaA(pub [u8; 2]);

/// Three channels: red, green and blue.
#[derive(Clone, Copy, Debug, PartialEq, Eq)]
pub struct Rgb(pub [u8; 3]);

/// Four channels: red, green, blue and alpha.
#[derive(Clone, Copy, Debug, PartialEq, Eq)]
pub struct Rgba(pub [u8; 4]);

impl Pixel for Rgb {
    open spec fn spec_channel_count() -> nat {
        3
    }

    open spec fn spec_channels(&self) -> Seq<u8> {
        self.0@
    }

    open spec fn spec_default_color(color: Color) -> Self {
        let p = color.spec_select(0, u8::MAX);
        Rgb([p, p, p])
    }

    proof fn lemma_channel_count(&self) {
    }

    fn default_color(color: Color) -> (pixel: Self) {
        let p = color.select(0, u8::MAX);
        Rgb([p, p, p])
    }

    fn channels(&self) -> (bytes: &[u8]) {
        &self.0
    }
}

impl Pixel for Rgba {
    open spec fn spec_channel_count() -> nat {
        4
    }

    open spec fn spec_channels(&self) -> Seq<u8> {
        self.0@
    }

    open spec fn spec_default_color(color: Color) -> Self {
        let p = color.spec_select(0, u8::MAX);
        Rgba([p, p, p, u8::MAX])
    }

    proof fn lemma_channel_count(&self) {
    }

    fn default_color(color: Color) -> (pixel: Self) {
        let p = color.select(0, u8::MAX);
        Rgba([p, p, p, u8::MAX])
    }

    fn channels(&self) -> (bytes: &[u8]) {
        &self.0
    }
}

impl Pixel for Luma {
    open spec fn spec_channel_count() -> nat {
        1
    }

    open spec fn spec_channels(&self) -> Seq<u8> {
        self.0@
    }

    open spec fn spec_default_color(color: Color) -> Self {
        let p = color.spec_select(0, u8::MAX);
        Luma([p])
    }

    proof fn lemma_channel_count(&self) {
    }

    fn default_color(color: Color) -> (pixel: Self) {
        let p = color.select(0, u8::MAX);
        Luma([p])
    }

    fn channels(&self) -> (bytes: &[u8]) {
        &self.0
    }
}

impl Pixel for LumaA {
    open spec fn spec_channel_count() -> nat {
        2
    }

    open spec fn spec_channels(&self) -> Seq<u8> {
        self.0@
    }

    open spec fn spec_default_color(color: Color) -> Self {
        let p = color.spec_select(0, u8::MAX);
        LumaA([p, u8::MAX])
    }

    proof fn lemma_channel_count(&self) {
    }

    fn default_color(color: Color) -> (pixel: Self) {
        let p = color.select(0, u8::MAX);
        LumaA([p, u8::MAX])
    }

    fn channels(&self) -> (bytes: &[u8]) {
        &self.0
    }
}

} // verus!

verus! {

/// The bytes of a run of pixels: the channels of the first pixel, then those
/// of the second, and so on. Byte `i` is channel `i % n` of pixel `i / n`,
/// where `n` is the number of channels of the layout.
pub open spec fn raster_bytes<P: Pixel>(pixels: Seq<P>) -> Seq<u8> {
    Seq::new(
        pixels.len() * P::spec_channel_count(),
        |i: int|
            pixels[i / (P::spec_channel_count() as int)].spec_channels()[i % (
            P::spec_channel_count() as int)],
    )
}

/// The quotient and remainder of `i * n + k` by `n`, for a `k` below `n`.
pub proof fn lemma_byte_position(i: int, k: int, n: int)
    requires
        0 <= i,
        0 <= k < n,
    ensures
        (i * n + k) / n == i,
        (i * n + k) % n == k,
{
    vstd::arithmetic::div_mod::lemma_fundamental_div_mod_converse(i * n + k, n, i, k);
}

/// Where a channel of a pixel lies among the bytes: with `n` channels to a
/// pixel, channel `k` of pixel `i` is byte `i * n + k`, and there are `n`
/// bytes for each pixel.
pub proof fn lemma_raster_bytes<P: Pixel>(pixels: Seq<P>, i: int, k: int)
    requires
        0 <= i < pixels.len(),
        0 <= k < P::spec_channel_count(),
    ensures
        raster_bytes(pixels).len() == pixels.len() * P::spec_channel_count(),
        0 <= i * P::spec_channel_count() + k < raster_bytes(pixels).len(),
        raster_bytes(pixels)[i * P::spec_channel_count() + k] == pixels[i].spec_channels()[k],
{
    let n = P::spec_channel_count() as int;
    lemma_byte_position(i, k, n);
    assert(0 <= i * n && i * n + n <= pixels.len() * n) by (nonlinear_arith)
        requires
            0 <= i < pixels.len(),
            0 < n,
    ;
}

/// A raster of pixels: `width` columns and `height` rows, stored row by row
/// from the top, each row from the left.
pub struct Image<P: Pixel> {
    width: u32,
    height: u32,
    pixels: Vec<P>,
}

impl<P: Pixel> View for Image<P> {
    type V = Seq<P>;

    /// The pixels in row-major order.
    closed spec fn view(&self) -> Seq<P> {
        self.pixels@
    }
}

impl<P: Pixel> Image<P> {
    /// The number of columns.
    pub closed spec fn spec_width(&self) -> u32 {
        self.width
    }

    /// The number of rows.
    pub closed spec fn spec_height(&self) -> u32 {
        self.height
    }

    /// An image holds one pixel for each column of each row.
    #[verifier::type_invariant]
    pub open spec fn wf(&self) -> bool {
        self@.len() == self.width() * self.height()
    }

    /// The pixel in column `x` of row `y`.
    pub open spec fn pixel(&self, x: int, y: int) -> P
        recommends
            0 <= x < self.width(),
            0 <= y < self.height(),
    {
        self@[y * self.width() + x]
    }

    /// An image of the given size in which every pixel is `pixel`.
    pub fn from_pixel(width: u32, height: u32, pixel: P) -> (image: Self)
        ensures
            image.wf(),
            image.width() == width,
            image.height() == height,
            image@ == Seq::new((width * height) as nat, |i: int| pixel),
    {
        assert(width * height <= u64::MAX) by (nonlinear_arith)
            requires
                width <= u32::MAX,
                height <= u32::MAX,
        ;
        let count: u64 = (width as u64) * (height as u64);
        let mut pixels: Vec<P> = Vec::new();
        let mut done: u64 = 0;
        while done < count
            invariant
                done <= count,
                pixels@.len() == done,
                forall|i: int| 0 <= i < done ==> pixels@[i] == pixel,
            decreases count - done,
        {
            pixels.push(pixel);
            done += 1;
        }
        Image { width, height, pixels }
    }

    /// The number of columns.
    #[verifier::when_used_as_spec(spec_width)]
    pub fn width(&self) -> (width: u32)
        ensures
            width == self.spec_width(),
    {
        self.width
    }

    /// The number of rows.
    #[verifier::when_used_as_spec(spec_height)]
    pub fn height(&self) -> (height: u32)
        ensures
            height == self.spec_height(),
    {
        self.height
    }

    /// The number of columns and the number of rows.
    pub fn dimensions(&self) -> (dimensions: (u32, u32))
        ensures
            dimensions.0 == self.width(),
            dimensions.1 == self.height(),
    {
        (self.width, self.height)
    }

    /// Reads the pixel in column `x` of row `y`.
    pub fn get_pixel(&self, x: u32, y: u32) -> (pixel: P)
        requires
            x < self.width(),
            y < self.height(),
        ensures
            pixel == self.pixel(x as int, y as int),
    {
        proof {
            use_type_invariant(self);
            lemma_cell_index(x as int, y as int, self.width as int, self.height as int);
            assert(self.width * self.height == self.pixels.len());
            assert(y * self.width >= 0) by (nonlinear_arith);
        }
        self.pixels[(y as usize) * (self.width as usize) + (x as usize)]
    }

    /// Overwrites the pixel in column `x` of row `y`. No other pixel changes.
    pub fn put_pixel(&mut self, x: u32, y: u32, pixel: P)
        requires
            x < old(self).width(),
            y < old(self).height(),
        ensures
            final(self).wf(),
            final(self).width() == old(self).width(),
            final(self).height() == old(self).height(),
            final(self)@ == old(self)@.update(y * old(self).width() + x, pixel),
        no_unwind
    {
        proof {
            use_type_invariant(&*self);
            lemma_cell_index(x as int, y as int, self.width as int, self.height as int);
            assert(self.width * self.height == self.pixels.len());
            assert(y * self.width >= 0) by (nonlinear_arith);
        }
        let index: usize = (y as usize) * (self.width as usize) + (x as usize);
        self.pixels[index] = pixel;
    }

    /// The bytes of the image: its pixels in row-major order, each as the
    /// channels of its layout.
    pub fn into_raw(self) -> (raw: Vec<u8>)
        ensures
            raw@ == raster_bytes(self@),
    {
        let ghost n = P::spec_channel_count() as int;
        let mut raw: Vec<u8> = Vec::new();
        let mut i: usize = 0;
        while i < self.pixels.len()
            invariant
                n == P::spec_channel_count(),
                i <= self.pixels@.len(),
                raw@.len() == i * n,
                forall|j: int|
                    0 <= j < i * n ==> raw@[j] == (#[trigger] raster_bytes(self.pixels@)[j]),
            decreases self.pixels@.len() - i,
        {
            let pixel = self.pixels[i];
            let bytes = pixel.channels();
            proof {
                pixel.lemma_channel_count();
            }
            let mut k: usize = 0;
            while k < bytes.len()
                invariant
                    n == P::spec_channel_count(),
                    n == bytes@.len(),
                    i < self.pixels@.len(),
                    pixel == self.pixels@[i as int],
                    bytes@ == pixel.spec_channels(),
                    k <= n,
                    raw@.len() == i * n + k,
                    forall|j: int|
                        0 <= j < i * n + k ==> raw@[j] == (#[trigger] raster_bytes(
                            self.pixels@,
                        )[j]),
                decreases n - k,
            {
                proof {
                    lemma_byte_position(i as int, k as int, n);
                    assert(i * n + k < self.pixels@.len() * n) by (nonlinear_arith)
                        requires
                            0 <= i < self.pixels@.len(),
                            0 <= k < n,
                    ;
                }
                raw.push(bytes[k]);
                k += 1;
            }
            proof {
                assert((i + 1) * n == i * n + n) by (nonlinear_arith);
            }
            i += 1;
        }
        raw
    }
}

/// The row-major index of a cell of a grid lies within the grid, and leads
/// back to the cell.
pub proof fn lemma_cell_index(x: int, y: int, width: int, height: int)
    requires
        0 <= x < width,
        0 <= y < height,
    ensures
        0 <= y * width + x < width * height,
        (y * width + x) / width == y,
        (y * width + x) % width == x,
{
    assert(0 <= y * width && y * width + width <= width * height) by (nonlinear_arith)
        requires
            0 <= y < height,
            0 < width,
    ;
    vstd::arithmetic::div_mod::lemma_fundamental_div_mod_converse(y * width + x, width, y, x);
}

/// An index into a row-major grid names a cell of the grid: its column is
/// the remainder by the width, its row the quotient.
pub proof fn lemma_index_cell(i: int, width: int, height: int)
    requires
        0 <= i < width * height,
        0 < width,
    ensures
        0 <= i % width < width,
        0 <= i / width < height,
        (i / width) * width + i % width == i,
{
    vstd::arithmetic::div_mod::lemma_fundamental_div_mod(i, width);
    vstd::arithmetic::div_mod::lemma_mod_bound(i, width);
    let q = i / width;
    assert(q * width == width * q) by (nonlinear_arith);
    assert(0 <= q < height) by (nonlinear_arith)
        requires
            q * width + i % width == i,
            0 <= i % width < width,
            0 <= i < width * height,
            0 < width,
    ;
}

} // verus!
