//! Rendering of a module matrix: the pixel abstraction, the sizing policies
//! and the renderer itself.

use core::marker::PhantomData;
use vstd::prelude::*;
use crate::render::canvas::{with_dark_rect, Canvas};
use crate::render::image::{lemma_cell_index, raster_bytes, Image};
use crate::render::sizing::{lemma_max_fit_scale, lemma_min_fit_scale, SizingPolicy};
use crate::types::{Color, RenderError};

pub mod canvas;
pub mod image;
pub mod sizing;

verus! {

/// A pixel layout: a fixed number of 8-bit channels, and the pixel that stands
/// for each state of a module.
pub trait Pixel: Copy + Sized {
    /// How many bytes a pixel of this layout takes.
    spec fn spec_channel_count() -> nat;

    /// The bytes of this pixel, one per channel, in the order of the layout.
    spec fn spec_channels(&self) -> Seq<u8>;

    /// The pixel that stands for a state: every intensity channel holds
    /// `color.spec_select(0, 255)`, and an alpha channel is fully opaque.
    spec fn spec_default_color(color: Color) -> Self;

    /// Every pixel of a layout has the layout's number of channels, which is
    /// at least one.
    proof fn lemma_channel_count(&self)
        ensures
            Self::spec_channel_count() > 0,
            self.spec_channels().len() == Self::spec_channel_count(),
    ;

    /// Makes the pixel that stands for a state.
    fn default_color(color: Color) -> (pixel: Self)
        ensures
            pixel == Self::spec_default_color(color),
    ;

    /// Hands out the bytes of this pixel.
    fn channels(&self) -> (bytes: &[u8])
        ensures
            bytes@ == self.spec_channels(),
    ;
}

/// Which block of `size` pixels a pixel lies in: pixel `x` lies in block
/// `block` exactly if it is one of the `size` pixels that start at
/// `block * size`.
pub proof fn lemma_block_of_pixel(x: int, block: int, size: int)
    requires
        0 < size,
    ensures
        x / size == block <==> block * size <= x < block * size + size,
{
    vstd::arithmetic::div_mod::lemma_fundamental_div_mod(x, size);
    vstd::arithmetic::div_mod::lemma_mod_bound(x, size);
    assert(size * (x / size) == (x / size) * size) by (nonlinear_arith);
    if block * size <= x < block * size + size {
        vstd::arithmetic::div_mod::lemma_fundamental_div_mod_converse(
            x,
            size,
            block,
            x - block * size,
        );
    }
}

/// Renders a matrix of modules, with a margin of light modules around it, as
/// an image of pixels of layout `P`.
pub struct Renderer<'a, P: Pixel> {
    content: &'a [Color],
    width: u32,
    height: u32,
    margin: u32,
    policy: SizingPolicy,
    layout: PhantomData<P>,
}

impl<'a, P: Pixel> Renderer<'a, P> {
    /// The modules of the matrix, row by row from the top, each row from the
    /// left.
    pub closed spec fn modules(&self) -> Seq<Color> {
        self.content@
    }

    /// The number of columns of the matrix.
    pub closed spec fn width(&self) -> u32 {
        self.width
    }

    /// The number of rows of the matrix.
    pub closed spec fn height(&self) -> u32 {
        self.height
    }

    /// The number of light modules added on each of the four sides.
    pub closed spec fn margin(&self) -> u32 {
        self.margin
    }

    /// The sizing policy in force.
    pub closed spec fn policy(&self) -> SizingPolicy {
        self.policy
    }

    /// A renderer holds a matrix with at least one column and one row, and
    /// one module for each column of each row.
    #[verifier::type_invariant]
    pub open spec fn wf(&self) -> bool {
        &&& self.width() > 0
        &&& self.height() > 0
        &&& self.modules().len() == self.width() * self.height()
    }

    /// The number of columns of the grid with its margins.
    pub open spec fn logical_width(&self) -> int {
        self.width() + 2 * self.margin()
    }

    /// The number of rows of the grid with its margins.
    pub open spec fn logical_height(&self) -> int {
        self.height() + 2 * self.margin()
    }

    /// The number of pixels that a module takes horizontally.
    pub open spec fn scale_width(&self) -> int {
        self.policy().scale(self.logical_width(), self.logical_height()).0
    }

    /// The number of pixels that a module takes vertically.
    pub open spec fn scale_height(&self) -> int {
        self.policy().scale(self.logical_width(), self.logical_height()).1
    }

    /// The number of columns of the image.
    pub open spec fn image_width(&self) -> int {
        self.logical_width() * self.scale_width()
    }

    /// The number of rows of the image.
    pub open spec fn image_height(&self) -> int {
        self.logical_height() * self.scale_height()
    }

    /// The module in column `col` of row `row` of the grid with its margins.
    /// Every module of the margin is light.
    pub open spec fn module_at(&self, col: int, row: int) -> Color {
        if self.margin() <= col < self.margin() + self.width() && self.margin()
            <= row < self.margin() + self.height() {
            self.modules()[(row - self.margin()) * self.width() + (col
                - self.margin())]
        } else {
            Color::Light
        }
    }

    /// The pixel in column `x` of row `y` of the image: the dark pixel of the
    /// layout where the module that covers it is dark, and its light pixel
    /// under every other module.
    pub open spec fn pixel_at(&self, x: int, y: int) -> P {
        if self.module_at(x / self.scale_width(), y / self.scale_height()) == Color::Dark {
            P::spec_default_color(Color::Dark)
        } else {
            P::spec_default_color(Color::Light)
        }
    }

    /// The pixels of the image in row-major order.
    pub open spec fn rendered(&self) -> Seq<P> {
        Seq::new(
            (self.image_width() * self.image_height()) as nat,
            |i: int| self.pixel_at(i % self.image_width(), i / self.image_width()),
        )
    }

    /// What `build` may return: for a valid policy the image, and else the
    /// error.
    pub open spec fn builds(&self, result: Result<Image<P>, RenderError>) -> bool {
        match result {
            Ok(image) => {
                &&& self.policy().valid()
                &&& image.wf()
                &&& image.width() == self.image_width()
                &&& image.height() == self.image_height()
                &&& image@ == self.rendered()
            },
            Err(error) => !self.policy().valid() && error == RenderError::InvalidDimensions,
        }
    }

    /// A renderer for the `width` by `height` matrix `content`, with `margin`
    /// light modules on each side. Until a sizing method is called, each
    /// module takes one pixel. A matrix without columns or rows, or whose
    /// number of modules is not `width * height`, is refused.
    pub fn new(content: &'a [Color], width: u32, height: u32, margin: u32) -> (renderer: Result<
        Self,
        RenderError,
    >)
        ensures
            renderer is Ok <==> width > 0 && height > 0 && content@.len() == width * height,
            renderer matches Err(error) ==> error == RenderError::InvalidMatrix,
            renderer matches Ok(r) ==> {
                &&& r.wf()
                &&& r.modules() == content@
                &&& r.width() == width
                &&& r.height() == height
                &&& r.margin() == margin
                &&& r.policy() == SizingPolicy::FixedModuleSize(1, 1)
            },
    {
        if width == 0 || height == 0 {
            return Err(RenderError::InvalidMatrix);
        }
        assert(width * height <= u64::MAX) by (nonlinear_arith)
            requires
                width <= u32::MAX,
                height <= u32::MAX,
        ;
        let count: u64 = (width as u64) * (height as u64);
        if content.len() as u64 != count {
            return Err(RenderError::InvalidMatrix);
        }
        Ok(
            Renderer {
                content,
                width,
                height,
                margin,
                policy: SizingPolicy::FixedModuleSize(1, 1),
                layout: PhantomData,
            },
        )
    }

    /// Gives each module exactly `width` by `height` pixels. This replaces any
    /// policy set before.
    pub fn module_dimensions(&mut self, width: u32, height: u32) -> (renderer: &mut Self)
        ensures
            renderer.same_matrix(old(self)),
            renderer.policy() == SizingPolicy::FixedModuleSize(width, height),
            *final(renderer) == *final(self),
    {
        proof {
            use_type_invariant(&*self);
        }
        self.policy = SizingPolicy::FixedModuleSize(width, height);
        self
    }

    /// Asks for the smallest image of at least `width` by `height` pixels.
    /// This replaces any policy set before.
    pub fn min_dimensions(&mut self, width: u32, height: u32) -> (renderer: &mut Self)
        ensures
            renderer.same_matrix(old(self)),
            renderer.policy() == SizingPolicy::MinimumOverallSize(width, height),
            *final(renderer) == *final(self),
    {
        proof {
            use_type_invariant(&*self);
        }
        self.policy = SizingPolicy::MinimumOverallSize(width, height);
        self
    }

    /// Asks for the largest image of at most `width` by `height` pixels, as
    /// far as one pixel per module fits. This replaces any policy set before.
    pub fn max_dimensions(&mut self, width: u32, height: u32) -> (renderer: &mut Self)
        ensures
            renderer.same_matrix(old(self)),
            renderer.policy() == SizingPolicy::MaximumOverallSize(width, height),
            *final(renderer) == *final(self),
    {
        proof {
            use_type_invariant(&*self);
        }
        self.policy = SizingPolicy::MaximumOverallSize(width, height);
        self
    }

    /// Whether two renderers hold the same matrix and margin.
    pub open spec fn same_matrix(&self, other: &Self) -> bool {
        &&& self.modules() == other.modules()
        &&& self.width() == other.width()
        &&& self.height() == other.height()
        &&& self.margin() == other.margin()
    }

    /// The number of pixels that a module takes, horizontally and vertically,
    /// under the policy in force. It fails where the policy is not valid.
    pub fn resolved_scale(&self) -> (result: Result<(u32, u32), RenderError>)
        ensures
            result is Ok <==> self.policy().valid(),
            result matches Ok(scale) ==> {
                &&& scale.0 == self.scale_width()
                &&& scale.1 == self.scale_height()
                &&& scale.0 > 0
                &&& scale.1 > 0
            },
            result matches Err(error) ==> error == RenderError::InvalidDimensions,
    {
        proof {
            use_type_invariant(self);
        }
        let logical_width: u64 = self.width as u64 + 2 * (self.margin as u64);
        let logical_height: u64 = self.height as u64 + 2 * (self.margin as u64);
        self.policy.resolve(logical_width, logical_height)
    }

    /// The pixel in column `x` of row `y` once the first `done` modules of
    /// the matrix, in row-major order, have been painted.
    spec fn painted_pixel(&self, x: int, y: int, done: int) -> P {
        let col = x / self.scale_width() - self.margin();
        let row = y / self.scale_height() - self.margin();
        if 0 <= col < self.width() && 0 <= row < self.height() && row * self.width()
            + col < done && self.modules()[row * self.width() + col] == Color::Dark {
            P::spec_default_color(Color::Dark)
        } else {
            P::spec_default_color(Color::Light)
        }
    }

    /// The canvas once the first `done` modules have been painted.
    spec fn painted(&self, done: int) -> Seq<P> {
        Seq::new(
            (self.image_width() * self.image_height()) as nat,
            |i: int| self.painted_pixel(i % self.image_width(), i / self.image_width(), done),
        )
    }

    /// Before any module is painted the canvas is light all over.
    proof fn lemma_painted_none(&self, canvas: Seq<P>)
        requires
            self.wf(),
            canvas == Seq::new(
                (self.image_width() * self.image_height()) as nat,
                |i: int| P::spec_default_color(Color::Light),
            ),
        ensures
            canvas == self.painted(0),
    {
        let w = self.width() as int;
        assert forall|i: int| 0 <= i < canvas.len() implies canvas[i] == self.painted(0)[i] by {
            let col = (i % self.image_width()) / self.scale_width() - self.margin();
            let row = (i / self.image_width()) / self.scale_height() - self.margin();
            if 0 <= col < w && 0 <= row {
                assert(row * w + col >= 0) by (nonlinear_arith)
                    requires
                        0 <= col,
                        0 <= row,
                        0 < w,
                ;
            }
        }
        assert(canvas =~= self.painted(0));
    }

    /// Painting the next module: where it is dark its block of pixels turns
    /// dark, and where it is not nothing changes.
    proof fn lemma_painted_next(&self, col: int, row: int, before: Seq<P>, after: Seq<P>)
        requires
            self.wf(),
            self.scale_width() > 0,
            self.scale_height() > 0,
            0 <= col < self.width(),
            0 <= row < self.height(),
            before == self.painted(row * self.width() + col),
            self.modules()[row * self.width() + col] == Color::Dark ==> after
                == with_dark_rect(
                before,
                self.image_width(),
                (col + self.margin()) * self.scale_width(),
                (row + self.margin()) * self.scale_height(),
                self.scale_width(),
                self.scale_height(),
                P::spec_default_color(Color::Dark),
            ),
            self.modules()[row * self.width() + col] != Color::Dark ==> after == before,
        ensures
            after == self.painted(row * self.width() + col + 1),
    {
        let w = self.width() as int;
        let h = self.height() as int;
        let m = self.margin() as int;
        let sw = self.scale_width();
        let sh = self.scale_height();
        let iw = self.image_width();
        let done = row * w + col;
        lemma_cell_index(col, row, w, h);
        assert forall|i: int| 0 <= i < before.len() implies after[i] == self.painted(done + 1)[i] by {
            let x = i % iw;
            let y = i / iw;
            let c = x / sw - m;
            let r = y / sh - m;
            lemma_block_of_pixel(x, col + m, sw);
            lemma_block_of_pixel(y, row + m, sh);
            if 0 <= c < w && 0 <= r < h {
                lemma_cell_index(c, r, w, h);
            }
        }
        assert(after =~= self.painted(done + 1));
    }

    /// Once every module has been painted the canvas holds the image.
    proof fn lemma_painted_all(&self)
        requires
            self.wf(),
        ensures
            self.painted(self.height() * self.width()) == self.rendered(),
    {
        let w = self.width() as int;
        let h = self.height() as int;
        let m = self.margin() as int;
        let all = self.painted(h * w);
        assert(h * w == w * h) by (nonlinear_arith);
        assert forall|i: int| 0 <= i < all.len() implies all[i] == self.rendered()[i] by {
            let c = (i % self.image_width()) / self.scale_width() - m;
            let r = (i / self.image_width()) / self.scale_height() - m;
            if 0 <= c < w && 0 <= r < h {
                lemma_cell_index(c, r, w, h);
            }
        }
        assert(all =~= self.rendered());
    }

    /// Builds the image: a canvas of `image_width()` by `image_height()`
    /// pixels, light all over, on which the block of each dark module is then
    /// painted dark. It fails, before any canvas is made, where the policy is
    /// not valid. The size of the image has to fit the type of its
    /// dimensions.
    pub fn build(&self) -> (result: Result<Image<P>, RenderError>)
        requires
            self.policy().valid() ==> self.image_width() <= u32::MAX && self.image_height()
                <= u32::MAX,
        ensures
            self.builds(result),
    {
        proof {
            use_type_invariant(self);
        }
        let (scale_w, scale_h) = match self.resolved_scale() {
            Ok(scale) => scale,
            Err(error) => {
                return Err(error);
            },
        };
        let ghost lw = self.logical_width();
        let ghost lh = self.logical_height();
        proof {
            assert(lw <= lw * scale_w && lh <= lh * scale_h) by (nonlinear_arith)
                requires
                    scale_w >= 1,
                    scale_h >= 1,
                    lw >= 1,
                    lh >= 1,
            ;
        }
        let image_width: u32 = (self.width + 2 * self.margin) * scale_w;
        let image_height: u32 = (self.height + 2 * self.margin) * scale_h;
        assert(image_width > 0 && image_height > 0);
        let dark = P::default_color(Color::Dark);
        let light = P::default_color(Color::Light);
        let mut canvas = match Canvas::new(image_width, image_height, dark, light) {
            Ok(canvas) => canvas,
            // Not taken: the image has at least one column and one row.
            Err(error) => {
                return Err(error);
            },
        };
        proof {
            self.lemma_painted_none(canvas@);
        }
        let mut index: usize = 0;
        let mut row: u32 = 0;
        while row < self.height
            invariant
                self.wf(),
                row <= self.height,
                index == row * self.width,
                scale_w == self.scale_width(),
                scale_h == self.scale_height(),
                scale_w > 0,
                scale_h > 0,
                lw == self.logical_width(),
                lh == self.logical_height(),
                lw <= image_width,
                lh <= image_height,
                image_width == self.image_width(),
                image_height == self.image_height(),
                canvas.wf(),
                canvas.width() == image_width,
                canvas.height() == image_height,
                canvas.dark_pixel() == P::spec_default_color(Color::Dark),
                canvas@ == self.painted(row * self.width),
            decreases self.height - row,
        {
            let mut col: u32 = 0;
            while col < self.width
                invariant
                    self.wf(),
                    row < self.height,
                    col <= self.width,
                    index == row * self.width + col,
                    scale_w == self.scale_width(),
                    scale_h == self.scale_height(),
                    scale_w > 0,
                    scale_h > 0,
                    lw == self.logical_width(),
                    lh == self.logical_height(),
                    lw <= image_width,
                    lh <= image_height,
                    image_width == self.image_width(),
                    image_height == self.image_height(),
                    canvas.wf(),
                    canvas.width() == image_width,
                    canvas.height() == image_height,
                    canvas.dark_pixel() == P::spec_default_color(Color::Dark),
                    canvas@ == self.painted(row * self.width + col),
                decreases self.width - col,
            {
                let ghost before = canvas@;
                proof {
                    lemma_cell_index(
                        col as int,
                        row as int,
                        self.width as int,
                        self.height as int,
                    );
                }
                match self.content[index] {
                    Color::Dark => {
                        proof {
                            let c = col + self.margin;
                            let r = row + self.margin;
                            assert(0 <= c * scale_w && c * scale_w + scale_w <= lw * scale_w)
                                by (nonlinear_arith)
                                requires
                                    0 <= c < lw,
                                    0 < scale_w,
                            ;
                            assert(0 <= r * scale_h && r * scale_h + scale_h <= lh * scale_h)
                                by (nonlinear_arith)
                                requires
                                    0 <= r < lh,
                                    0 < scale_h,
                            ;
                        }
                        let left: u32 = (col + self.margin) * scale_w;
                        let top: u32 = (row + self.margin) * scale_h;
                        canvas.draw_dark_rect(left, top, scale_w, scale_h);
                    },
                    _ => {},
                }
                proof {
                    self.lemma_painted_next(col as int, row as int, before, canvas@);
                }
                index += 1;
                col += 1;
            }
            proof {
                assert((row + 1) * self.width == row * self.width + self.width)
                    by (nonlinear_arith);
            }
            row += 1;
        }
        proof {
            self.lemma_painted_all();
        }
        Ok(canvas.into_image())
    }

    /// Under every valid policy a module takes at least one pixel on each
    /// axis, so the image has at least one column and one row.
    pub proof fn lemma_scale_is_positive(&self)
        requires
            self.wf(),
            self.policy().valid(),
        ensures
            self.scale_width() >= 1,
            self.scale_height() >= 1,
            self.image_width() >= self.logical_width() >= 1,
            self.image_height() >= self.logical_height() >= 1,
    {
        let lw = self.logical_width();
        let lh = self.logical_height();
        let sw = self.scale_width();
        let sh = self.scale_height();
        assert(lw * sw >= lw && lh * sh >= lh) by (nonlinear_arith)
            requires
                lw >= 1,
                lh >= 1,
                sw >= 1,
                sh >= 1,
        ;
    }

    /// Under a minimum size the image is at least that large on each axis,
    /// and with one pixel per module less on an axis it would be smaller
    /// than asked for on that axis.
    pub proof fn lemma_min_dimensions(&self, width: u32, height: u32)
        requires
            self.wf(),
            self.policy() == SizingPolicy::MinimumOverallSize(width, height),
        ensures
            self.scale_width() >= 1,
            self.scale_height() >= 1,
            self.image_width() >= width,
            self.image_height() >= height,
            self.scale_width() > 1 ==> self.logical_width() * (self.scale_width() - 1) < width,
            self.scale_height() > 1 ==> self.logical_height() * (self.scale_height() - 1) < height,
    {
        lemma_min_fit_scale(width as int, self.logical_width());
        lemma_min_fit_scale(height as int, self.logical_height());
    }

    /// Under a maximum size the image stays within the size on each axis
    /// that has room for one pixel per module, and with one pixel per module
    /// more on that axis it would not. On an axis without that room a module
    /// takes one pixel.
    pub proof fn lemma_max_dimensions(&self, width: u32, height: u32)
        requires
            self.wf(),
            self.policy() == SizingPolicy::MaximumOverallSize(width, height),
        ensures
            self.scale_width() >= 1,
            self.scale_height() >= 1,
            width >= self.logical_width() ==> self.image_width() <= width < self.logical_width()
                * (self.scale_width() + 1),
            height >= self.logical_height() ==> self.image_height() <= height
                < self.logical_height() * (self.scale_height() + 1),
            width < self.logical_width() ==> self.scale_width() == 1,
            height < self.logical_height() ==> self.scale_height() == 1,
    {
        lemma_max_fit_scale(width as int, self.logical_width());
        lemma_max_fit_scale(height as int, self.logical_height());
    }

    /// The pixel in column `x` of row `y` of the image is the one that
    /// `pixel_at` names.
    pub proof fn lemma_rendered_pixel(&self, x: int, y: int)
        requires
            self.wf(),
            self.policy().valid(),
            0 <= x < self.image_width(),
            0 <= y < self.image_height(),
        ensures
            0 <= y * self.image_width() + x < self.rendered().len(),
            self.rendered()[y * self.image_width() + x] == self.pixel_at(x, y),
    {
        lemma_cell_index(x, y, self.image_width(), self.image_height());
    }

    /// Every pixel that lies under a module of the margin is the light pixel,
    /// whatever the matrix holds.
    pub proof fn lemma_margin_is_light(&self, x: int, y: int)
        requires
            self.wf(),
            self.policy().valid(),
            0 <= x < self.image_width(),
            0 <= y < self.image_height(),
            ({
                let col = x / self.scale_width();
                let row = y / self.scale_height();
                ||| col < self.margin()
                ||| col >= self.margin() + self.width()
                ||| row < self.margin()
                ||| row >= self.margin() + self.height()
            }),
        ensures
            self.rendered()[y * self.image_width() + x] == P::spec_default_color(Color::Light),
    {
        self.lemma_rendered_pixel(x, y);
    }

    /// Building is repeatable: whatever `build` returns for a renderer, it
    /// returns the same the next time, down to the bytes of the image.
    pub proof fn lemma_build_is_repeatable(
        &self,
        first: Result<Image<P>, RenderError>,
        second: Result<Image<P>, RenderError>,
    )
        requires
            self.builds(first),
            self.builds(second),
        ensures
            match (first, second) {
                (Ok(a), Ok(b)) => {
                    &&& a.width() == b.width()
                    &&& a.height() == b.height()
                    &&& a@ == b@
                    &&& raster_bytes(a@) == raster_bytes(b@)
                },
                (Err(a), Err(b)) => a == b,
                _ => false,
            },
    {
    }
}

} // verus!
