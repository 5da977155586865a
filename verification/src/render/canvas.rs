//! The surface that the renderer paints on.

use vstd::prelude::*;
use crate::render::image::{lemma_cell_index, lemma_index_cell, Image};
use crate::render::Pixel;
use crate::types::RenderError;

verus! {

/// A raster that starts out light all over and on which pixels can only be
/// turned dark.
pub struct Canvas<P: Pixel> {
    dark: P,
    image: Image<P>,
}

impl<P: Pixel> View for Canvas<P> {
    type V = Seq<P>;

    /// The pixels in row-major order.
    closed spec fn view(&self) -> Seq<P> {
        self.image@
    }
}

/// What a run of row-major pixels, `canvas_width` to a row, holds after the
/// `width` by `height` rectangle whose top left corner is in column `left` of
/// row `top` has been filled with `dark`.
pub open spec fn with_dark_rect<P>(
    pixels: Seq<P>,
    canvas_width: int,
    left: int,
    top: int,
    width: int,
    height: int,
    dark: P,
) -> Seq<P> {
    Seq::new(
        pixels.len(),
        |i: int|
            if left <= i % canvas_width < left + width && top <= i / canvas_width < top + height {
                dark
            } else {
                pixels[i]
            },
    )
}

/// The order in which two pixels are painted makes no difference to what
/// the canvas holds afterwards.
pub proof fn lemma_paint_order<P>(pixels: Seq<P>, first: int, second: int, dark: P)
    requires
        0 <= first < pixels.len(),
        0 <= second < pixels.len(),
    ensures
        pixels.update(first, dark).update(second, dark) == pixels.update(second, dark).update(
            first,
            dark,
        ),
{
}

impl<P: Pixel> Canvas<P> {
    /// The number of columns.
    pub closed spec fn width(&self) -> u32 {
        self.image.width()
    }

    /// The number of rows.
    pub closed spec fn height(&self) -> u32 {
        self.image.height()
    }

    /// The pixel that painting writes.
    pub closed spec fn dark_pixel(&self) -> P {
        self.dark
    }

    /// A canvas has at least one column and one row, and one pixel for each
    /// column of each row.
    #[verifier::type_invariant]
    pub open spec fn wf(&self) -> bool {
        &&& self.width() > 0
        &&& self.height() > 0
        &&& self@.len() == self.width() * self.height()
    }

    /// The pixel in column `x` of row `y`.
    pub open spec fn pixel(&self, x: int, y: int) -> P
        recommends
            0 <= x < self.width(),
            0 <= y < self.height(),
    {
        self@[y * self.width() + x]
    }

    /// A canvas of the given size, light all over. A canvas without columns
    /// or without rows is refused.
    pub fn new(width: u32, height: u32, dark_pixel: P, light_pixel: P) -> (canvas: Result<
        Self,
        RenderError,
    >)
        ensures
            canvas is Err <==> width == 0 || height == 0,
            canvas matches Err(error) ==> error == RenderError::InvalidDimensions,
            canvas matches Ok(c) ==> {
                &&& c.wf()
                &&& c.width() == width
                &&& c.height() == height
                &&& c.dark_pixel() == dark_pixel
                &&& c@ == Seq::new((width * height) as nat, |i: int| light_pixel)
            },
    {
        if width == 0 || height == 0 {
            return Err(RenderError::InvalidDimensions);
        }
        let image = Image::from_pixel(width, height, light_pixel);
        Ok(Canvas { dark: dark_pixel, image })
    }

    /// Turns the pixel in column `x` of row `y` dark. No other pixel changes.
    pub fn draw_dark_pixel(&mut self, x: u32, y: u32)
        requires
            x < old(self).width(),
            y < old(self).height(),
        ensures
            final(self).wf(),
            final(self).width() == old(self).width(),
            final(self).height() == old(self).height(),
            final(self).dark_pixel() == old(self).dark_pixel(),
            final(self)@ == old(self)@.update(
                y * old(self).width() + x,
                old(self).dark_pixel(),
            ),
    {
        proof {
            use_type_invariant(&*self);
        }
        self.image.put_pixel(x, y, self.dark);
    }

    /// Turns dark the `width` by `height` rectangle whose top left corner is
    /// in column `left` of row `top`. No pixel outside it changes.
    pub fn draw_dark_rect(&mut self, left: u32, top: u32, width: u32, height: u32)
        requires
            left + width <= old(self).width(),
            top + height <= old(self).height(),
        ensures
            final(self).wf(),
            final(self).width() == old(self).width(),
            final(self).height() == old(self).height(),
            final(self).dark_pixel() == old(self).dark_pixel(),
            final(self)@ == with_dark_rect(
                old(self)@,
                old(self).width() as int,
                left as int,
                top as int,
                width as int,
                height as int,
                old(self).dark_pixel(),
            ),
    {
        proof {
            use_type_invariant(&*self);
        }
        let ghost before = self@;
        let ghost cw = self.width() as int;
        let ghost ch = self.height() as int;
        let ghost dark = self.dark_pixel();
        let mut y: u32 = top;
        while y < top + height
            invariant
                top <= y <= top + height,
                left + width <= cw,
                top + height <= ch,
                self.wf(),
                self.width() == cw,
                self.height() == ch,
                self.dark_pixel() == dark,
                self@ == with_dark_rect(
                    before,
                    cw,
                    left as int,
                    top as int,
                    width as int,
                    y - top,
                    dark,
                ),
            decreases top + height - y,
        {
            let ghost row_start = self@;
            let mut x: u32 = left;
            while x < left + width
                invariant
                    left <= x <= left + width,
                    top <= y < top + height,
                    left + width <= cw,
                    top + height <= ch,
                    self.wf(),
                    self.width() == cw,
                    self.height() == ch,
                    self.dark_pixel() == dark,
                    self@ == with_dark_rect(row_start, cw, left as int, y as int, x - left, 1, dark),
                decreases left + width - x,
            {
                let ghost prev = self@;
                self.draw_dark_pixel(x, y);
                proof {
                    lemma_cell_index(x as int, y as int, cw, ch);
                    assert forall|i: int| 0 <= i < prev.len() implies (#[trigger] self@[i])
                        == with_dark_rect(
                        row_start,
                        cw,
                        left as int,
                        y as int,
                        x + 1 - left,
                        1,
                        dark,
                    )[i] by {
                        lemma_index_cell(i, cw, ch);
                    }
                }
                x += 1;
            }
            proof {
                assert forall|i: int| 0 <= i < before.len() implies (#[trigger] self@[i])
                    == with_dark_rect(
                    before,
                    cw,
                    left as int,
                    top as int,
                    width as int,
                    y + 1 - top,
                    dark,
                )[i] by {}
            }
            y += 1;
        }
    }

    /// Gives up the canvas for the image that was painted on it.
    pub fn into_image(self) -> (image: Image<P>)
        ensures
            image.wf(),
            image.width() == self.width(),
            image.height() == self.height(),
            image@ == self@,
    {
        proof {
            use_type_invariant(&self);
        }
        self.image
    }
}

} // verus!
