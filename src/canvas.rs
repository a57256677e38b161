use vstd::prelude::*;
use image::RgbImage;

verus! {

/// An 8-bit RGB color: red, green, blue.
pub type Color = (u8, u8, u8);

/// An RGB image with 8 bits per channel, stored in an `image::RgbImage`.
/// Verus does not see inside it: its pixels are `canvas_rows` and its width
/// `canvas_width`, and only the methods below read or change them.
#[verifier::external_body]
pub struct Canvas {
    img: RgbImage,
}

/// The rows of a canvas, top row first, each row from left to right.
pub uninterp spec fn canvas_rows(c: Canvas) -> Seq<Seq<Color>>;

/// The width a canvas was made with.
pub uninterp spec fn canvas_width(c: Canvas) -> nat;

/// The pixels that `width * height` pixels of raw row-major RGB bytes describe.
pub open spec fn rows_of_raw(width: nat, height: nat, raw: Seq<u8>) -> Seq<Seq<Color>> {
    Seq::new(
        height,
        |y: int|
            Seq::new(
                width,
                |x: int|
                    {
                        let i = 3 * (y * width + x);
                        (raw[i], raw[i + 1], raw[i + 2])
                    },
            ),
    )
}

impl Canvas {
    /// The number of pixels in each row.
    pub open spec fn width_spec(&self) -> nat {
        canvas_width(*self)
    }

    /// The number of rows.
    pub open spec fn height_spec(&self) -> nat {
        canvas_rows(*self).len()
    }

    /// The pixel in column `x` of row `y`, row 0 at the top.
    pub open spec fn pixel(&self, x: int, y: int) -> Color {
        canvas_rows(*self)[y][x]
    }

    /// Relies on `ImageBuffer::from_pixel`: a `width` by `height` image with
    /// every pixel set to `c`.
    #[verifier::external_body]
    pub(crate) fn filled(width: u32, height: u32, c: Color) -> (r: Canvas)
        requires
            3 * width <= usize::MAX,
            3 * width * height <= usize::MAX,
        ensures
            canvas_width(r) == width && canvas_rows(r) == Seq::new(
                height as nat,
                |y: int| Seq::new(width as nat, |x: int| c),
            ),
    {
        Canvas { img: RgbImage::from_pixel(width, height, image::Rgb([c.0, c.1, c.2])) }
    }

    /// Relies on `ImageBuffer::from_raw`: an image over row-major RGB bytes,
    /// made when the bytes hold at least `width * height` pixels.
    #[verifier::external_body]
    pub(crate) fn from_raw(width: u32, height: u32, raw: Vec<u8>) -> (r: Option<Canvas>)
        ensures
            r is Some <==> (3 * width <= usize::MAX && 3 * width * height <= usize::MAX && 3 * width
                * height <= raw@.len()),
            r matches Some(c) ==> canvas_width(c) == width && canvas_rows(c) == rows_of_raw(
                width as nat,
                height as nat,
                raw@,
            ),
    {
        RgbImage::from_raw(width, height, raw).map(|img| Canvas { img })
    }

    /// Relies on `ImageBuffer::into_raw`: the bytes the image was stored in.
    #[verifier::external_body]
    pub(crate) fn into_raw(self) -> (r: Vec<u8>)
        ensures
            rows_of_raw(canvas_width(self), canvas_rows(self).len(), r@) == canvas_rows(self) && 3
                * canvas_width(self) * canvas_rows(self).len() <= r@.len(),
    {
        self.img.into_raw()
    }

    /// Relies on `ImageBuffer::dimensions`: the width and the number of rows,
    /// each row holding `width` pixels.
    #[verifier::external_body]
    pub(crate) fn dimensions(&self) -> (r: (u32, u32))
        ensures
            r.0 == canvas_width(*self) && r.1 == canvas_rows(*self).len() && forall|y: int|
                0 <= y < r.1 ==> #[trigger] canvas_rows(*self)[y].len() == r.0,
    {
        self.img.dimensions()
    }

    /// Relies on `ImageBuffer::get_pixel`: the pixel in column `x` of row `y`.
    #[verifier::external_body]
    pub(crate) fn get_pixel(&self, x: u32, y: u32) -> (r: Color)
        requires
            x < canvas_width(*self),
            y < canvas_rows(*self).len(),
        ensures
            r == canvas_rows(*self)[y as int][x as int],
    {
        let p = self.img.get_pixel(x, y);
        (p[0], p[1], p[2])
    }

    /// Relies on `ImageBuffer::put_pixel`: replaces the pixel in column `x`
    /// of row `y` and no other.
    #[verifier::external_body]
    pub(crate) fn put_pixel(&mut self, x: u32, y: u32, c: Color)
        requires
            x < canvas_width(*old(self)),
            y < canvas_rows(*old(self)).len(),
        ensures
            canvas_width(*final(self)) == canvas_width(*old(self)),
            canvas_rows(*final(self)) == canvas_rows(*old(self)).update(
                y as int,
                canvas_rows(*old(self))[y as int].update(x as int, c),
            ),
    {
        self.img.put_pixel(x, y, image::Rgb([c.0, c.1, c.2]))
    }
}

/// Every row of the canvas holds `width` pixels.
pub open spec fn canvas_wf(c: Canvas) -> bool {
    forall|y: int| 0 <= y < canvas_rows(c).len() ==> #[trigger] canvas_rows(c)[y].len() == canvas_width(c)
}

impl Canvas {
    /// A `width` by `height` canvas filled with `background`, or `None`
    /// where its bytes would not fit in memory.
    pub fn new(width: u32, height: u32, background: Color) -> (r: Option<Canvas>)
        ensures
            r is Some <==> (3 * width <= usize::MAX && 3 * width * height <= usize::MAX),
            r matches Some(c) ==> canvas_width(c) == width && canvas_rows(c) == Seq::new(
                height as nat,
                |y: int| Seq::new(width as nat, |x: int| background),
            ),
    {
        assert(3 * width * height <= 3 * 0xffff_ffff * 0xffff_ffff) by (nonlinear_arith)
            requires
                width <= 0xffff_ffff,
                height <= 0xffff_ffff,
        ;
        let row: u128 = 3 * width as u128;
        let n: u128 = row * height as u128;
        if row <= usize::MAX as u128 && n <= usize::MAX as u128 {
            Some(Canvas::filled(width, height, background))
        } else {
            None
        }
    }

    /// A canvas over `width * height` pixels of row-major RGB bytes, or
    /// `None` where `raw` holds fewer.
    pub fn from_rgb_bytes(width: u32, height: u32, raw: Vec<u8>) -> (r: Option<Canvas>)
        ensures
            r is Some <==> (3 * width <= usize::MAX && 3 * width * height <= usize::MAX && 3 * width
                * height <= raw@.len()),
            r matches Some(c) ==> canvas_width(c) == width && canvas_rows(c) == rows_of_raw(
                width as nat,
                height as nat,
                raw@,
            ),
    {
        Canvas::from_raw(width, height, raw)
    }

    /// The canvas's pixels as row-major RGB bytes.
    pub fn into_rgb_bytes(self) -> (r: Vec<u8>)
        ensures
            rows_of_raw(canvas_width(self), canvas_rows(self).len(), r@) == canvas_rows(self),
            3 * canvas_width(self) * canvas_rows(self).len() <= r@.len(),
    {
        self.into_raw()
    }

    /// The number of pixels in each row.
    pub fn width(&self) -> (r: u32)
        ensures
            r == canvas_width(*self),
    {
        self.dimensions().0
    }

    /// The number of rows, each of which holds `width` pixels.
    pub fn height(&self) -> (r: u32)
        ensures
            r == canvas_rows(*self).len(),
            canvas_wf(*self),
    {
        self.dimensions().1
    }

    /// The pixel in column `x` of row `y` (row 0 at the top), or `None`
    /// outside the canvas.
    pub fn pixel_at(&self, x: u32, y: u32) -> (r: Option<Color>)
        ensures
            r is Some <==> (x < canvas_width(*self) && y < canvas_rows(*self).len()),
            r matches Some(c) ==> c == canvas_rows(*self)[y as int][x as int],
    {
        let (w, h) = self.dimensions();
        if x < w && y < h {
            Some(self.get_pixel(x, y))
        } else {
            None
        }
    }
}

} // verus!
