//! RGBA pixel buffers, kept in an `image::RgbaImage`.
use vstd::prelude::*;

verus! {

/// An RGBA image of the `image` crate (`RgbaImage`).
#[verifier::external_body]
pub struct Canvas {
    img: image::RgbaImage,
}

/// The pixels of a canvas, by `(x, y)`, as `(red, green, blue, alpha)`.
pub uninterp spec fn canvas_pixels(c: Canvas) -> Map<(u32, u32), (u8, u8, u8, u8)>;

/// The width and height that a canvas was made with.
pub uninterp spec fn canvas_size(c: Canvas) -> (u32, u32);

/// The pixels of a `w`×`h` image with every pixel transparent black.
pub open spec fn blank_pixels(w: u32, h: u32) -> Map<(u32, u32), (u8, u8, u8, u8)> {
    Map::new(|p: (u32, u32)| p.0 < w && p.1 < h, |p: (u32, u32)| (0u8, 0u8, 0u8, 0u8))
}

/// One channel (0 red, 1 green, 2 blue, 3 alpha) of a pixel.
pub open spec fn channel(px: (u8, u8, u8, u8), i: int) -> u8 {
    if i == 0 {
        px.0
    } else if i == 1 {
        px.1
    } else if i == 2 {
        px.2
    } else {
        px.3
    }
}

/// The bytes of a `w`×`h` image, row by row from the top, each pixel as
/// red, green, blue and alpha.
pub open spec fn raw_rgba(pixels: Map<(u32, u32), (u8, u8, u8, u8)>, w: u32, h: u32) -> Seq<u8> {
    Seq::new(
        (w * h * 4) as nat,
        |k: int| channel(pixels[(((k / 4) % (w as int)) as u32, ((k / 4) / (w as int)) as u32)], k % 4),
    )
}

/// `ImageBuffer::new`: a `w`×`h` image whose pixels are all zero. It
/// computes the buffer's length as `4 * w`, then times `h`, and panics when
/// either product overflows `usize`; `requires` leaves those sizes out.
#[verifier::external_body]
pub(crate) fn canvas_new(w: u32, h: u32) -> (c: Canvas)
    requires
        4 * (w as int) <= usize::MAX,
        4 * (w as int) * (h as int) <= usize::MAX,
    ensures
        canvas_size(c) == (w, h),
        canvas_pixels(c) == blank_pixels(w, h),
{
    Canvas { img: image::RgbaImage::new(w, h) }
}

/// `ImageBuffer::put_pixel`: sets the pixel at `(x, y)`. It panics outside
/// the image, which `requires` leaves out.
#[verifier::external_body]
pub(crate) fn canvas_put(c: &mut Canvas, x: u32, y: u32, px: (u8, u8, u8, u8))
    requires
        x < canvas_size(*old(c)).0,
        y < canvas_size(*old(c)).1,
    ensures
        canvas_size(*final(c)) == canvas_size(*old(c)),
        canvas_pixels(*final(c)) == canvas_pixels(*old(c)).insert((x, y), px),
{
    c.img.put_pixel(x, y, image::Rgba([px.0, px.1, px.2, px.3]));
}

/// `ImageBuffer::into_raw`: the image's bytes, laid out row-major with four
/// bytes per pixel (as `pixel_indices_unchecked` in `image` computes them).
#[verifier::external_body]
pub(crate) fn canvas_into_raw(c: Canvas) -> (v: Vec<u8>)
    ensures
        v@ == raw_rgba(canvas_pixels(c), canvas_size(c).0, canvas_size(c).1),
{
    c.img.into_raw()
}

} // verus!
