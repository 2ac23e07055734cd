use vstd::prelude::*;
use crate::buffer::PixelBuffer;
use crate::config::ResizeFilter;
use crate::pixel::Pixel;
use rand::Rng;

verus! {

/// What `image::imageops::resize` returns: the row-major samples of the
/// source grid resampled to `out_w` x `out_h` with the chosen kernel. The
/// result depends on the arguments alone.
pub uninterp spec fn resize_of(
    samples: Seq<Pixel>,
    src_w: int,
    src_h: int,
    out_w: int,
    out_h: int,
    filter: ResizeFilter,
) -> Seq<Pixel>;

/// What `image::imageops::blur` returns: the row-major samples of the grid
/// after a Gaussian blur with the given whole-pixel sigma. The result depends
/// on the arguments alone.
pub uninterp spec fn blur_of(samples: Seq<Pixel>, width: int, height: int, sigma: int) -> Seq<
    Pixel,
>;

/// Relies on `image::imageops::resize`: it returns a buffer of exactly the
/// requested dimensions, resampled with the chosen kernel from the source
/// samples alone.
#[verifier::external_body]
pub(crate) fn resize_raw(buf: &PixelBuffer, out_w: u32, out_h: u32, filter: ResizeFilter) -> (r: PixelBuffer)
    requires
        buf.wf(),
    ensures
        r.wf(),
        r.width == out_w,
        r.height == out_h,
        r@.samples == resize_of(
            buf@.samples,
            buf@.width,
            buf@.height,
            out_w as int,
            out_h as int,
            filter,
        ),
{
    let ft = match filter {
        ResizeFilter::Nearest => image::imageops::FilterType::Nearest,
        ResizeFilter::Triangle => image::imageops::FilterType::Triangle,
        ResizeFilter::CatmullRom => image::imageops::FilterType::CatmullRom,
        ResizeFilter::Gaussian => image::imageops::FilterType::Gaussian,
        ResizeFilter::Lanczos3 => image::imageops::FilterType::Lanczos3,
    };
    let img = image::RgbaImage::from_raw(buf.width, buf.height, buf.to_raw_bytes()).unwrap();
    let out = image::imageops::resize(&img, out_w, out_h, ft);
    PixelBuffer::from_raw_bytes(out_w, out_h, out.into_raw()).unwrap()
}

/// Relies on `image::imageops::blur`: a Gaussian blur that keeps the
/// dimensions and is computed from the samples and sigma alone. A sigma of
/// zero is replaced by a small default inside the callee, never refused. The
/// callee's row filter indexes into each source row unguarded, so an empty
/// canvas would panic: both dimensions must be positive here.
#[verifier::external_body]
pub(crate) fn blur_raw(buf: &PixelBuffer, sigma: u16) -> (r: PixelBuffer)
    requires
        buf.wf(),
        buf.width > 0,
        buf.height > 0,
    ensures
        r.wf(),
        r.width == buf.width,
        r.height == buf.height,
        r@.samples == blur_of(buf@.samples, buf@.width, buf@.height, sigma as int),
{
    let img = image::RgbaImage::from_raw(buf.width, buf.height, buf.to_raw_bytes()).unwrap();
    let out = image::imageops::blur(&img, sigma.into());
    PixelBuffer::from_raw_bytes(buf.width, buf.height, out.into_raw()).unwrap()
}

/// Whether `ab_glyph` can parse these bytes as a font.
pub uninterp spec fn font_ok(bytes: Seq<u8>) -> bool;

/// What `imageproc::drawing::draw_text_mut` leaves on the canvas: the
/// row-major samples after the glyphs of `content`, rasterized from the font
/// in `font` at `size` pixels, are alpha-drawn in `color` with origin
/// `(x, y)`. The result depends on the arguments alone.
pub uninterp spec fn text_rendered(
    samples: Seq<Pixel>,
    width: int,
    height: int,
    font: Seq<u8>,
    content: Seq<char>,
    size: int,
    color: Pixel,
    x: int,
    y: int,
) -> Seq<Pixel>;

/// Relies on `ab_glyph::FontArc::try_from_vec`: it accepts exactly the byte
/// vectors that parse as a font collection.
#[verifier::external_body]
pub(crate) fn check_font(bytes: &Vec<u8>) -> (r: bool)
    ensures
        r == font_ok(bytes@),
{
    ab_glyph::FontArc::try_from_vec(bytes.clone()).is_ok()
}

/// Relies on `imageproc::drawing::draw_text_mut` for the drawing, and on
/// `ab_glyph::FontArc::try_from_vec` to build the font value it rasterizes
/// with; the canvas keeps its dimensions, glyph fragments outside it are
/// dropped by the callee's own bounds checks.
#[verifier::external_body]
pub(crate) fn draw_text_layer(
    buf: &mut PixelBuffer,
    font_bytes: &Vec<u8>,
    content: &String,
    size: u16,
    color: Pixel,
    x: i32,
    y: i32,
)
    requires
        old(buf).wf(),
        font_ok(font_bytes@),
    ensures
        final(buf).wf(),
        final(buf).width == old(buf).width,
        final(buf).height == old(buf).height,
        final(buf)@.samples == text_rendered(
            old(buf)@.samples,
            old(buf)@.width,
            old(buf)@.height,
            font_bytes@,
            content@,
            size as int,
            color,
            x as int,
            y as int,
        ),
{
    let font = match ab_glyph::FontArc::try_from_vec(font_bytes.clone()) {
        Ok(f) => f,
        Err(_) => return ,
    };
    let mut img = image::RgbaImage::from_raw(buf.width, buf.height, buf.to_raw_bytes()).unwrap();
    let s = size.into();
    let rgba = image::Rgba([color.r, color.g, color.b, color.a]);
    let scale = ab_glyph::PxScale { x: s, y: s };
    imageproc::drawing::draw_text_mut(&mut img, rgba, x, y, scale, &font, content.as_str());
    *buf = PixelBuffer::from_raw_bytes(buf.width, buf.height, img.into_raw()).unwrap();
}

/// Relies on `rand::Rng::gen_range` over the thread-local generator: one
/// uniform draw from `[0, 1000)`. Nothing more is promised of the value.
#[verifier::external_body]
pub(crate) fn noise_sample() -> (r: u32)
    ensures
        r < 1000,
{
    rand::thread_rng().gen_range(0..1000u32)
}

} // verus!
