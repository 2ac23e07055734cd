use vstd::prelude::*;
use crate::buffer::{ImageView, PixelBuffer};
use crate::color::{color_spec, parse_color};
use crate::config::{PipelineError, Shadow, Stroke};
use crate::overlay::{overlay, overlay_spec};
use crate::pixel::Pixel;
use crate::trusted::{blur_of, blur_raw, check_font, draw_text_layer, font_ok, text_rendered};

verus! {

// ---------------------------------------------------------------------------
// Text: glyphs drawn back to front — shadow, then the stroke as the glyphs
// re-rendered at every nonzero offset of a square neighborhood, then the
// fill. Each layer is one rasterizer call; this module owns the order, the
// colors and the offsets.
// ---------------------------------------------------------------------------
/// A draw origin pinned to the range the rasterizer takes.
pub open spec fn sat32(v: int) -> int {
    if v < -0x8000_0000 {
        -0x8000_0000
    } else if v > 0x7FFF_FFFF {
        0x7FFF_FFFF
    } else {
        v
    }
}

fn sat32_exec(v: i64) -> (r: i32)
    ensures
        r as int == sat32(v as int),
{
    if v < -0x8000_0000i64 {
        i32::MIN
    } else if v > 0x7FFF_FFFFi64 {
        i32::MAX
    } else {
        v as i32
    }
}

/// A fully transparent canvas of `n` samples.
pub open spec fn transparent(n: nat) -> Seq<Pixel> {
    Seq::new(n, |i: int| Pixel { r: 0, g: 0, b: 0, a: 0 })
}

/// The samples after the shadow layer: none, a direct offset draw, or — with
/// a blur — the glyphs drawn on a transparent layer, blurred, and alpha-
/// composited over the image.
pub open spec fn shadow_samples(
    img: ImageView,
    font: Seq<u8>,
    content: Seq<char>,
    size: int,
    x: int,
    y: int,
    shadow: Option<Shadow>,
) -> Seq<Pixel> {
    match shadow {
        None => img.samples,
        Some(sh) => {
            let scol = color_spec(sh.color@)->0;
            let sx = sat32(x + sh.offset_x);
            let sy = sat32(y + sh.offset_y);
            if sh.blur == 0 {
                text_rendered(
                    img.samples,
                    img.width,
                    img.height,
                    font,
                    content,
                    size,
                    scol,
                    sx,
                    sy,
                )
            } else if img.width <= 0 || img.height <= 0 {
                img.samples
            } else {
                let drawn = text_rendered(
                    transparent(img.samples.len()),
                    img.width,
                    img.height,
                    font,
                    content,
                    size,
                    scol,
                    sx,
                    sy,
                );
                let blurred = blur_of(drawn, img.width, img.height, sh.blur as int);
                overlay_spec(
                    img,
                    ImageView { width: img.width, height: img.height, samples: blurred },
                    0,
                    0,
                    Some(1000),
                ).samples
            }
        },
    }
}

/// The samples after the stroke offsets `(dx, dy')` with `-wd <= dy' < dy`
/// drawn in ascending order, the zero offset skipped.
pub open spec fn stroke_row_upto(
    s: Seq<Pixel>,
    w: int,
    h: int,
    font: Seq<u8>,
    content: Seq<char>,
    size: int,
    col: Pixel,
    x: int,
    y: int,
    wd: int,
    dx: int,
    dy: int,
) -> Seq<Pixel>
    decreases dy + wd,
{
    if dy <= -wd {
        s
    } else {
        let prev = stroke_row_upto(s, w, h, font, content, size, col, x, y, wd, dx, dy - 1);
        if dx == 0 && dy - 1 == 0 {
            prev
        } else {
            text_rendered(prev, w, h, font, content, size, col, sat32(x + dx), sat32(y + dy - 1))
        }
    }
}

/// The samples after the stroke rows `dx' < dx` drawn completely, ascending.
pub open spec fn stroke_rows_upto(
    s: Seq<Pixel>,
    w: int,
    h: int,
    font: Seq<u8>,
    content: Seq<char>,
    size: int,
    col: Pixel,
    x: int,
    y: int,
    wd: int,
    dx: int,
) -> Seq<Pixel>
    decreases dx + wd,
{
    if dx <= -wd {
        s
    } else {
        stroke_row_upto(
            stroke_rows_upto(s, w, h, font, content, size, col, x, y, wd, dx - 1),
            w,
            h,
            font,
            content,
            size,
            col,
            x,
            y,
            wd,
            dx - 1,
            wd + 1,
        )
    }
}

/// The samples after the whole stroke layer.
pub open spec fn stroke_samples(
    s: Seq<Pixel>,
    w: int,
    h: int,
    font: Seq<u8>,
    content: Seq<char>,
    size: int,
    x: int,
    y: int,
    stroke: Option<Stroke>,
) -> Seq<Pixel> {
    match stroke {
        None => s,
        Some(st) => stroke_rows_upto(
            s,
            w,
            h,
            font,
            content,
            size,
            color_spec(st.color@)->0,
            x,
            y,
            st.width as int,
            st.width as int + 1,
        ),
    }
}

/// The whole text operation: its parameter checks, in order, and the three
/// layers back to front.
pub open spec fn text_spec(
    img: ImageView,
    content: Seq<char>,
    font: Seq<u8>,
    size: int,
    color: Seq<char>,
    x: int,
    y: int,
    stroke: Option<Stroke>,
    shadow: Option<Shadow>,
) -> Result<ImageView, PipelineError> {
    if color_spec(color) is None {
        Err(PipelineError::InvalidParameter)
    } else if stroke is Some && (stroke->0.width < 0 || color_spec(stroke->0.color@) is None) {
        Err(PipelineError::InvalidParameter)
    } else if shadow is Some && color_spec(shadow->0.color@) is None {
        Err(PipelineError::InvalidParameter)
    } else if !font_ok(font) {
        Err(PipelineError::DecodeError)
    } else {
        let s1 = shadow_samples(img, font, content, size, x, y, shadow);
        let s2 = stroke_samples(s1, img.width, img.height, font, content, size, x, y, stroke);
        let s3 = text_rendered(
            s2,
            img.width,
            img.height,
            font,
            content,
            size,
            color_spec(color)->0,
            x,
            y,
        );
        Ok(ImageView { width: img.width, height: img.height, samples: s3 })
    }
}

/// Draws `content` over the buffer as `text_spec` says: the shadow, then the
/// stroke neighborhood, then the fill; refuses a malformed color, a negative
/// stroke width, or font bytes that do not parse.
pub fn draw_text(
    buf: PixelBuffer,
    content: &String,
    font: &Vec<u8>,
    size: u16,
    color: &String,
    x: i32,
    y: i32,
    stroke: &Option<Stroke>,
    shadow: &Option<Shadow>,
) -> (r: Result<PixelBuffer, PipelineError>)
    requires
        buf.wf(),
    ensures
        match r {
            Ok(out) => {
                &&& out.wf()
                &&& out.width == buf.width
                &&& out.height == buf.height
                &&& Ok::<ImageView, PipelineError>(out@) == text_spec(
                    buf@,
                    content@,
                    font@,
                    size as int,
                    color@,
                    x as int,
                    y as int,
                    *stroke,
                    *shadow,
                )
            },
            Err(e) => Err::<ImageView, PipelineError>(e) == text_spec(
                buf@,
                content@,
                font@,
                size as int,
                color@,
                x as int,
                y as int,
                *stroke,
                *shadow,
            ),
        },
{
    let col = match parse_color(color.as_str()) {
        Ok(c) => c,
        Err(e) => {
            return Err(e);
        },
    };
    let stroke_parsed: Option<(Pixel, i32)> = match stroke {
        None => None,
        Some(st) => {
            if st.width < 0 {
                return Err(PipelineError::InvalidParameter);
            }
            match parse_color(st.color.as_str()) {
                Ok(c) => Some((c, st.width)),
                Err(e) => {
                    return Err(e);
                },
            }
        },
    };
    let shadow_parsed: Option<(Pixel, u16, i32, i32)> = match shadow {
        None => None,
        Some(sh) => {
            match parse_color(sh.color.as_str()) {
                Ok(c) => Some((c, sh.blur, sh.offset_x, sh.offset_y)),
                Err(e) => {
                    return Err(e);
                },
            }
        },
    };
    if !check_font(font) {
        return Err(PipelineError::DecodeError);
    }
    let mut cur = buf;
    if let Some((scol, blur, ox, oy)) = shadow_parsed {
        let sx = sat32_exec((x as i64) + (ox as i64));
        let sy = sat32_exec((y as i64) + (oy as i64));
        if blur == 0 {
            draw_text_layer(&mut cur, font, content, size, scol, sx, sy);
        } else if cur.width == 0 || cur.height == 0 {
            // An empty canvas has nothing to blur, and the blur primitive
            // refuses empty grids; the shadow leaves it as it is.
        } else {
            let _samples_len: usize = cur.samples.len();
            let mut layer = PixelBuffer::new_filled(
                cur.width,
                cur.height,
                Pixel { r: 0, g: 0, b: 0, a: 0 },
            );
            proof {
                assert(layer@.samples =~= transparent(cur@.samples.len()));
            }
            draw_text_layer(&mut layer, font, content, size, scol, sx, sy);
            let blurred = blur_raw(&layer, blur);
            let blended = overlay(&cur, &blurred, 0, 0, Some(1000));
            cur = blended;
        }
        proof {
            assert(cur@.samples == shadow_samples(
                buf@,
                font@,
                content@,
                size as int,
                x as int,
                y as int,
                *shadow,
            ));
        }
    }
    let ghost base: Seq<Pixel> = cur@.samples;
    if let Some((scol, wd)) = stroke_parsed {
        let wdi: i64 = wd as i64;
        let mut dx: i64 = -wdi;
        proof {
            assert(stroke_rows_upto(
                base,
                buf@.width,
                buf@.height,
                font@,
                content@,
                size as int,
                scol,
                x as int,
                y as int,
                wd as int,
                -(wd as int),
            ) == base);
        }
        while dx <= wdi
            invariant
                cur.wf(),
                cur.width == buf.width,
                cur.height == buf.height,
                font_ok(font@),
                0 <= wdi <= 0x7FFF_FFFF,
                wdi == wd as int,
                -wdi <= dx <= wdi + 1,
                cur@.samples == stroke_rows_upto(
                    base,
                    buf@.width,
                    buf@.height,
                    font@,
                    content@,
                    size as int,
                    scol,
                    x as int,
                    y as int,
                    wd as int,
                    dx as int,
                ),
            decreases wdi + 1 - dx,
        {
            let ghost row_base: Seq<Pixel> = cur@.samples;
            let mut dy: i64 = -wdi;
            while dy <= wdi
                invariant
                    cur.wf(),
                    cur.width == buf.width,
                    cur.height == buf.height,
                    font_ok(font@),
                    0 <= wdi <= 0x7FFF_FFFF,
                    wdi == wd as int,
                    -wdi <= dx <= wdi,
                    -wdi <= dy <= wdi + 1,
                    row_base == stroke_rows_upto(
                        base,
                        buf@.width,
                        buf@.height,
                        font@,
                        content@,
                        size as int,
                        scol,
                        x as int,
                        y as int,
                        wd as int,
                        dx as int,
                    ),
                    cur@.samples == stroke_row_upto(
                        row_base,
                        buf@.width,
                        buf@.height,
                        font@,
                        content@,
                        size as int,
                        scol,
                        x as int,
                        y as int,
                        wd as int,
                        dx as int,
                        dy as int,
                    ),
                decreases wdi + 1 - dy,
            {
                if !(dx == 0 && dy == 0) {
                    let px = sat32_exec((x as i64) + dx);
                    let py = sat32_exec((y as i64) + dy);
                    draw_text_layer(&mut cur, font, content, size, scol, px, py);
                }
                dy = dy + 1;
            }
            proof {
                assert(stroke_rows_upto(
                    base,
                    buf@.width,
                    buf@.height,
                    font@,
                    content@,
                    size as int,
                    scol,
                    x as int,
                    y as int,
                    wd as int,
                    dx as int + 1,
                ) == stroke_row_upto(
                    row_base,
                    buf@.width,
                    buf@.height,
                    font@,
                    content@,
                    size as int,
                    scol,
                    x as int,
                    y as int,
                    wd as int,
                    dx as int,
                    wd as int + 1,
                ));
            }
            dx = dx + 1;
        }
    }
    draw_text_layer(&mut cur, font, content, size, col, x, y);
    proof {
        assert(cur@.samples == text_spec(
            buf@,
            content@,
            font@,
            size as int,
            color@,
            x as int,
            y as int,
            *stroke,
            *shadow,
        )->Ok_0.samples);
    }
    Ok(cur)
}

} // verus!
