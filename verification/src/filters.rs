use vstd::prelude::*;
use crate::buffer::{ImageView, PixelBuffer};
use crate::math::{
    clampq, clampq_exec, div_trunc, div_trunc_exec, is_sqrt_floor, isqrt, lemma_sqrt_floor_le,
    lemma_sqrt_floor_unique, mul_bounded, sq_u128, sqrt_floor,
};
use crate::pixel::Pixel;
use crate::trusted::noise_sample;

verus! {

// ---------------------------------------------------------------------------
// Sepia: a fixed matrix over R, G, B in thousandths, clamped high; alpha kept.
// ---------------------------------------------------------------------------
pub open spec fn sepia_pixel(p: Pixel) -> Pixel {
    Pixel {
        r: clampq(393 * p.r + 769 * p.g + 189 * p.b, 1000),
        g: clampq(349 * p.r + 686 * p.g + 168 * p.b, 1000),
        b: clampq(272 * p.r + 534 * p.g + 131 * p.b, 1000),
        a: p.a,
    }
}

pub open spec fn sepia_spec(img: ImageView) -> ImageView {
    ImageView {
        width: img.width,
        height: img.height,
        samples: Seq::new(img.samples.len(), |i: int| sepia_pixel(img.samples[i])),
    }
}

pub fn sepia(buf: &PixelBuffer) -> (r: PixelBuffer)
    requires
        buf.wf(),
    ensures
        r.wf(),
        r.width == buf.width,
        r.height == buf.height,
        r@ == sepia_spec(buf@),
{
    let n = buf.samples.len();
    let mut samples: Vec<Pixel> = Vec::new();
    let mut i: usize = 0;
    while i < n
        invariant
            buf.wf(),
            n == buf@.samples.len(),
            i <= n,
            samples@.len() == i,
            forall|j: int| 0 <= j < i ==> samples@[j] == sepia_pixel(buf@.samples[j]),
        decreases n - i,
    {
        let p = buf.samples[i];
        let pr = 393 * (p.r as i64) + 769 * (p.g as i64) + 189 * (p.b as i64);
        let pg = 349 * (p.r as i64) + 686 * (p.g as i64) + 168 * (p.b as i64);
        let pb = 272 * (p.r as i64) + 534 * (p.g as i64) + 131 * (p.b as i64);
        samples.push(
            Pixel {
                r: clampq_exec(pr, 1000),
                g: clampq_exec(pg, 1000),
                b: clampq_exec(pb, 1000),
                a: p.a,
            },
        );
        i = i + 1;
    }
    let out = PixelBuffer { width: buf.width, height: buf.height, samples };
    proof {
        assert(out@.samples =~= sepia_spec(buf@).samples);
        assert(out@ =~= sepia_spec(buf@));
    }
    out
}

// ---------------------------------------------------------------------------
// Brightness: adds the configured value (in thousandths of a channel unit) to
// every channel, clamped. Applied to R, G, B and A uniformly.
// ---------------------------------------------------------------------------
pub open spec fn brightness_channel(c: u8, v: int) -> u8 {
    clampq(1000 * c + v, 1000)
}

pub open spec fn brightness_pixel(p: Pixel, v: int) -> Pixel {
    Pixel {
        r: brightness_channel(p.r, v),
        g: brightness_channel(p.g, v),
        b: brightness_channel(p.b, v),
        a: brightness_channel(p.a, v),
    }
}

pub open spec fn brightness_spec(img: ImageView, v: int) -> ImageView {
    ImageView {
        width: img.width,
        height: img.height,
        samples: Seq::new(img.samples.len(), |i: int| brightness_pixel(img.samples[i], v)),
    }
}

pub fn brightness(buf: &PixelBuffer, value_milli: i32) -> (r: PixelBuffer)
    requires
        buf.wf(),
    ensures
        r.wf(),
        r.width == buf.width,
        r.height == buf.height,
        r@ == brightness_spec(buf@, value_milli as int),
{
    let n = buf.samples.len();
    let v = value_milli as i64;
    let mut samples: Vec<Pixel> = Vec::new();
    let mut i: usize = 0;
    while i < n
        invariant
            buf.wf(),
            n == buf@.samples.len(),
            v == value_milli as int,
            i <= n,
            samples@.len() == i,
            forall|j: int|
                0 <= j < i ==> samples@[j] == brightness_pixel(
                    buf@.samples[j],
                    value_milli as int,
                ),
        decreases n - i,
    {
        let p = buf.samples[i];
        samples.push(
            Pixel {
                r: clampq_exec(1000 * (p.r as i64) + v, 1000),
                g: clampq_exec(1000 * (p.g as i64) + v, 1000),
                b: clampq_exec(1000 * (p.b as i64) + v, 1000),
                a: clampq_exec(1000 * (p.a as i64) + v, 1000),
            },
        );
        i = i + 1;
    }
    let out = PixelBuffer { width: buf.width, height: buf.height, samples };
    proof {
        assert(out@.samples =~= brightness_spec(buf@, value_milli as int).samples);
        assert(out@ =~= brightness_spec(buf@, value_milli as int));
    }
    out
}

/// Brightness with value zero leaves every pixel as it was.
pub proof fn lemma_brightness_zero_identity(img: ImageView)
    ensures
        brightness_spec(img, 0) == img,
{
    assert forall|i: int| 0 <= i < img.samples.len() implies brightness_spec(img, 0).samples[i]
        == img.samples[i] by {
        let p = img.samples[i];
        vstd::arithmetic::div_mod::lemma_div_multiples_vanish(p.r as int, 1000);
        vstd::arithmetic::div_mod::lemma_div_multiples_vanish(p.g as int, 1000);
        vstd::arithmetic::div_mod::lemma_div_multiples_vanish(p.b as int, 1000);
        vstd::arithmetic::div_mod::lemma_div_multiples_vanish(p.a as int, 1000);
    }
    assert(brightness_spec(img, 0).samples =~= img.samples);
    assert(brightness_spec(img, 0) =~= img);
}

// ---------------------------------------------------------------------------
// Contrast: scales every channel about mid-gray 127.5 by the configured
// factor (in thousandths), clamped. Applied to R, G, B and A uniformly.
// ---------------------------------------------------------------------------
pub open spec fn contrast_channel(c: u8, v: int) -> u8 {
    clampq((1000 * c - 127500) * v + 127500000, 1000000)
}

pub open spec fn contrast_pixel(p: Pixel, v: int) -> Pixel {
    Pixel {
        r: contrast_channel(p.r, v),
        g: contrast_channel(p.g, v),
        b: contrast_channel(p.b, v),
        a: contrast_channel(p.a, v),
    }
}

pub open spec fn contrast_spec(img: ImageView, v: int) -> ImageView {
    ImageView {
        width: img.width,
        height: img.height,
        samples: Seq::new(img.samples.len(), |i: int| contrast_pixel(img.samples[i], v)),
    }
}

pub fn contrast(buf: &PixelBuffer, value_milli: i32) -> (r: PixelBuffer)
    requires
        buf.wf(),
    ensures
        r.wf(),
        r.width == buf.width,
        r.height == buf.height,
        r@ == contrast_spec(buf@, value_milli as int),
{
    let n = buf.samples.len();
    let v = value_milli as i64;
    let mut samples: Vec<Pixel> = Vec::new();
    let mut i: usize = 0;
    while i < n
        invariant
            buf.wf(),
            n == buf@.samples.len(),
            v == value_milli as int,
            i <= n,
            samples@.len() == i,
            forall|j: int|
                0 <= j < i ==> samples@[j] == contrast_pixel(buf@.samples[j], value_milli as int),
        decreases n - i,
    {
        let p = buf.samples[i];
        let nr = mul_bounded(1000 * (p.r as i64) - 127500, v, 127500, 0x8000_0000) + 127500000;
        let ng = mul_bounded(1000 * (p.g as i64) - 127500, v, 127500, 0x8000_0000) + 127500000;
        let nb = mul_bounded(1000 * (p.b as i64) - 127500, v, 127500, 0x8000_0000) + 127500000;
        let na = mul_bounded(1000 * (p.a as i64) - 127500, v, 127500, 0x8000_0000) + 127500000;
        samples.push(
            Pixel {
                r: clampq_exec(nr, 1000000),
                g: clampq_exec(ng, 1000000),
                b: clampq_exec(nb, 1000000),
                a: clampq_exec(na, 1000000),
            },
        );
        i = i + 1;
    }
    let out = PixelBuffer { width: buf.width, height: buf.height, samples };
    proof {
        assert(out@.samples =~= contrast_spec(buf@, value_milli as int).samples);
        assert(out@ =~= contrast_spec(buf@, value_milli as int));
    }
    out
}

/// Contrast with factor one leaves every pixel as it was.
pub proof fn lemma_contrast_one_identity(img: ImageView)
    ensures
        contrast_spec(img, 1000) == img,
{
    assert forall|i: int| 0 <= i < img.samples.len() implies contrast_spec(img, 1000).samples[i]
        == img.samples[i] by {
        let p = img.samples[i];
        vstd::arithmetic::div_mod::lemma_div_multiples_vanish(p.r as int, 1000000);
        vstd::arithmetic::div_mod::lemma_div_multiples_vanish(p.g as int, 1000000);
        vstd::arithmetic::div_mod::lemma_div_multiples_vanish(p.b as int, 1000000);
        vstd::arithmetic::div_mod::lemma_div_multiples_vanish(p.a as int, 1000000);
    }
    assert(contrast_spec(img, 1000).samples =~= img.samples);
    assert(contrast_spec(img, 1000) =~= img);
}

// ---------------------------------------------------------------------------
// Saturation: mixes each of R, G, B with the pixel's luma by the configured
// factor (in thousandths), clamped; alpha untouched.
// ---------------------------------------------------------------------------
/// Luma of a pixel, in thousandths of a channel unit.
pub open spec fn luma_milli(p: Pixel) -> int {
    299 * p.r + 587 * p.g + 114 * p.b
}

pub open spec fn saturation_channel(c: u8, l: int, v: int) -> u8 {
    clampq(1000 * l + (1000 * c - l) * v, 1000000)
}

pub open spec fn saturation_pixel(p: Pixel, v: int) -> Pixel {
    Pixel {
        r: saturation_channel(p.r, luma_milli(p), v),
        g: saturation_channel(p.g, luma_milli(p), v),
        b: saturation_channel(p.b, luma_milli(p), v),
        a: p.a,
    }
}

pub open spec fn saturation_spec(img: ImageView, v: int) -> ImageView {
    ImageView {
        width: img.width,
        height: img.height,
        samples: Seq::new(img.samples.len(), |i: int| saturation_pixel(img.samples[i], v)),
    }
}

pub fn saturation(buf: &PixelBuffer, value_milli: i32) -> (r: PixelBuffer)
    requires
        buf.wf(),
    ensures
        r.wf(),
        r.width == buf.width,
        r.height == buf.height,
        r@ == saturation_spec(buf@, value_milli as int),
{
    let n = buf.samples.len();
    let v = value_milli as i64;
    let mut samples: Vec<Pixel> = Vec::new();
    let mut i: usize = 0;
    while i < n
        invariant
            buf.wf(),
            n == buf@.samples.len(),
            v == value_milli as int,
            i <= n,
            samples@.len() == i,
            forall|j: int|
                0 <= j < i ==> samples@[j] == saturation_pixel(buf@.samples[j], value_milli as int),
        decreases n - i,
    {
        let p = buf.samples[i];
        let l = 299 * (p.r as i64) + 587 * (p.g as i64) + 114 * (p.b as i64);
        let nr = 1000 * l + mul_bounded(1000 * (p.r as i64) - l, v, 255000, 0x8000_0000);
        let ng = 1000 * l + mul_bounded(1000 * (p.g as i64) - l, v, 255000, 0x8000_0000);
        let nb = 1000 * l + mul_bounded(1000 * (p.b as i64) - l, v, 255000, 0x8000_0000);
        samples.push(
            Pixel {
                r: clampq_exec(nr, 1000000),
                g: clampq_exec(ng, 1000000),
                b: clampq_exec(nb, 1000000),
                a: p.a,
            },
        );
        i = i + 1;
    }
    let out = PixelBuffer { width: buf.width, height: buf.height, samples };
    proof {
        assert(out@.samples =~= saturation_spec(buf@, value_milli as int).samples);
        assert(out@ =~= saturation_spec(buf@, value_milli as int));
    }
    out
}

/// Saturation with factor one leaves every pixel as it was.
pub proof fn lemma_saturation_one_identity(img: ImageView)
    ensures
        saturation_spec(img, 1000) == img,
{
    assert forall|i: int| 0 <= i < img.samples.len() implies saturation_spec(img, 1000).samples[i]
        == img.samples[i] by {
        let p = img.samples[i];
        vstd::arithmetic::div_mod::lemma_div_multiples_vanish(p.r as int, 1000000);
        vstd::arithmetic::div_mod::lemma_div_multiples_vanish(p.g as int, 1000000);
        vstd::arithmetic::div_mod::lemma_div_multiples_vanish(p.b as int, 1000000);
    }
    assert(saturation_spec(img, 1000).samples =~= img.samples);
    assert(saturation_spec(img, 1000) =~= img);
}

// ---------------------------------------------------------------------------
// Grain: one noise draw per pixel, scaled by the configured intensity and
// added to R, G and B alike; alpha untouched.
// ---------------------------------------------------------------------------
/// Every draw lies below one thousand.
pub open spec fn noise_ok(noise: Seq<u32>) -> bool {
    forall|i: int| 0 <= i < noise.len() ==> noise[i] < 1000
}

pub open spec fn grain_pixel(p: Pixel, v: int, nz: int) -> Pixel {
    let delta = (nz - 500) * v * 255;
    Pixel {
        r: clampq(1000000 * p.r + delta, 1000000),
        g: clampq(1000000 * p.g + delta, 1000000),
        b: clampq(1000000 * p.b + delta, 1000000),
        a: p.a,
    }
}

pub open spec fn grain_spec(img: ImageView, v: int, noise: Seq<u32>) -> ImageView {
    ImageView {
        width: img.width,
        height: img.height,
        samples: Seq::new(
            img.samples.len(),
            |i: int| grain_pixel(img.samples[i], v, noise[i] as int),
        ),
    }
}

/// One uniform draw from `[0, 1000)` for each of `len` pixels.
pub fn gen_noise(len: usize) -> (r: Vec<u32>)
    ensures
        r@.len() == len,
        noise_ok(r@),
{
    let mut noise: Vec<u32> = Vec::new();
    let mut i: usize = 0;
    while i < len
        invariant
            i <= len,
            noise@.len() == i,
            noise_ok(noise@),
        decreases len - i,
    {
        noise.push(noise_sample());
        i = i + 1;
    }
    noise
}

/// The deterministic half of grain: the noise is an argument, so the result
/// is pinned for every possible draw.
pub fn grain_apply(buf: &PixelBuffer, intensity_milli: i32, noise: &Vec<u32>) -> (r: PixelBuffer)
    requires
        buf.wf(),
        noise@.len() == buf@.samples.len(),
        noise_ok(noise@),
    ensures
        r.wf(),
        r.width == buf.width,
        r.height == buf.height,
        r@ == grain_spec(buf@, intensity_milli as int, noise@),
{
    let n = buf.samples.len();
    let v = intensity_milli as i64;
    let mut samples: Vec<Pixel> = Vec::new();
    let mut i: usize = 0;
    while i < n
        invariant
            buf.wf(),
            n == buf@.samples.len(),
            noise@.len() == n,
            noise_ok(noise@),
            v == intensity_milli as int,
            i <= n,
            samples@.len() == i,
            forall|j: int|
                0 <= j < i ==> samples@[j] == grain_pixel(
                    buf@.samples[j],
                    intensity_milli as int,
                    noise@[j] as int,
                ),
        decreases n - i,
    {
        let p = buf.samples[i];
        let nz = noise[i];
        let d0 = mul_bounded((nz as i64) - 500, v, 500, 0x8000_0000);
        let delta = d0 * 255;
        samples.push(
            Pixel {
                r: clampq_exec(1000000 * (p.r as i64) + delta, 1000000),
                g: clampq_exec(1000000 * (p.g as i64) + delta, 1000000),
                b: clampq_exec(1000000 * (p.b as i64) + delta, 1000000),
                a: p.a,
            },
        );
        i = i + 1;
    }
    let out = PixelBuffer { width: buf.width, height: buf.height, samples };
    proof {
        assert(out@.samples =~= grain_spec(buf@, intensity_milli as int, noise@).samples);
        assert(out@ =~= grain_spec(buf@, intensity_milli as int, noise@));
    }
    out
}

/// Grain with a fresh draw per pixel. Only the bound on the draws is known of
/// the result: some admissible noise sequence produced it.
pub fn add_grain(buf: &PixelBuffer, intensity_milli: i32) -> (r: PixelBuffer)
    requires
        buf.wf(),
    ensures
        r.wf(),
        r.width == buf.width,
        r.height == buf.height,
        exists|noise: Seq<u32>|
            noise.len() == buf@.samples.len() && noise_ok(noise) && r@ == grain_spec(
                buf@,
                intensity_milli as int,
                noise,
            ),
{
    let noise = gen_noise(buf.samples.len());
    let out = grain_apply(buf, intensity_milli, &noise);
    proof {
        assert(noise@.len() == buf@.samples.len() && noise_ok(noise@) && out@ == grain_spec(
            buf@,
            intensity_milli as int,
            noise@,
        ));
    }
    out
}

// ---------------------------------------------------------------------------
// Double vision: blends the pre-operation sample at a fixed offset over each
// pixel's R, G, B with the configured weight; out-of-bounds offsets leave the
// pixel unchanged; alpha untouched.
// ---------------------------------------------------------------------------
pub open spec fn dv_pixel(img: ImageView, x: int, y: int, ox: int, oy: int, op: int) -> Pixel {
    let p = img.sample_at(x, y);
    if img.in_bounds(x + ox, y + oy) {
        let g = img.sample_at(x + ox, y + oy);
        Pixel {
            r: clampq((1000 - op) * p.r + op * g.r, 1000),
            g: clampq((1000 - op) * p.g + op * g.g, 1000),
            b: clampq((1000 - op) * p.b + op * g.b, 1000),
            a: p.a,
        }
    } else {
        p
    }
}

pub open spec fn double_vision_spec(img: ImageView, ox: int, oy: int, op: int) -> ImageView {
    ImageView {
        width: img.width,
        height: img.height,
        samples: Seq::new(
            img.samples.len(),
            |i: int| dv_pixel(img, i % img.width, i / img.width, ox, oy, op),
        ),
    }
}

pub fn double_vision(buf: &PixelBuffer, offset_x: i32, offset_y: i32, opacity_milli: i32) -> (r:
    PixelBuffer)
    requires
        buf.wf(),
    ensures
        r.wf(),
        r.width == buf.width,
        r.height == buf.height,
        r@ == double_vision_spec(buf@, offset_x as int, offset_y as int, opacity_milli as int),
{
    let w = buf.width;
    let h = buf.height;
    let op = opacity_milli as i64;
    let mut samples: Vec<Pixel> = Vec::new();
    let mut y: u32 = 0;
    while y < h
        invariant
            buf.wf(),
            w == buf.width,
            h == buf.height,
            op == opacity_milli as int,
            y <= h,
            samples@.len() == y * w,
            forall|k: int|
                0 <= k < samples@.len() ==> samples@[k] == dv_pixel(
                    buf@,
                    k % (w as int),
                    k / (w as int),
                    offset_x as int,
                    offset_y as int,
                    opacity_milli as int,
                ),
        decreases h - y,
    {
        let mut x: u32 = 0;
        while x < w
            invariant
                buf.wf(),
                w == buf.width,
                h == buf.height,
                op == opacity_milli as int,
                y < h,
                x <= w,
                samples@.len() == y * w + x,
                forall|k: int|
                    0 <= k < samples@.len() ==> samples@[k] == dv_pixel(
                        buf@,
                        k % (w as int),
                        k / (w as int),
                        offset_x as int,
                        offset_y as int,
                        opacity_milli as int,
                    ),
            decreases w - x,
        {
            let p = buf.get(x, y);
            let sx: i64 = (x as i64) + (offset_x as i64);
            let sy: i64 = (y as i64) + (offset_y as i64);
            let q: Pixel = if 0 <= sx && sx < w as i64 && 0 <= sy && sy < h as i64 {
                let g = buf.get(sx as u32, sy as u32);
                Pixel {
                    r: clampq_exec(
                        mul_bounded(1000 - op, p.r as i64, 0x8000_1000, 255) + mul_bounded(
                            op,
                            g.r as i64,
                            0x8000_0000,
                            255,
                        ),
                        1000,
                    ),
                    g: clampq_exec(
                        mul_bounded(1000 - op, p.g as i64, 0x8000_1000, 255) + mul_bounded(
                            op,
                            g.g as i64,
                            0x8000_0000,
                            255,
                        ),
                        1000,
                    ),
                    b: clampq_exec(
                        mul_bounded(1000 - op, p.b as i64, 0x8000_1000, 255) + mul_bounded(
                            op,
                            g.b as i64,
                            0x8000_0000,
                            255,
                        ),
                        1000,
                    ),
                    a: p.a,
                }
            } else {
                p
            };
            samples.push(q);
            proof {
                vstd::arithmetic::div_mod::lemma_fundamental_div_mod_converse(
                    y * w + x,
                    w as int,
                    y as int,
                    x as int,
                );
            }
            x = x + 1;
        }
        proof {
            vstd::arithmetic::mul::lemma_mul_is_distributive_add_other_way(
                w as int,
                y as int,
                1,
            );
        }
        y = y + 1;
    }
    proof {
        assert(y == h);
        assert(samples@.len() == (h as int) * (w as int));
        assert(buf@.samples.len() == (w as int) * (h as int));
        assert((h as int) * (w as int) == (w as int) * (h as int));
    }
    let out = PixelBuffer { width: w, height: h, samples };
    proof {
        assert(out@.samples =~= double_vision_spec(
            buf@,
            offset_x as int,
            offset_y as int,
            opacity_milli as int,
        ).samples);
        assert(out@ =~= double_vision_spec(
            buf@,
            offset_x as int,
            offset_y as int,
            opacity_milli as int,
        ));
    }
    out
}

// ---------------------------------------------------------------------------
// Vignette: darkens R, G, B by the pixel's distance to the canvas center,
// normalized by the distance to a corner; the factor clamps at zero before it
// scales the channels; alpha untouched. Distances are measured in half-pixel
// units so the center needs no fractions.
// ---------------------------------------------------------------------------
pub open spec fn vignette_pixel(p: Pixel, w: int, h: int, x: int, y: int, v: int) -> Pixel {
    let dx = w - 2 * x;
    let dy = h - 2 * y;
    let dist = sqrt_floor(dx * dx + dy * dy);
    let maxd = sqrt_floor(w * w + h * h);
    let q = 1000 * dist / maxd;
    let f = 1000 - div_trunc(v * q, 1000);
    Pixel {
        r: clampq(p.r * f, 1000),
        g: clampq(p.g * f, 1000),
        b: clampq(p.b * f, 1000),
        a: p.a,
    }
}

pub open spec fn vignette_spec(img: ImageView, v: int) -> ImageView {
    ImageView {
        width: img.width,
        height: img.height,
        samples: Seq::new(
            img.samples.len(),
            |i: int| vignette_pixel(
                img.samples[i],
                img.width,
                img.height,
                i % img.width,
                i / img.width,
                v,
            ),
        ),
    }
}

pub fn vignette(buf: &PixelBuffer, intensity_milli: i32) -> (r: PixelBuffer)
    requires
        buf.wf(),
    ensures
        r.wf(),
        r.width == buf.width,
        r.height == buf.height,
        r@ == vignette_spec(buf@, intensity_milli as int),
{
    let w = buf.width;
    let h = buf.height;
    let v = intensity_milli as i64;
    let maxsq: u128 = sq_u128(w as i64) + sq_u128(h as i64);
    let maxd: u64 = isqrt(maxsq);
    proof {
        lemma_sqrt_floor_unique(maxsq as int, maxd as int);
    }
    let maxd1: u64 = if maxd == 0 {
        1
    } else {
        maxd
    };
    let mut samples: Vec<Pixel> = Vec::new();
    let mut y: u32 = 0;
    while y < h
        invariant
            buf.wf(),
            w == buf.width,
            h == buf.height,
            v == intensity_milli as int,
            maxd == sqrt_floor((w as int) * (w as int) + (h as int) * (h as int)),
            maxd1 == (if maxd == 0 { 1u64 } else { maxd }),
            is_sqrt_floor((w as int) * (w as int) + (h as int) * (h as int), maxd as int),
            y <= h,
            samples@.len() == y * w,
            forall|k: int|
                0 <= k < samples@.len() ==> samples@[k] == vignette_pixel(
                    buf@.samples[k],
                    w as int,
                    h as int,
                    k % (w as int),
                    k / (w as int),
                    intensity_milli as int,
                ),
        decreases h - y,
    {
        let mut x: u32 = 0;
        while x < w
            invariant
                buf.wf(),
                w == buf.width,
                h == buf.height,
                v == intensity_milli as int,
                maxd == sqrt_floor((w as int) * (w as int) + (h as int) * (h as int)),
                maxd1 == (if maxd == 0 { 1u64 } else { maxd }),
                is_sqrt_floor((w as int) * (w as int) + (h as int) * (h as int), maxd as int),
                y < h,
                x <= w,
                samples@.len() == y * w + x,
                forall|k: int|
                    0 <= k < samples@.len() ==> samples@[k] == vignette_pixel(
                        buf@.samples[k],
                        w as int,
                        h as int,
                        k % (w as int),
                        k / (w as int),
                        intensity_milli as int,
                    ),
            decreases w - x,
        {
            let p = buf.get(x, y);
            let dx: i64 = (w as i64) - 2 * (x as i64);
            let dy: i64 = (h as i64) - 2 * (y as i64);
            let distsq: u128 = sq_u128(dx) + sq_u128(dy);
            let dist: u64 = isqrt(distsq);
            proof {
                lemma_sqrt_floor_unique(distsq as int, dist as int);
                assert((dx as int) * (dx as int) <= (w as int) * (w as int) && (dy as int) * (
                dy as int) <= (h as int) * (h as int)) by (nonlinear_arith)
                    requires
                        -(w as int) <= dx as int <= w as int,
                        -(h as int) <= dy as int <= h as int,
                ;
                lemma_sqrt_floor_le(
                    distsq as int,
                    (w as int) * (w as int) + (h as int) * (h as int),
                    dist as int,
                    maxd as int,
                );
                assert((1int) * (1int) <= (w as int) * (w as int)) by (nonlinear_arith)
                    requires
                        1 <= w as int,
                ;
                assert(maxd >= 1);
            }
            let q: u64 = 1000 * dist / maxd1;
            proof {
                vstd::arithmetic::div_mod::lemma_div_is_ordered(
                    1000 * (dist as int),
                    1000 * (maxd as int),
                    maxd as int,
                );
                vstd::arithmetic::div_mod::lemma_div_multiples_vanish(1000, maxd as int);
                assert(q <= 1000);
            }
            let t = mul_bounded(v, q as i64, 0x8000_0000, 1000);
            let ft = div_trunc_exec(t, 1000);
            let f: i64 = 1000 - ft;
            let q2 = Pixel {
                r: clampq_exec(mul_bounded(p.r as i64, f, 255, 0x400_0000_0000), 1000),
                g: clampq_exec(mul_bounded(p.g as i64, f, 255, 0x400_0000_0000), 1000),
                b: clampq_exec(mul_bounded(p.b as i64, f, 255, 0x400_0000_0000), 1000),
                a: p.a,
            };
            samples.push(q2);
            proof {
                vstd::arithmetic::div_mod::lemma_fundamental_div_mod_converse(
                    y * w + x,
                    w as int,
                    y as int,
                    x as int,
                );
            }
            x = x + 1;
        }
        proof {
            vstd::arithmetic::mul::lemma_mul_is_distributive_add_other_way(
                w as int,
                y as int,
                1,
            );
        }
        y = y + 1;
    }
    proof {
        assert(y == h);
        assert(samples@.len() == (h as int) * (w as int));
        assert((h as int) * (w as int) == (w as int) * (h as int));
    }
    let out = PixelBuffer { width: w, height: h, samples };
    proof {
        assert(out@.samples =~= vignette_spec(buf@, intensity_milli as int).samples);
        assert(out@ =~= vignette_spec(buf@, intensity_milli as int));
    }
    out
}

/// Vignette with intensity zero leaves every pixel as it was.
pub proof fn lemma_vignette_zero_identity(img: ImageView)
    ensures
        vignette_spec(img, 0) == img,
{
    assert forall|i: int| 0 <= i < img.samples.len() implies vignette_spec(img, 0).samples[i]
        == img.samples[i] by {
        let p = img.samples[i];
        let x = i % img.width;
        let y = i / img.width;
        let dx = img.width - 2 * x;
        let dy = img.height - 2 * y;
        let dist = sqrt_floor(dx * dx + dy * dy);
        let maxd = sqrt_floor(img.width * img.width + img.height * img.height);
        let q = 1000 * dist / maxd;
        assert(0 * q == 0);
        vstd::arithmetic::div_mod::lemma_div_of0(1000);
        assert(div_trunc(0 * q, 1000) == 0);
        vstd::arithmetic::div_mod::lemma_div_multiples_vanish(p.r as int, 1000);
        vstd::arithmetic::div_mod::lemma_div_multiples_vanish(p.g as int, 1000);
        vstd::arithmetic::div_mod::lemma_div_multiples_vanish(p.b as int, 1000);
        assert(vignette_spec(img, 0).samples[i] == vignette_pixel(
            p,
            img.width,
            img.height,
            x,
            y,
            0,
        ));
    }
    assert(vignette_spec(img, 0).samples =~= img.samples);
    assert(vignette_spec(img, 0) =~= img);
}

} // verus!
