use vstd::prelude::*;
use crate::buffer::{ImageView, PixelBuffer};
use crate::math::{clampq, clampq_exec, mul_bounded};
use crate::pixel::Pixel;

verus! {

// ---------------------------------------------------------------------------
// Hue rotation: the standard linear color-rotation matrix over R, G, B, with
// the sine in thousandths given by the rational arch approximation, which is
// exact at every multiple of thirty degrees.
// ---------------------------------------------------------------------------
/// Sine in thousandths on the first half turn, `0 <= d <= 180`.
pub open spec fn sin_arch(d: int) -> int {
    4000 * (d * (180 - d)) / (40500 - d * (180 - d))
}

/// Sine in thousandths on a normalized angle, `0 <= d < 360`.
pub open spec fn sin_deg(d: int) -> int {
    if d <= 180 {
        sin_arch(d)
    } else {
        -sin_arch(d - 180)
    }
}

/// Cosine in thousandths on a normalized angle, `0 <= d < 360`.
pub open spec fn cos_deg(d: int) -> int {
    sin_deg((d + 90) % 360)
}

/// One pixel through the rotation matrix for cosine `cs` and sine `sn`, both
/// in thousandths; the matrix rows are the usual luma-preserving rotation
/// coefficients, scaled by one thousand so every entry stays integral.
pub open spec fn hue_pixel(p: Pixel, cs: int, sn: int) -> Pixel {
    Pixel {
        r: clampq(
            (213000 + 787 * cs - 213 * sn) * p.r + (715000 - 715 * cs - 715 * sn) * p.g + (72000
                - 72 * cs + 928 * sn) * p.b,
            1000000,
        ),
        g: clampq(
            (213000 - 213 * cs + 143 * sn) * p.r + (715000 + 285 * cs + 140 * sn) * p.g + (72000
                - 72 * cs - 283 * sn) * p.b,
            1000000,
        ),
        b: clampq(
            (213000 - 213 * cs - 787 * sn) * p.r + (715000 - 715 * cs + 715 * sn) * p.g + (72000
                + 928 * cs + 72 * sn) * p.b,
            1000000,
        ),
        a: p.a,
    }
}

pub open spec fn hue_rotate_spec(img: ImageView, degrees: int) -> ImageView {
    ImageView {
        width: img.width,
        height: img.height,
        samples: Seq::new(
            img.samples.len(),
            |i: int| hue_pixel(
                img.samples[i],
                cos_deg(degrees % 360),
                sin_deg(degrees % 360),
            ),
        ),
    }
}

/// Normalizes an angle in degrees to `[0, 360)`.
pub fn norm360(degrees: i32) -> (r: u32)
    ensures
        r == (degrees as int) % 360,
        r < 360,
{
    proof {
        vstd::arithmetic::div_mod::lemma_mod_multiples_vanish(
            6000000,
            degrees as int,
            360,
        );
    }
    let off: i64 = (degrees as i64) + 2160000000;
    ((off as u64) % 360) as u32
}

/// Sine in thousandths of a half-turn angle.
pub fn sin_arch_exec(d: u32) -> (r: u64)
    requires
        d <= 180,
    ensures
        r == sin_arch(d as int),
        r <= 1000,
{
    proof {
        assert((d as int) * (180 - d as int) <= 8100 && 0 <= (d as int) * (180 - d as int))
            by (nonlinear_arith)
            requires
                0 <= d as int <= 180,
        ;
    }
    let t: u64 = (d as u64) * (180 - (d as u64));
    proof {
        vstd::arithmetic::div_mod::lemma_div_is_ordered(
            4000 * (t as int),
            1000 * (40500 - t as int),
            40500 - t as int,
        );
        vstd::arithmetic::div_mod::lemma_div_multiples_vanish(1000, 40500 - t as int);
    }
    (4000 * t) / (40500 - t)
}

/// Sine in thousandths of a normalized angle.
pub fn sin_deg_exec(d: u32) -> (r: i64)
    requires
        d < 360,
    ensures
        r == sin_deg(d as int),
        -1000 <= r <= 1000,
{
    if d <= 180 {
        sin_arch_exec(d) as i64
    } else {
        -(sin_arch_exec(d - 180) as i64)
    }
}

pub fn hue_rotate(buf: &PixelBuffer, degrees: i32) -> (r: PixelBuffer)
    requires
        buf.wf(),
    ensures
        r.wf(),
        r.width == buf.width,
        r.height == buf.height,
        r@ == hue_rotate_spec(buf@, degrees as int),
{
    let d = norm360(degrees);
    let sn: i64 = sin_deg_exec(d);
    let cs: i64 = sin_deg_exec((d + 90) % 360);
    let c_rr: i64 = 213000 + 787 * cs - 213 * sn;
    let c_rg: i64 = 715000 - 715 * cs - 715 * sn;
    let c_rb: i64 = 72000 - 72 * cs + 928 * sn;
    let c_gr: i64 = 213000 - 213 * cs + 143 * sn;
    let c_gg: i64 = 715000 + 285 * cs + 140 * sn;
    let c_gb: i64 = 72000 - 72 * cs - 283 * sn;
    let c_br: i64 = 213000 - 213 * cs - 787 * sn;
    let c_bg: i64 = 715000 - 715 * cs + 715 * sn;
    let c_bb: i64 = 72000 + 928 * cs + 72 * sn;
    let n = buf.samples.len();
    let mut samples: Vec<Pixel> = Vec::new();
    let mut i: usize = 0;
    while i < n
        invariant
            buf.wf(),
            n == buf@.samples.len(),
            cs == cos_deg(degrees as int % 360),
            sn == sin_deg(degrees as int % 360),
            -1000 <= cs <= 1000,
            -1000 <= sn <= 1000,
            c_rr == 213000 + 787 * cs - 213 * sn,
            c_rg == 715000 - 715 * cs - 715 * sn,
            c_rb == 72000 - 72 * cs + 928 * sn,
            c_gr == 213000 - 213 * cs + 143 * sn,
            c_gg == 715000 + 285 * cs + 140 * sn,
            c_gb == 72000 - 72 * cs - 283 * sn,
            c_br == 213000 - 213 * cs - 787 * sn,
            c_bg == 715000 - 715 * cs + 715 * sn,
            c_bb == 72000 + 928 * cs + 72 * sn,
            i <= n,
            samples@.len() == i,
            forall|j: int|
                0 <= j < i ==> samples@[j] == hue_pixel(
                    buf@.samples[j],
                    cos_deg(degrees as int % 360),
                    sin_deg(degrees as int % 360),
                ),
        decreases n - i,
    {
        let p = buf.samples[i];
        let nr = mul_bounded(c_rr, p.r as i64, 2200000, 255) + mul_bounded(
            c_rg,
            p.g as i64,
            2200000,
            255,
        ) + mul_bounded(c_rb, p.b as i64, 2200000, 255);
        let ng = mul_bounded(c_gr, p.r as i64, 2200000, 255) + mul_bounded(
            c_gg,
            p.g as i64,
            2200000,
            255,
        ) + mul_bounded(c_gb, p.b as i64, 2200000, 255);
        let nb = mul_bounded(c_br, p.r as i64, 2200000, 255) + mul_bounded(
            c_bg,
            p.g as i64,
            2200000,
            255,
        ) + mul_bounded(c_bb, p.b as i64, 2200000, 255);
        samples.push(
            Pixel {
                r: clampq_exec(nr, 1000000),
                g: clampq_exec(ng, 1000000),
                b: clampq_exec(nb, 1000000),
                a: p.a,
            },
        );
        i = i + 1;
    }
    let out = PixelBuffer { width: buf.width, height: buf.height, samples };
    proof {
        assert(out@.samples =~= hue_rotate_spec(buf@, degrees as int).samples);
        assert(out@ =~= hue_rotate_spec(buf@, degrees as int));
    }
    out
}

/// Hue rotation by zero degrees leaves every pixel as it was.
pub proof fn lemma_hue_rotate_zero_identity(img: ImageView)
    ensures
        hue_rotate_spec(img, 0) == img,
{
    assert(sin_deg(0) == 0);
    assert((0 + 90) % 360 == 90int);
    assert(cos_deg(0) == sin_deg(90));
    assert(90 * (180 - 90) == 8100int);
    assert(sin_arch(90) == (4000int * 8100) / (40500int - 8100));
    assert(4000int * 8100 == 32400000int);
    assert(32400000int / 32400int == 1000int);
    assert(cos_deg(0) == 1000);
    assert forall|i: int| 0 <= i < img.samples.len() implies hue_rotate_spec(img, 0).samples[i]
        == img.samples[i] by {
        let p = img.samples[i];
        vstd::arithmetic::div_mod::lemma_div_multiples_vanish(p.r as int, 1000000);
        vstd::arithmetic::div_mod::lemma_div_multiples_vanish(p.g as int, 1000000);
        vstd::arithmetic::div_mod::lemma_div_multiples_vanish(p.b as int, 1000000);
        assert(hue_rotate_spec(img, 0).samples[i] == hue_pixel(p, 1000, 0));
        assert((213000 + 787 * 1000 - 213 * 0) * p.r + (715000 - 715 * 1000 - 715 * 0) * p.g + (
        72000 - 72 * 1000 + 928 * 0) * p.b == 1000000 * p.r) by (nonlinear_arith);
        assert((213000 - 213 * 1000 + 143 * 0) * p.r + (715000 + 285 * 1000 + 140 * 0) * p.g + (
        72000 - 72 * 1000 - 283 * 0) * p.b == 1000000 * p.g) by (nonlinear_arith);
        assert((213000 - 213 * 1000 - 787 * 0) * p.r + (715000 - 715 * 1000 + 715 * 0) * p.g + (
        72000 + 928 * 1000 + 72 * 0) * p.b == 1000000 * p.b) by (nonlinear_arith);
        assert(hue_pixel(p, 1000, 0).r == clampq(1000000 * p.r, 1000000));
        assert(clampq(1000000 * p.r, 1000000) == p.r);
        assert(hue_pixel(p, 1000, 0).g == p.g);
        assert(hue_pixel(p, 1000, 0).b == p.b);
    }
    assert(hue_rotate_spec(img, 0).samples =~= img.samples);
    assert(hue_rotate_spec(img, 0) =~= img);
}

} // verus!
