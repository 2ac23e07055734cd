use vstd::prelude::*;
use crate::buffer::{ImageView, PixelBuffer};
use crate::math::{clampq, clampq_exec, div_trunc, div_trunc_exec, mul_bounded};
use crate::pixel::Pixel;

verus! {

/// An `Option` of a machine integer, seen as an `Option` of the integer.
pub open spec fn opt_int(v: Option<i32>) -> Option<int> {
    match v {
        Some(x) => Some(x as int),
        None => None,
    }
}

/// One base pixel under one overlay pixel. Where the overlay is fully
/// transparent the base shows through. Without an opacity the overlay pixel
/// replaces the base pixel; with one, every channel is mixed with weight
/// `overlay alpha * opacity / 255` in thousandths.
pub open spec fn overlay_pixel(b: Pixel, o: Pixel, op: Option<int>) -> Pixel {
    if o.a == 0 {
        b
    } else {
        match op {
            None => o,
            Some(v) => {
                let alpha = div_trunc(o.a * v, 255);
                Pixel {
                    r: clampq(b.r * (1000 - alpha) + o.r * alpha, 1000),
                    g: clampq(b.g * (1000 - alpha) + o.g * alpha, 1000),
                    b: clampq(b.b * (1000 - alpha) + o.b * alpha, 1000),
                    a: clampq(b.a * (1000 - alpha) + o.a * alpha, 1000),
                }
            },
        }
    }
}

/// The sample the composite holds at flat index `i`.
pub open spec fn overlay_sample(
    base: ImageView,
    ov: ImageView,
    x0: int,
    y0: int,
    op: Option<int>,
    i: int,
) -> Pixel {
    let x = i % base.width;
    let y = i / base.width;
    let ox = x - x0;
    let oy = y - y0;
    if 0 <= ox < ov.width && 0 <= oy < ov.height {
        overlay_pixel(base.samples[i], ov.sample_at(ox, oy), op)
    } else {
        base.samples[i]
    }
}

/// The base with the overlay composited at `(x0, y0)`: overlay pixels whose
/// position falls outside the base canvas are skipped, the canvas never
/// grows.
pub open spec fn overlay_spec(
    base: ImageView,
    ov: ImageView,
    x0: int,
    y0: int,
    op: Option<int>,
) -> ImageView {
    ImageView {
        width: base.width,
        height: base.height,
        samples: Seq::new(
            base.samples.len(),
            |i: int| overlay_sample(base, ov, x0, y0, op, i),
        ),
    }
}

pub fn overlay(
    base: &PixelBuffer,
    ov: &PixelBuffer,
    x0: i32,
    y0: i32,
    opacity_milli: Option<i32>,
) -> (r: PixelBuffer)
    requires
        base.wf(),
        ov.wf(),
    ensures
        r.wf(),
        r.width == base.width,
        r.height == base.height,
        r@ == overlay_spec(base@, ov@, x0 as int, y0 as int, opt_int(opacity_milli)),
{
    let w = base.width;
    let h = base.height;
    let mut samples: Vec<Pixel> = Vec::new();
    let mut y: u32 = 0;
    while y < h
        invariant
            base.wf(),
            ov.wf(),
            w == base.width,
            h == base.height,
            y <= h,
            samples@.len() == y * w,
            forall|k: int|
                0 <= k < samples@.len() ==> samples@[k] == overlay_sample(
                    base@,
                    ov@,
                    x0 as int,
                    y0 as int,
                    opt_int(opacity_milli),
                    k,
                ),
        decreases h - y,
    {
        let mut x: u32 = 0;
        while x < w
            invariant
                base.wf(),
                ov.wf(),
                w == base.width,
                h == base.height,
                y < h,
                x <= w,
                samples@.len() == y * w + x,
                forall|k: int|
                    0 <= k < samples@.len() ==> samples@[k] == overlay_sample(
                        base@,
                        ov@,
                        x0 as int,
                        y0 as int,
                        opt_int(opacity_milli),
                        k,
                    ),
            decreases w - x,
        {
            let b = base.get(x, y);
            let ox: i64 = (x as i64) - (x0 as i64);
            let oy: i64 = (y as i64) - (y0 as i64);
            let q: Pixel = if 0 <= ox && ox < ov.width as i64 && 0 <= oy && oy
                < ov.height as i64 {
                let o = ov.get(ox as u32, oy as u32);
                if o.a == 0 {
                    b
                } else {
                    match opacity_milli {
                        None => o,
                        Some(v) => {
                            let alpha = div_trunc_exec(
                                mul_bounded(o.a as i64, v as i64, 255, 0x8000_0000),
                                255,
                            );
                            Pixel {
                                r: clampq_exec(
                                    mul_bounded(b.r as i64, 1000 - alpha, 255, 0x8000_1000)
                                        + mul_bounded(o.r as i64, alpha, 255, 0x8000_0000),
                                    1000,
                                ),
                                g: clampq_exec(
                                    mul_bounded(b.g as i64, 1000 - alpha, 255, 0x8000_1000)
                                        + mul_bounded(o.g as i64, alpha, 255, 0x8000_0000),
                                    1000,
                                ),
                                b: clampq_exec(
                                    mul_bounded(b.b as i64, 1000 - alpha, 255, 0x8000_1000)
                                        + mul_bounded(o.b as i64, alpha, 255, 0x8000_0000),
                                    1000,
                                ),
                                a: clampq_exec(
                                    mul_bounded(b.a as i64, 1000 - alpha, 255, 0x8000_1000)
                                        + mul_bounded(o.a as i64, alpha, 255, 0x8000_0000),
                                    1000,
                                ),
                            }
                        },
                    }
                }
            } else {
                b
            };
            samples.push(q);
            proof {
                vstd::arithmetic::div_mod::lemma_fundamental_div_mod_converse(
                    y * w + x,
                    w as int,
                    y as int,
                    x as int,
                );
            }
            x = x + 1;
        }
        proof {
            vstd::arithmetic::mul::lemma_mul_is_distributive_add_other_way(
                w as int,
                y as int,
                1,
            );
        }
        y = y + 1;
    }
    proof {
        assert(y == h);
        assert(samples@.len() == (h as int) * (w as int));
        assert((h as int) * (w as int) == (w as int) * (h as int));
    }
    let out = PixelBuffer { width: w, height: h, samples };
    proof {
        assert(out@.samples =~= overlay_spec(
            base@,
            ov@,
            x0 as int,
            y0 as int,
            opt_int(opacity_milli),
        ).samples);
        assert(out@ =~= overlay_spec(base@, ov@, x0 as int, y0 as int, opt_int(opacity_milli)));
    }
    out
}

/// An overlay placed entirely off the canvas, on any side, leaves the base
/// exactly as it was.
pub proof fn lemma_overlay_outside_identity(
    base: ImageView,
    ov: ImageView,
    x0: int,
    y0: int,
    op: Option<int>,
)
    requires
        base.wf(),
        x0 >= base.width || y0 >= base.height || x0 + ov.width <= 0 || y0 + ov.height <= 0,
    ensures
        overlay_spec(base, ov, x0, y0, op) == base,
{
    assert forall|i: int| 0 <= i < base.samples.len() implies overlay_spec(
        base,
        ov,
        x0,
        y0,
        op,
    ).samples[i] == base.samples[i] by {
        assert(base.width != 0);
        vstd::arithmetic::div_mod::lemma_fundamental_div_mod(i, base.width);
        vstd::arithmetic::div_mod::lemma_mod_bound(i, base.width);
        vstd::arithmetic::div_mod::lemma_div_pos_is_pos(i, base.width);
        let x = i % base.width;
        let y = i / base.width;
        assert(0 <= x < base.width);
        if y >= base.height {
            vstd::arithmetic::mul::lemma_mul_inequality(base.height, y, base.width);
            vstd::arithmetic::mul::lemma_mul_is_commutative(base.width, y);
            vstd::arithmetic::mul::lemma_mul_is_commutative(base.width, base.height);
            assert(false);
        }
        assert(0 <= y < base.height);
    }
    assert(overlay_spec(base, ov, x0, y0, op).samples =~= base.samples);
    assert(overlay_spec(base, ov, x0, y0, op) =~= base);
}

} // verus!
