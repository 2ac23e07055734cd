use vstd::prelude::*;
use crate::buffer::{ImageView, PixelBuffer};
use crate::config::{FilterOperation, Operation, PipelineError, ResizeFilter};
use crate::filters::{
    add_grain, brightness, contrast, double_vision, brightness_spec, contrast_spec,
    double_vision_spec, grain_spec, lemma_brightness_zero_identity, noise_ok, saturation,
    saturation_spec, sepia, sepia_spec, vignette, vignette_spec,
};
use crate::format::str_eq;
use crate::hue::{hue_rotate, hue_rotate_spec};
use crate::overlay::{opt_int, overlay, overlay_spec};
use crate::text::{draw_text, text_spec};
use crate::trusted::{blur_of, blur_raw, resize_of, resize_raw};

verus! {

// ---------------------------------------------------------------------------
// The pipeline executor: applies the configured operations in list order to
// one owned buffer, stopping at the first failure.
// ---------------------------------------------------------------------------
/// The resampling kernel a resize filter name denotes; unknown names fall
/// back to Lanczos-3, as does an absent one.
pub open spec fn filter_name_spec(s: Seq<char>) -> ResizeFilter {
    if s == "nearest"@ {
        ResizeFilter::Nearest
    } else if s == "triangle"@ {
        ResizeFilter::Triangle
    } else if s == "catmull"@ || s == "catmull_rom"@ {
        ResizeFilter::CatmullRom
    } else if s == "gaussian"@ {
        ResizeFilter::Gaussian
    } else {
        ResizeFilter::Lanczos3
    }
}

pub open spec fn filter_of(f: Option<String>) -> ResizeFilter {
    match f {
        None => ResizeFilter::Lanczos3,
        Some(s) => filter_name_spec(s@),
    }
}

/// Parses the optional resize filter name.
pub fn parse_resize_filter(f: &Option<String>) -> (r: ResizeFilter)
    ensures
        r == filter_of(*f),
{
    match f {
        None => ResizeFilter::Lanczos3,
        Some(s) => {
            if str_eq(s.as_str(), "nearest") {
                ResizeFilter::Nearest
            } else if str_eq(s.as_str(), "triangle") {
                ResizeFilter::Triangle
            } else if str_eq(s.as_str(), "catmull") || str_eq(s.as_str(), "catmull_rom") {
                ResizeFilter::CatmullRom
            } else if str_eq(s.as_str(), "gaussian") {
                ResizeFilter::Gaussian
            } else {
                ResizeFilter::Lanczos3
            }
        },
    }
}

/// What one filter leaves on the canvas. Only grain reads the noise draws.
pub open spec fn filter_op_spec(f: FilterOperation, img: ImageView, noise: Seq<u32>) -> ImageView {
    match f {
        FilterOperation::Grain { intensity_milli } => grain_spec(img, intensity_milli as int, noise),
        FilterOperation::Blur { radius } => {
            if img.width <= 0 || img.height <= 0 {
                img
            } else {
                ImageView {
                    width: img.width,
                    height: img.height,
                    samples: blur_of(img.samples, img.width, img.height, radius as int),
                }
            }
        },
        FilterOperation::DoubleVision { offset_x, offset_y, opacity_milli } => double_vision_spec(
            img,
            offset_x as int,
            offset_y as int,
            opacity_milli as int,
        ),
        FilterOperation::Vignette { intensity_milli } => vignette_spec(img, intensity_milli as int),
        FilterOperation::Sepia => sepia_spec(img),
        FilterOperation::Brightness { value_milli } => brightness_spec(img, value_milli as int),
        FilterOperation::Contrast { value_milli } => contrast_spec(img, value_milli as int),
        FilterOperation::Saturation { value_milli } => saturation_spec(img, value_milli as int),
        FilterOperation::HueRotate { degrees } => hue_rotate_spec(img, degrees as int),
    }
}

/// What one operation turns the canvas into, or which error stops the run.
pub open spec fn apply_op_spec(op: Operation, img: ImageView, noise: Seq<u32>) -> Result<
    ImageView,
    PipelineError,
> {
    match op {
        Operation::Resize { width, height, filter } => {
            if width == 0 || height == 0 {
                Err(PipelineError::InvalidParameter)
            } else {
                Ok(
                    ImageView {
                        width: width as int,
                        height: height as int,
                        samples: resize_of(
                            img.samples,
                            img.width,
                            img.height,
                            width as int,
                            height as int,
                            filter_of(filter),
                        ),
                    },
                )
            }
        },
        Operation::Overlay { image, x, y, opacity_milli, blend_mode } => Ok(
            overlay_spec(img, image@, x as int, y as int, opt_int(opacity_milli)),
        ),
        Operation::Filter(f) => Ok(filter_op_spec(f, img, noise)),
        Operation::Text { content, font, size, color, x, y, stroke, shadow } => text_spec(
            img,
            content@,
            font@,
            size as int,
            color@,
            x as int,
            y as int,
            stroke,
            shadow,
        ),
    }
}

/// An executable result against a specified one.
pub open spec fn result_matches(
    r: Result<PixelBuffer, PipelineError>,
    s: Result<ImageView, PipelineError>,
) -> bool {
    match (r, s) {
        (Ok(b), Ok(v)) => b@ == v,
        (Err(e1), Err(e2)) => e1 == e2,
        _ => false,
    }
}

/// The whole pipeline over its noise draws, one inner sequence per
/// operation: the empty list keeps the image, otherwise the prefix runs
/// first and the last operation is applied to its output; the first error
/// aborts everything after it.
pub open spec fn run_spec(
    ops: Seq<Operation>,
    img: ImageView,
    noises: Seq<Seq<u32>>,
) -> Result<ImageView, PipelineError>
    decreases ops.len(),
{
    if ops.len() == 0 {
        Ok(img)
    } else {
        match run_spec(ops.drop_last(), img, noises.drop_last()) {
            Ok(v) => apply_op_spec(ops.last(), v, noises.last()),
            Err(e) => Err(e),
        }
    }
}

pub open spec fn noises_ok(noises: Seq<Seq<u32>>) -> bool {
    forall|i: int| 0 <= i < noises.len() ==> noise_ok(noises[i])
}

pub struct ImageProcessor;

impl ImageProcessor {
    /// One filter applied to the buffer. Filters never fail; only grain
    /// draws noise, so for every other filter the result is pinned exactly.
    pub fn apply_filter_operation(img: PixelBuffer, filter_op: &FilterOperation) -> (r:
        PixelBuffer)
        requires
            img.wf(),
        ensures
            r.wf(),
            exists|noise: Seq<u32>|
                #![auto]
                noise_ok(noise) && noise.len() == img@.samples.len() && r@ == filter_op_spec(
                    *filter_op,
                    img@,
                    noise,
                ),
    {
        let ghost zero_noise: Seq<u32> = Seq::new(img@.samples.len(), |i: int| 0u32);
        let out = match filter_op {
            FilterOperation::Grain { intensity_milli } => {
                let r = add_grain(&img, *intensity_milli);
                proof {
                    let nz = choose|nz: Seq<u32>|
                        nz.len() == img@.samples.len() && noise_ok(nz) && r@ == grain_spec(
                            img@,
                            *intensity_milli as int,
                            nz,
                        );
                    assert(noise_ok(nz) && nz.len() == img@.samples.len() && r@ == filter_op_spec(
                        *filter_op,
                        img@,
                        nz,
                    ));
                }
                r
            },
            FilterOperation::Blur { radius } => {
                if img.width == 0 || img.height == 0 {
                    proof {
                        assert(noise_ok(zero_noise) && zero_noise.len() == img@.samples.len()
                            && img@ == filter_op_spec(*filter_op, img@, zero_noise));
                    }
                    img
                } else {
                    let r = blur_raw(&img, *radius);
                    proof {
                        assert(noise_ok(zero_noise) && zero_noise.len() == img@.samples.len()
                            && r@ =~= filter_op_spec(*filter_op, img@, zero_noise));
                    }
                    r
                }
            },
            FilterOperation::DoubleVision { offset_x, offset_y, opacity_milli } => {
                let r = double_vision(&img, *offset_x, *offset_y, *opacity_milli);
                proof {
                    assert(noise_ok(zero_noise) && zero_noise.len() == img@.samples.len() && r@
                        == filter_op_spec(*filter_op, img@, zero_noise));
                }
                r
            },
            FilterOperation::Vignette { intensity_milli } => {
                let r = vignette(&img, *intensity_milli);
                proof {
                    assert(noise_ok(zero_noise) && zero_noise.len() == img@.samples.len() && r@
                        == filter_op_spec(*filter_op, img@, zero_noise));
                }
                r
            },
            FilterOperation::Sepia => {
                let r = sepia(&img);
                proof {
                    assert(noise_ok(zero_noise) && zero_noise.len() == img@.samples.len() && r@
                        == filter_op_spec(*filter_op, img@, zero_noise));
                }
                r
            },
            FilterOperation::Brightness { value_milli } => {
                let r = brightness(&img, *value_milli);
                proof {
                    assert(noise_ok(zero_noise) && zero_noise.len() == img@.samples.len() && r@
                        == filter_op_spec(*filter_op, img@, zero_noise));
                }
                r
            },
            FilterOperation::Contrast { value_milli } => {
                let r = contrast(&img, *value_milli);
                proof {
                    assert(noise_ok(zero_noise) && zero_noise.len() == img@.samples.len() && r@
                        == filter_op_spec(*filter_op, img@, zero_noise));
                }
                r
            },
            FilterOperation::Saturation { value_milli } => {
                let r = saturation(&img, *value_milli);
                proof {
                    assert(noise_ok(zero_noise) && zero_noise.len() == img@.samples.len() && r@
                        == filter_op_spec(*filter_op, img@, zero_noise));
                }
                r
            },
            FilterOperation::HueRotate { degrees } => {
                let r = hue_rotate(&img, *degrees);
                proof {
                    assert(noise_ok(zero_noise) && zero_noise.len() == img@.samples.len() && r@
                        == filter_op_spec(*filter_op, img@, zero_noise));
                }
                r
            },
        };
        out
    }

    /// One operation applied to the buffer, or the error that stops the run.
    pub fn apply_operation(img: PixelBuffer, operation: &Operation) -> (r: Result<
        PixelBuffer,
        PipelineError,
    >)
        requires
            img.wf(),
            operation.wf(),
        ensures
            r is Ok ==> r->Ok_0.wf(),
            exists|noise: Seq<u32>|
                #![auto]
                noise_ok(noise) && noise.len() == img@.samples.len() && result_matches(
                    r,
                    apply_op_spec(*operation, img@, noise),
                ),
    {
        let ghost zero_noise: Seq<u32> = Seq::new(img@.samples.len(), |i: int| 0u32);
        match operation {
            Operation::Resize { width, height, filter } => {
                if *width == 0 || *height == 0 {
                    proof {
                        assert(noise_ok(zero_noise) && zero_noise.len() == img@.samples.len()
                            && result_matches(
                            Err(PipelineError::InvalidParameter),
                            apply_op_spec(*operation, img@, zero_noise),
                        ));
                    }
                    Err(PipelineError::InvalidParameter)
                } else {
                    let ft = parse_resize_filter(filter);
                    let out = resize_raw(&img, *width, *height, ft);
                    proof {
                        assert(noise_ok(zero_noise) && zero_noise.len() == img@.samples.len()
                            && result_matches(
                            Ok(out),
                            apply_op_spec(*operation, img@, zero_noise),
                        ));
                    }
                    Ok(out)
                }
            },
            Operation::Overlay { image, x, y, opacity_milli, blend_mode } => {
                let out = overlay(&img, image, *x, *y, *opacity_milli);
                proof {
                    assert(noise_ok(zero_noise) && zero_noise.len() == img@.samples.len()
                        && result_matches(Ok(out), apply_op_spec(*operation, img@, zero_noise)));
                }
                Ok(out)
            },
            Operation::Filter(f) => {
                let out = Self::apply_filter_operation(img, f);
                proof {
                    let nz = choose|nz: Seq<u32>|
                        #![auto]
                        noise_ok(nz) && nz.len() == img@.samples.len() && out@ == filter_op_spec(
                            *f,
                            img@,
                            nz,
                        );
                    assert(noise_ok(nz) && nz.len() == img@.samples.len() && result_matches(
                        Ok(out),
                        apply_op_spec(*operation, img@, nz),
                    ));
                }
                Ok(out)
            },
            Operation::Text { content, font, size, color, x, y, stroke, shadow } => {
                let res = draw_text(img, content, font, *size, color, *x, *y, stroke, shadow);
                proof {
                    assert(noise_ok(zero_noise) && zero_noise.len() == img@.samples.len()
                        && result_matches(res, apply_op_spec(*operation, img@, zero_noise)));
                }
                res
            },
        }
    }

    /// Runs the pipeline: the operations in list order over one owned
    /// buffer; the first failing operation aborts the run with its error and
    /// nothing later executes.
    pub fn process(img: PixelBuffer, operations: &Vec<Operation>) -> (r: Result<
        PixelBuffer,
        PipelineError,
    >)
        requires
            img.wf(),
            forall|i: int| 0 <= i < operations@.len() ==> (#[trigger] operations@[i]).wf(),
        ensures
            r is Ok ==> r->Ok_0.wf(),
            exists|noises: Seq<Seq<u32>>|
                #![auto]
                noises_ok(noises) && noises.len() == operations@.len() && result_matches(
                    r,
                    run_spec(operations@, img@, noises),
                ),
    {
        let ghost img0: ImageView = img@;
        let mut cur = img;
        let ghost mut gnoises: Seq<Seq<u32>> = Seq::empty();
        let mut i: usize = 0;
        proof {
            assert(operations@.subrange(0, 0) =~= Seq::<Operation>::empty());
            assert(run_spec(operations@.subrange(0, 0), img0, gnoises) == Ok::<
                ImageView,
                PipelineError,
            >(img0));
        }
        #[verifier::loop_isolation(false)]
        while i < operations.len()
            invariant
                cur.wf(),
                i <= operations@.len(),
                forall|j: int| 0 <= j < operations@.len() ==> (#[trigger] operations@[j]).wf(),
                gnoises.len() == i,
                noises_ok(gnoises),
                run_spec(operations@.subrange(0, i as int), img0, gnoises) == Ok::<
                    ImageView,
                    PipelineError,
                >(cur@),
            decreases operations@.len() - i,
        {
            let op = &operations[i];
            let ghost prev: ImageView = cur@;
            let res = Self::apply_operation(cur, op);
            let ghost nz = choose|nz: Seq<u32>|
                #![auto]
                noise_ok(nz) && nz.len() == prev.samples.len() && result_matches(
                    res,
                    apply_op_spec(*op, prev, nz),
                );
            let ghost old_gnoises: Seq<Seq<u32>> = gnoises;
            proof {
                gnoises = gnoises.push(nz);
                assert(operations@.subrange(0, i + 1).drop_last() =~= operations@.subrange(
                    0,
                    i as int,
                ));
                assert(gnoises.drop_last() =~= old_gnoises);
                assert(gnoises.last() == nz);
                assert(operations@.subrange(0, i + 1).last() == operations@[i as int]);
            }
            match res {
                Ok(next) => {
                    proof {
                        assert(run_spec(operations@.subrange(0, i + 1), img0, gnoises) == Ok::<
                            ImageView,
                            PipelineError,
                        >(next@));
                    }
                    cur = next;
                },
                Err(e) => {
                    proof {
                        let pad = Seq::new(
                            (operations@.len() - i - 1) as nat,
                            |j: int| Seq::<u32>::empty(),
                        );
                        let full = gnoises + pad;
                        assert(noises_ok(full)) by {
                            assert(forall|j: int|
                                0 <= j < gnoises.len() ==> full[j] == gnoises[j]);
                            assert(forall|j: int|
                                gnoises.len() <= j < full.len() ==> full[j]
                                    == Seq::<u32>::empty());
                        }
                        assert(full.len() == operations@.len());
                        assert(full.subrange(0, i + 1) =~= gnoises);
                        assert(run_spec(operations@.subrange(0, i + 1), img0, gnoises) == Err::<
                            ImageView,
                            PipelineError,
                        >(e));
                        assert(full.subrange(0, i + 1) == gnoises);
                        assert(run_spec(operations@.subrange(0, i + 1), img0, full.subrange(0, i + 1)) == Err::<
                            ImageView,
                            PipelineError,
                        >(e));
                        lemma_run_err_extends(operations@, img0, full, i + 1, e);
                        assert(run_spec(operations@, img0, full) == Err::<ImageView, PipelineError>(e));
                        assert(noises_ok(full) && full.len() == operations@.len()
                            && result_matches(
                            Err::<PixelBuffer, PipelineError>(e),
                            run_spec(operations@, img0, full),
                        ));
                    }
                    return Err(e);
                },
            }
            i = i + 1;
        }
        proof {
            assert(operations@.subrange(0, operations@.len() as int) =~= operations@);
        }
        Ok(cur)
    }
}

/// A failed prefix decides the whole run: once some prefix of the
/// operations ends in an error, the full list ends in the same error.
proof fn lemma_run_err_extends(
    ops: Seq<Operation>,
    img: ImageView,
    noises: Seq<Seq<u32>>,
    k: int,
    e: PipelineError,
)
    requires
        0 <= k <= ops.len(),
        noises.len() == ops.len(),
        run_spec(ops.subrange(0, k), img, noises.subrange(0, k)) == Err::<ImageView, PipelineError>(
            e,
        ),
    ensures
        run_spec(ops, img, noises) == Err::<ImageView, PipelineError>(e),
    decreases ops.len() - k,
{
    if k == ops.len() {
        assert(ops.subrange(0, k) =~= ops);
        assert(noises.subrange(0, k) =~= noises);
    } else {
        assert(ops.subrange(0, k + 1).drop_last() =~= ops.subrange(0, k));
        assert(noises.subrange(0, k + 1).drop_last() =~= noises.subrange(0, k));
        assert(run_spec(ops.subrange(0, k + 1), img, noises.subrange(0, k + 1)) == Err::<
            ImageView,
            PipelineError,
        >(e));
        lemma_run_err_extends(ops, img, noises, k + 1, e);
    }
}

/// A resize to positive dimensions always succeeds and yields exactly the
/// requested width and height; a zero dimension is refused as an invalid
/// parameter.
pub proof fn lemma_resize_dimensions(
    width: u32,
    height: u32,
    filter: Option<String>,
    img: ImageView,
    noise: Seq<u32>,
)
    ensures
        width > 0 && height > 0 ==> {
            &&& apply_op_spec(Operation::Resize { width, height, filter }, img, noise) is Ok
            &&& apply_op_spec(
                Operation::Resize { width, height, filter },
                img,
                noise,
            )->Ok_0.width == width
            &&& apply_op_spec(
                Operation::Resize { width, height, filter },
                img,
                noise,
            )->Ok_0.height == height
        },
        width == 0 || height == 0 ==> apply_op_spec(
            Operation::Resize { width, height, filter },
            img,
            noise,
        ) == Err::<ImageView, PipelineError>(PipelineError::InvalidParameter),
{
}

// ---------------------------------------------------------------------------
// The pipeline is deterministic but for grain.
// ---------------------------------------------------------------------------
pub open spec fn has_grain(op: Operation) -> bool {
    match op {
        Operation::Filter(FilterOperation::Grain { .. }) => true,
        _ => false,
    }
}

pub open spec fn grain_free(ops: Seq<Operation>) -> bool {
    forall|i: int| 0 <= i < ops.len() ==> !has_grain(#[trigger] ops[i])
}

/// An operation that is not grain reads no noise at all.
proof fn lemma_apply_op_noise_independent(
    op: Operation,
    img: ImageView,
    n1: Seq<u32>,
    n2: Seq<u32>,
)
    requires
        !has_grain(op),
    ensures
        apply_op_spec(op, img, n1) == apply_op_spec(op, img, n2),
{
}

/// Two runs of the same grain-free pipeline on the same image give the same
/// result, whatever either run drew: with grain absent the pipeline is
/// deterministic.
pub proof fn lemma_run_deterministic_without_grain(
    ops: Seq<Operation>,
    img: ImageView,
    n1: Seq<Seq<u32>>,
    n2: Seq<Seq<u32>>,
)
    requires
        grain_free(ops),
    ensures
        run_spec(ops, img, n1) == run_spec(ops, img, n2),
    decreases ops.len(),
{
    if ops.len() > 0 {
        assert(grain_free(ops.drop_last())) by {
            assert(forall|i: int|
                0 <= i < ops.drop_last().len() ==> ops.drop_last()[i] == ops[i]);
        }
        lemma_run_deterministic_without_grain(ops.drop_last(), img, n1.drop_last(), n2.drop_last());
        assert(!has_grain(ops.last())) by {
            assert(ops.last() == ops[ops.len() - 1]);
        }
        match run_spec(ops.drop_last(), img, n1.drop_last()) {
            Ok(v) => {
                lemma_apply_op_noise_independent(ops.last(), v, n1.last(), n2.last());
            },
            Err(_) => {},
        }
    }
}

/// A sepia pass followed by a zero brightness pass equals the sepia pass
/// alone: brightness zero is the identity, so the composition adds nothing.
pub proof fn lemma_sepia_brightness_zero_pipeline(
    img: ImageView,
    n2: Seq<Seq<u32>>,
    n1: Seq<Seq<u32>>,
)
    ensures
        run_spec(
            seq![
                Operation::Filter(FilterOperation::Sepia),
                Operation::Filter(FilterOperation::Brightness { value_milli: 0 }),
            ],
            img,
            n2,
        ) == run_spec(seq![Operation::Filter(FilterOperation::Sepia)], img, n1),
{
    let s = Operation::Filter(FilterOperation::Sepia);
    let b = Operation::Filter(FilterOperation::Brightness { value_milli: 0 });
    let ops1 = seq![s];
    let ops2 = seq![s, b];
    lemma_run_single_sepia(img, n1);
    lemma_run_single_sepia(img, n2.drop_last());
    assert(ops2.len() == 2);
    assert(ops2.last() == b);
    assert(ops2.drop_last() =~= ops1);
    assert(run_spec(ops2.drop_last(), img, n2.drop_last()) == Ok::<ImageView, PipelineError>(
        sepia_spec(img),
    ));
    lemma_brightness_zero_identity(sepia_spec(img));
    assert(apply_op_spec(b, sepia_spec(img), n2.last()) == Ok::<ImageView, PipelineError>(
        sepia_spec(img),
    ));
    assert(run_spec(ops2, img, n2) == Ok::<ImageView, PipelineError>(sepia_spec(img)));
}

/// Appending a zero brightness pass after a sepia pass changes nothing, for
/// any shared list of operations before them, provided that shared prefix is
/// grain free: with grain in the prefix the two runs draw different noise
/// and need not agree at all.
pub proof fn lemma_append_brightness_zero_after_sepia(
    ops: Seq<Operation>,
    img: ImageView,
    n1: Seq<Seq<u32>>,
    n2: Seq<Seq<u32>>,
)
    requires
        grain_free(ops),
    ensures
        run_spec(
            ops + seq![
                Operation::Filter(FilterOperation::Sepia),
                Operation::Filter(FilterOperation::Brightness { value_milli: 0 }),
            ],
            img,
            n1,
        ) == run_spec(
            ops + seq![Operation::Filter(FilterOperation::Sepia)],
            img,
            n2,
        ),
{
    let s = Operation::Filter(FilterOperation::Sepia);
    let b = Operation::Filter(FilterOperation::Brightness { value_milli: 0 });
    let ops2 = ops + seq![s, b];
    let ops1 = ops + seq![s];
    assert(ops2.drop_last() =~= ops1);
    assert(ops2.last() == b);
    assert(ops1.drop_last() =~= ops);
    assert(ops1.last() == s);
    lemma_run_deterministic_without_grain(
        ops,
        img,
        n1.drop_last().drop_last(),
        n2.drop_last(),
    );
    match run_spec(ops, img, n2.drop_last()) {
        Ok(v) => {
            assert(run_spec(ops1, img, n2) == Ok::<ImageView, PipelineError>(sepia_spec(v)));
            assert(run_spec(ops1, img, n1.drop_last()) == Ok::<ImageView, PipelineError>(
                sepia_spec(v),
            ));
            lemma_brightness_zero_identity(sepia_spec(v));
            assert(run_spec(ops2, img, n1) == Ok::<ImageView, PipelineError>(sepia_spec(v)));
        },
        Err(e) => {
            assert(run_spec(ops1, img, n2) == Err::<ImageView, PipelineError>(e));
            assert(run_spec(ops1, img, n1.drop_last()) == Err::<ImageView, PipelineError>(e));
            assert(run_spec(ops2, img, n1) == Err::<ImageView, PipelineError>(e));
        },
    }
}

/// One sepia pass gives exactly the sepia image, whatever was drawn.
proof fn lemma_run_single_sepia(img: ImageView, n: Seq<Seq<u32>>)
    ensures
        run_spec(
            seq![Operation::Filter(FilterOperation::Sepia)],
            img,
            n,
        ) == Ok::<ImageView, PipelineError>(sepia_spec(img)),
{
    let s = Operation::Filter(FilterOperation::Sepia);
    let ops1 = seq![s];
    assert(ops1.len() == 1);
    assert(ops1.last() == s);
    assert(ops1.drop_last() =~= Seq::<Operation>::empty());
    assert(run_spec(ops1.drop_last(), img, n.drop_last()) == Ok::<ImageView, PipelineError>(img));
    assert(apply_op_spec(s, img, n.last()) == Ok::<ImageView, PipelineError>(sepia_spec(img)));
}

} // verus!
