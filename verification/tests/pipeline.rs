use pixelpipe::buffer::PixelBuffer;
use pixelpipe::config::{FilterOperation, Operation, PipelineError, Stroke};
use pixelpipe::overlay::overlay;
use pixelpipe::pixel::Pixel;
use pixelpipe::processor::ImageProcessor;

fn solid(width: u32, height: u32, p: Pixel) -> PixelBuffer {
    PixelBuffer::new_filled(width, height, p)
}

fn clone_buf(buf: &PixelBuffer) -> PixelBuffer {
    let mut samples = Vec::new();
    for y in 0..buf.height {
        for x in 0..buf.width {
            samples.push(buf.get(x, y));
        }
    }
    PixelBuffer::from_samples(buf.width, buf.height, samples).unwrap()
}

fn buffers_equal(a: &PixelBuffer, b: &PixelBuffer) -> bool {
    if a.width != b.width || a.height != b.height {
        return false;
    }
    for y in 0..a.height {
        for x in 0..a.width {
            if a.get(x, y) != b.get(x, y) {
                return false;
            }
        }
    }
    true
}

#[test]
fn overlay_replaces_where_visible() {
    let base = solid(2, 2, Pixel::new(0, 0, 0, 255));
    let ov = solid(1, 1, Pixel::new(9, 8, 7, 200));
    let out = overlay(&base, &ov, 1, 0, None);
    assert_eq!(out.get(1, 0), Pixel::new(9, 8, 7, 200));
    assert_eq!(out.get(0, 0), Pixel::new(0, 0, 0, 255));
    assert_eq!(out.get(0, 1), Pixel::new(0, 0, 0, 255));
    assert_eq!(out.get(1, 1), Pixel::new(0, 0, 0, 255));
}

#[test]
fn overlay_skips_transparent_pixels() {
    let base = solid(1, 1, Pixel::new(1, 2, 3, 4));
    let ov = solid(1, 1, Pixel::new(9, 8, 7, 0));
    let out = overlay(&base, &ov, 0, 0, None);
    assert_eq!(out.get(0, 0), Pixel::new(1, 2, 3, 4));
}

#[test]
fn overlay_entirely_outside_is_identity() {
    let base = solid(3, 2, Pixel::new(5, 6, 7, 255));
    let ov = solid(2, 2, Pixel::new(200, 0, 0, 255));
    for (x, y) in [(3i32, 0i32), (0, 2), (-2, 0), (0, -2), (100, 100)] {
        let out = overlay(&base, &ov, x, y, None);
        assert!(buffers_equal(&out, &base));
        let blended = overlay(&base, &ov, x, y, Some(700));
        assert!(buffers_equal(&blended, &base));
    }
}

#[test]
fn overlay_negative_origin_clips_top_left() {
    let base = solid(2, 1, Pixel::new(0, 0, 0, 255));
    let ov = PixelBuffer::from_samples(
        2,
        1,
        vec![Pixel::new(10, 10, 10, 255), Pixel::new(20, 20, 20, 255)],
    )
    .unwrap();
    let out = overlay(&base, &ov, -1, 0, None);
    // Only the overlay's second pixel lands on the canvas, at the origin.
    assert_eq!(out.get(0, 0), Pixel::new(20, 20, 20, 255));
    assert_eq!(out.get(1, 0), Pixel::new(0, 0, 0, 255));
}

#[test]
fn overlay_with_opacity_blends() {
    let base = solid(1, 1, Pixel::new(0, 0, 0, 255));
    let ov = solid(1, 1, Pixel::new(255, 255, 255, 255));
    let out = overlay(&base, &ov, 0, 0, Some(500));
    // Effective alpha 500: each channel is (base*500 + overlay*500) / 1000.
    assert_eq!(out.get(0, 0), Pixel::new(127, 127, 127, 255));
}

#[test]
fn resize_yields_requested_dimensions() {
    let img = solid(7, 5, Pixel::new(10, 20, 30, 255));
    let ops = vec![Operation::Resize {
        width: 3,
        height: 9,
        filter: Some(String::from("triangle")),
    }];
    let out = ImageProcessor::process(img, &ops).unwrap();
    assert_eq!(out.width, 3);
    assert_eq!(out.height, 9);
}

#[test]
fn resize_unknown_filter_falls_back() {
    let img = solid(4, 4, Pixel::new(255, 0, 0, 255));
    let ops = vec![Operation::Resize {
        width: 2,
        height: 2,
        filter: Some(String::from("bogus")),
    }];
    let out = ImageProcessor::process(img, &ops).unwrap();
    assert_eq!(out.width, 2);
    assert_eq!(out.height, 2);
}

#[test]
fn resize_accepts_catmull_rom_spelling() {
    let img = solid(4, 4, Pixel::new(255, 0, 0, 255));
    let ops = vec![Operation::Resize {
        width: 2,
        height: 2,
        filter: Some(String::from("catmull_rom")),
    }];
    let out = ImageProcessor::process(img, &ops).unwrap();
    assert_eq!(out.width, 2);
    assert_eq!(out.height, 2);
}

#[test]
fn resize_zero_width_is_invalid() {
    let img = solid(4, 4, Pixel::new(1, 1, 1, 255));
    let ops = vec![Operation::Resize {
        width: 0,
        height: 2,
        filter: None,
    }];
    assert_eq!(
        ImageProcessor::process(img, &ops).unwrap_err(),
        PipelineError::InvalidParameter
    );
}

#[test]
fn resize_zero_height_is_invalid() {
    let img = solid(4, 4, Pixel::new(1, 1, 1, 255));
    let ops = vec![Operation::Resize {
        width: 2,
        height: 0,
        filter: None,
    }];
    assert_eq!(
        ImageProcessor::process(img, &ops).unwrap_err(),
        PipelineError::InvalidParameter
    );
}

#[test]
fn resize_nearest_keeps_solid_red() {
    let img = solid(4, 4, Pixel::new(255, 0, 0, 255));
    let ops = vec![Operation::Resize {
        width: 2,
        height: 2,
        filter: Some(String::from("nearest")),
    }];
    let out = ImageProcessor::process(img, &ops).unwrap();
    assert_eq!(out.width, 2);
    assert_eq!(out.height, 2);
    for y in 0..2 {
        for x in 0..2 {
            assert_eq!(out.get(x, y), Pixel::new(255, 0, 0, 255));
        }
    }
}

#[test]
fn blur_keeps_dimensions_and_spreads_the_edge() {
    let mut samples = Vec::new();
    for x in 0..8 {
        let c = if x < 4 { 0 } else { 255 };
        samples.push(Pixel::new(c, c, c, 255));
    }
    let img = PixelBuffer::from_samples(8, 1, samples).unwrap();
    let ops = vec![Operation::Filter(FilterOperation::Blur { radius: 2 })];
    let out = ImageProcessor::process(img, &ops).unwrap();
    assert_eq!(out.width, 8);
    assert_eq!(out.height, 1);
    let mut changed = false;
    for x in 0..8 {
        let c = if x < 4 { 0 } else { 255 };
        if out.get(x, 0) != Pixel::new(c, c, c, 255) {
            changed = true;
        }
    }
    assert!(changed);
}

#[test]
fn blur_on_empty_canvas_returns_it_unchanged() {
    let img = PixelBuffer::from_samples(0, 3, Vec::new()).unwrap();
    let ops = vec![Operation::Filter(FilterOperation::Blur { radius: 5 })];
    let out = ImageProcessor::process(img, &ops).unwrap();
    assert_eq!(out.width, 0);
    assert_eq!(out.height, 3);

    let img = PixelBuffer::from_samples(4, 0, Vec::new()).unwrap();
    let ops = vec![Operation::Filter(FilterOperation::Blur { radius: 1 })];
    let out = ImageProcessor::process(img, &ops).unwrap();
    assert_eq!(out.width, 4);
    assert_eq!(out.height, 0);
}

#[test]
fn appended_zero_brightness_changes_nothing_after_prefix() {
    let img = solid(4, 4, Pixel::new(40, 90, 160, 255));
    let with_both = vec![
        Operation::Filter(FilterOperation::Vignette {
            intensity_milli: 400,
        }),
        Operation::Filter(FilterOperation::Saturation { value_milli: 1500 }),
        Operation::Filter(FilterOperation::Sepia),
        Operation::Filter(FilterOperation::Brightness { value_milli: 0 }),
    ];
    let with_sepia = vec![
        Operation::Filter(FilterOperation::Vignette {
            intensity_milli: 400,
        }),
        Operation::Filter(FilterOperation::Saturation { value_milli: 1500 }),
        Operation::Filter(FilterOperation::Sepia),
    ];
    let a = ImageProcessor::process(clone_buf(&img), &with_both).unwrap();
    let b = ImageProcessor::process(clone_buf(&img), &with_sepia).unwrap();
    assert!(buffers_equal(&a, &b));
}

#[test]
fn pipeline_without_grain_is_deterministic() {
    let ops = vec![
        Operation::Filter(FilterOperation::Sepia),
        Operation::Filter(FilterOperation::Vignette {
            intensity_milli: 600,
        }),
        Operation::Resize {
            width: 3,
            height: 3,
            filter: Some(String::from("catmull")),
        },
        Operation::Filter(FilterOperation::HueRotate { degrees: 45 }),
    ];
    let img = solid(5, 4, Pixel::new(120, 45, 200, 255));
    let first = ImageProcessor::process(clone_buf(&img), &ops).unwrap();
    let second = ImageProcessor::process(clone_buf(&img), &ops).unwrap();
    assert!(buffers_equal(&first, &second));
}

#[test]
fn sepia_then_zero_brightness_equals_sepia_alone() {
    let img = solid(3, 3, Pixel::new(12, 180, 90, 255));
    let both = vec![
        Operation::Filter(FilterOperation::Sepia),
        Operation::Filter(FilterOperation::Brightness { value_milli: 0 }),
    ];
    let alone = vec![Operation::Filter(FilterOperation::Sepia)];
    let a = ImageProcessor::process(clone_buf(&img), &both).unwrap();
    let b = ImageProcessor::process(clone_buf(&img), &alone).unwrap();
    assert!(buffers_equal(&a, &b));
}

#[test]
fn pipeline_stops_at_first_error() {
    let img = solid(4, 4, Pixel::new(1, 1, 1, 255));
    let ops = vec![
        Operation::Filter(FilterOperation::Sepia),
        Operation::Resize {
            width: 0,
            height: 0,
            filter: None,
        },
        Operation::Filter(FilterOperation::Brightness { value_milli: 9000 }),
    ];
    assert_eq!(
        ImageProcessor::process(img, &ops).unwrap_err(),
        PipelineError::InvalidParameter
    );
}

#[test]
fn empty_pipeline_returns_the_image() {
    let img = solid(2, 3, Pixel::new(9, 9, 9, 9));
    let out = ImageProcessor::process(clone_buf(&img), &Vec::new()).unwrap();
    assert!(buffers_equal(&out, &img));
}

#[test]
fn text_with_bad_color_is_invalid() {
    let img = solid(4, 4, Pixel::new(0, 0, 0, 255));
    let ops = vec![Operation::Text {
        content: String::from("hi"),
        font: vec![0, 1, 2, 3],
        size: 12,
        color: String::from("#abc"),
        x: 0,
        y: 0,
        stroke: None,
        shadow: None,
    }];
    assert_eq!(
        ImageProcessor::process(img, &ops).unwrap_err(),
        PipelineError::InvalidParameter
    );
}

#[test]
fn text_with_negative_stroke_width_is_invalid() {
    let img = solid(4, 4, Pixel::new(0, 0, 0, 255));
    let ops = vec![Operation::Text {
        content: String::from("hi"),
        font: vec![0, 1, 2, 3],
        size: 12,
        color: String::from("#ffffff"),
        x: 0,
        y: 0,
        stroke: Some(Stroke {
            color: String::from("#000000"),
            width: -2,
        }),
        shadow: None,
    }];
    assert_eq!(
        ImageProcessor::process(img, &ops).unwrap_err(),
        PipelineError::InvalidParameter
    );
}

#[test]
fn text_with_unparsable_font_is_decode_error() {
    let img = solid(4, 4, Pixel::new(0, 0, 0, 255));
    let ops = vec![Operation::Text {
        content: String::from("hi"),
        font: vec![0, 1, 2, 3],
        size: 12,
        color: String::from("#ffffff"),
        x: 0,
        y: 0,
        stroke: None,
        shadow: None,
    }];
    assert_eq!(
        ImageProcessor::process(img, &ops).unwrap_err(),
        PipelineError::DecodeError
    );
}
