use pixelpipe::buffer::PixelBuffer;
use pixelpipe::filters::{
    add_grain, brightness, contrast, double_vision, grain_apply, saturation, sepia, vignette,
};
use pixelpipe::hue::hue_rotate;
use pixelpipe::pixel::Pixel;

fn buf_of(width: u32, height: u32, samples: Vec<Pixel>) -> PixelBuffer {
    PixelBuffer::from_samples(width, height, samples).unwrap()
}

fn solid(width: u32, height: u32, p: Pixel) -> PixelBuffer {
    PixelBuffer::new_filled(width, height, p)
}

fn sample_image() -> PixelBuffer {
    buf_of(
        2,
        2,
        vec![
            Pixel::new(10, 200, 30, 255),
            Pixel::new(255, 0, 0, 128),
            Pixel::new(0, 0, 0, 0),
            Pixel::new(77, 88, 99, 200),
        ],
    )
}

#[test]
fn sepia_on_white_clamps_red_and_green() {
    // The red and green matrix rows sum to more than one, so those channels
    // clamp at 255; the blue row sums to 0.937, so 255 falls to 238.
    let out = sepia(&solid(2, 2, Pixel::new(255, 255, 255, 255)));
    for y in 0..2 {
        for x in 0..2 {
            assert_eq!(out.get(x, y), Pixel::new(255, 255, 238, 255));
        }
    }
}

#[test]
fn sepia_exact_values() {
    let out = sepia(&solid(1, 1, Pixel::new(100, 50, 25, 7)));
    // (393*100 + 769*50 + 189*25) / 1000 = 82, and likewise 73 and 57.
    assert_eq!(out.get(0, 0), Pixel::new(82, 73, 57, 7));
}

#[test]
fn brightness_zero_is_identity() {
    let img = sample_image();
    let out = brightness(&img, 0);
    for y in 0..2 {
        for x in 0..2 {
            assert_eq!(out.get(x, y), img.get(x, y));
        }
    }
}

#[test]
fn brightness_adds_whole_units() {
    let out = brightness(&solid(1, 1, Pixel::new(10, 250, 0, 255)), 10_000);
    assert_eq!(out.get(0, 0), Pixel::new(20, 255, 10, 255));
}

#[test]
fn brightness_negative_clamps_at_zero() {
    let out = brightness(&solid(1, 1, Pixel::new(10, 0, 200, 255)), -50_000);
    assert_eq!(out.get(0, 0), Pixel::new(0, 0, 150, 205));
}

#[test]
fn contrast_one_is_identity() {
    let img = sample_image();
    let out = contrast(&img, 1000);
    for y in 0..2 {
        for x in 0..2 {
            assert_eq!(out.get(x, y), img.get(x, y));
        }
    }
}

#[test]
fn contrast_zero_flattens_to_mid_gray() {
    let out = contrast(&solid(1, 1, Pixel::new(3, 250, 100, 255)), 0);
    assert_eq!(out.get(0, 0), Pixel::new(127, 127, 127, 127));
}

#[test]
fn saturation_one_is_identity() {
    let img = sample_image();
    let out = saturation(&img, 1000);
    for y in 0..2 {
        for x in 0..2 {
            assert_eq!(out.get(x, y), img.get(x, y));
        }
    }
}

#[test]
fn saturation_zero_desaturates_to_luma() {
    let out = saturation(&solid(1, 1, Pixel::new(255, 0, 0, 9)), 0);
    // luma of pure red: 299 * 255 / 1000 = 76.
    assert_eq!(out.get(0, 0), Pixel::new(76, 76, 76, 9));
}

#[test]
fn hue_rotate_zero_is_identity() {
    let img = sample_image();
    let out = hue_rotate(&img, 0);
    for y in 0..2 {
        for x in 0..2 {
            assert_eq!(out.get(x, y), img.get(x, y));
        }
    }
}

#[test]
fn hue_rotate_full_turn_is_identity() {
    let img = sample_image();
    let out = hue_rotate(&img, 360);
    for y in 0..2 {
        for x in 0..2 {
            assert_eq!(out.get(x, y), img.get(x, y));
        }
    }
}

#[test]
fn hue_rotate_half_turn_on_red() {
    let out = hue_rotate(&solid(1, 1, Pixel::new(255, 0, 0, 44)), 180);
    // cos = -1000, sin = 0: red row coefficient drops below zero and clamps,
    // green and blue rows both land on (213000 + 213000) * 255 / 1000000.
    assert_eq!(out.get(0, 0), Pixel::new(0, 108, 108, 44));
}

#[test]
fn vignette_zero_is_identity() {
    let img = sample_image();
    let out = vignette(&img, 0);
    for y in 0..2 {
        for x in 0..2 {
            assert_eq!(out.get(x, y), img.get(x, y));
        }
    }
}

#[test]
fn vignette_full_darkens_lone_pixel_to_black() {
    // A 1x1 canvas: the pixel sits a full corner-distance from the center.
    let out = vignette(&solid(1, 1, Pixel::new(200, 100, 50, 255)), 1000);
    assert_eq!(out.get(0, 0), Pixel::new(0, 0, 0, 255));
}

#[test]
fn double_vision_blends_in_bounds_only() {
    let img = buf_of(
        2,
        1,
        vec![Pixel::new(0, 0, 0, 255), Pixel::new(200, 100, 50, 255)],
    );
    let out = double_vision(&img, 1, 0, 500);
    assert_eq!(out.get(0, 0), Pixel::new(100, 50, 25, 255));
    // Its source sits off-canvas, so the second pixel is untouched.
    assert_eq!(out.get(1, 0), Pixel::new(200, 100, 50, 255));
}

#[test]
fn grain_zero_intensity_is_identity() {
    let img = sample_image();
    let out = add_grain(&img, 0);
    for y in 0..2 {
        for x in 0..2 {
            assert_eq!(out.get(x, y), img.get(x, y));
        }
    }
}

#[test]
fn grain_apply_exact_value() {
    let img = solid(1, 1, Pixel::new(0, 10, 255, 33));
    let out = grain_apply(&img, 1000, &vec![999]);
    // (999 - 500) * 1000 * 255 / 1000000 adds 127 to each color channel.
    assert_eq!(out.get(0, 0), Pixel::new(127, 137, 255, 33));
}

#[test]
fn grain_strong_noise_changes_some_pixel() {
    let img = solid(10, 10, Pixel::new(128, 128, 128, 255));
    let out = add_grain(&img, 4000);
    let mut changed = false;
    for y in 0..10 {
        for x in 0..10 {
            if out.get(x, y) != Pixel::new(128, 128, 128, 255) {
                changed = true;
            }
        }
    }
    assert!(changed);
}
