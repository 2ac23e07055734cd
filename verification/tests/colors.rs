use pixelpipe::color::parse_color;
use pixelpipe::config::PipelineError;
use pixelpipe::format::{determine_format, CodecKind};
use pixelpipe::pixel::Pixel;

#[test]
fn parse_color_hash_red() {
    assert_eq!(parse_color("#ff0000"), Ok(Pixel::new(255, 0, 0, 255)));
}

#[test]
fn parse_color_rgba_without_hash() {
    assert_eq!(parse_color("00ff0080"), Ok(Pixel::new(0, 255, 0, 128)));
}

#[test]
fn parse_color_short_is_invalid() {
    assert_eq!(parse_color("#abc"), Err(PipelineError::InvalidParameter));
}

#[test]
fn parse_color_upper_case_digits() {
    assert_eq!(parse_color("#A1B2C3"), Ok(Pixel::new(161, 178, 195, 255)));
}

#[test]
fn parse_color_rejects_non_hex() {
    assert_eq!(parse_color("zzzzzz"), Err(PipelineError::InvalidParameter));
}

#[test]
fn parse_color_rejects_double_hash() {
    assert_eq!(parse_color("##ff0000"), Err(PipelineError::InvalidParameter));
}

#[test]
fn parse_color_rejects_seven_digits() {
    assert_eq!(parse_color("ff00001"), Err(PipelineError::InvalidParameter));
}

#[test]
fn parse_color_empty_is_invalid() {
    assert_eq!(parse_color(""), Err(PipelineError::InvalidParameter));
}

#[test]
fn format_explicit_name_wins() {
    assert_eq!(
        determine_format(&Some(String::from("jpg")), "out.png"),
        CodecKind::Jpeg
    );
}

#[test]
fn format_name_is_case_insensitive() {
    assert_eq!(
        determine_format(&Some(String::from("JpEg")), "out.png"),
        CodecKind::Jpeg
    );
    assert_eq!(
        determine_format(&Some(String::from("WEBP")), "out.png"),
        CodecKind::Webp
    );
}

#[test]
fn format_unknown_name_falls_back_to_extension() {
    assert_eq!(
        determine_format(&Some(String::from("mystery")), "out.GIF"),
        CodecKind::Gif
    );
}

#[test]
fn format_extension_used_without_name() {
    assert_eq!(determine_format(&None, "photo.tiff"), CodecKind::Tiff);
    assert_eq!(determine_format(&None, "photo.tif"), CodecKind::Tiff);
    assert_eq!(determine_format(&None, "photo.bmp"), CodecKind::Bmp);
    assert_eq!(determine_format(&None, "icons/fav.ico"), CodecKind::Ico);
}

#[test]
fn format_defaults_to_png() {
    assert_eq!(determine_format(&None, "no_extension"), CodecKind::Png);
    assert_eq!(determine_format(&None, "trailing.dot."), CodecKind::Png);
    assert_eq!(
        determine_format(&Some(String::from("mystery")), "also_none"),
        CodecKind::Png
    );
}
