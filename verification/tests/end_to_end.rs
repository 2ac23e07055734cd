use pixelpipe::buffer::PixelBuffer;
use pixelpipe::config::{Config, InputConfig, Operation, OutputConfig};
use pixelpipe::format::{determine_format, CodecKind};
use pixelpipe::pixel::Pixel;
use pixelpipe::processor::ImageProcessor;
use std::io::Cursor;

fn to_rgba(buf: &PixelBuffer) -> image::RgbaImage {
    let mut raw = Vec::new();
    for y in 0..buf.height {
        for x in 0..buf.width {
            let p = buf.get(x, y);
            raw.push(p.r);
            raw.push(p.g);
            raw.push(p.b);
            raw.push(p.a);
        }
    }
    image::RgbaImage::from_raw(buf.width, buf.height, raw).unwrap()
}

#[test]
fn four_by_four_red_to_two_by_two_png() {
    let config = Config {
        version: String::from("1"),
        input: InputConfig {
            source: String::from("red.png"),
        },
        output: OutputConfig {
            destination: String::from("out.png"),
            quality: None,
            format: Some(String::from("png")),
        },
        operations: vec![Operation::Resize {
            width: 2,
            height: 2,
            filter: Some(String::from("nearest")),
        }],
    };

    let img = PixelBuffer::new_filled(4, 4, Pixel::new(255, 0, 0, 255));
    let out = ImageProcessor::process(img, &config.operations).unwrap();
    assert_eq!(out.width, 2);
    assert_eq!(out.height, 2);
    for y in 0..2 {
        for x in 0..2 {
            assert_eq!(out.get(x, y), Pixel::new(255, 0, 0, 255));
        }
    }

    assert_eq!(
        determine_format(&config.output.format, config.output.destination.as_str()),
        CodecKind::Png
    );

    // Encode as the resolved codec and read the file back.
    let mut bytes = Cursor::new(Vec::new());
    to_rgba(&out)
        .write_to(&mut bytes, image::ImageFormat::Png)
        .unwrap();
    let decoded = image::load_from_memory(bytes.get_ref()).unwrap().to_rgba8();
    assert_eq!(decoded.dimensions(), (2, 2));
    for p in decoded.pixels() {
        assert_eq!(p.0, [255, 0, 0, 255]);
    }
}
