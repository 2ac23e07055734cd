use vstd::prelude::*;
use crate::buffer::PixelBuffer;

verus! {

/// Where the source image comes from.
pub struct InputConfig {
    pub source: String,
}

/// Where the result goes, and how it is encoded.
pub struct OutputConfig {
    pub destination: String,
    pub quality: Option<u8>,
    pub format: Option<String>,
}

/// One full pipeline description: an ordered list of operations applied to
/// the image named by `input`, written out as `output` says.
pub struct Config {
    pub version: String,
    pub input: InputConfig,
    pub output: OutputConfig,
    pub operations: Vec<Operation>,
}

/// The resampling kernel a resize uses.
#[derive(Clone, Copy, PartialEq, Eq, Structural, Debug)]
pub enum ResizeFilter {
    Nearest,
    Triangle,
    CatmullRom,
    Gaussian,
    Lanczos3,
}

/// One configured transform. Fractional parameters are carried in thousandths
/// (`*_milli`); a blur sigma or a text size, which only feed an outside
/// rasterizer, are carried in whole pixels.
pub enum Operation {
    Resize {
        width: u32,
        height: u32,
        filter: Option<String>,
    },
    Overlay {
        image: PixelBuffer,
        x: i32,
        y: i32,
        opacity_milli: Option<i32>,
        blend_mode: Option<String>,
    },
    Filter(FilterOperation),
    Text {
        content: String,
        font: Vec<u8>,
        size: u16,
        color: String,
        x: i32,
        y: i32,
        stroke: Option<Stroke>,
        shadow: Option<Shadow>,
    },
}

/// One configured color or spatial filter.
pub enum FilterOperation {
    Grain { intensity_milli: i32 },
    Blur { radius: u16 },
    DoubleVision { offset_x: i32, offset_y: i32, opacity_milli: i32 },
    Vignette { intensity_milli: i32 },
    Sepia,
    Brightness { value_milli: i32 },
    Contrast { value_milli: i32 },
    Saturation { value_milli: i32 },
    HueRotate { degrees: i32 },
}

/// Outline drawn around text glyphs.
pub struct Stroke {
    pub color: String,
    pub width: i32,
}

/// Drop shadow drawn behind text glyphs.
pub struct Shadow {
    pub color: String,
    pub blur: u16,
    pub offset_x: i32,
    pub offset_y: i32,
}

/// Why a pipeline run stopped.
#[derive(Clone, Copy, PartialEq, Eq, Structural, Debug)]
pub enum PipelineError {
    /// A source, overlay or font could not be read.
    IoError,
    /// An image or font encoding could not be decoded.
    DecodeError,
    /// A configured parameter is malformed.
    InvalidParameter,
    /// The output codec cannot represent the buffer.
    EncodeError,
}

impl Operation {
    /// Validity of the data an operation carries: any overlay image must be a
    /// well-formed buffer.
    pub open spec fn wf(self) -> bool {
        match self {
            Operation::Overlay { image, .. } => image.wf(),
            _ => true,
        }
    }
}

} // verus!
