//! Decoded images, their planes, and the metadata that travels with them.
use vstd::prelude::*;

verus! {

/// Decoded AVIF chroma layout.
#[derive(Clone, Copy, Debug, PartialEq, Eq, Structural)]
pub enum AvifPixelLayout {
    Yuv400,
    Yuv420,
    Yuv422,
    Yuv444,
}

impl AvifPixelLayout {
    /// The layout's name in messages.
    pub open spec fn spec_name(self) -> &'static str {
        match self {
            AvifPixelLayout::Yuv400 => "Yuv400",
            AvifPixelLayout::Yuv420 => "Yuv420",
            AvifPixelLayout::Yuv422 => "Yuv422",
            AvifPixelLayout::Yuv444 => "Yuv444",
        }
    }

    /// The layout's name in messages.
    pub fn name(self) -> (name: &'static str)
        ensures
            name == self.spec_name(),
    {
        match self {
            AvifPixelLayout::Yuv400 => "Yuv400",
            AvifPixelLayout::Yuv420 => "Yuv420",
            AvifPixelLayout::Yuv422 => "Yuv422",
            AvifPixelLayout::Yuv444 => "Yuv444",
        }
    }
}

/// Decoded YCbCr sample range derived from nclx signalling.
#[derive(Clone, Copy, Debug, PartialEq, Eq, Structural)]
pub enum YCbCrRange {
    Full,
    Limited,
}

/// Decoded matrix metadata derived from nclx signalling.
#[derive(Clone, Copy, Debug, PartialEq, Eq, Structural)]
pub struct YCbCrMatrixCoefficients {
    pub matrix_coefficients: u16,
    pub colour_primaries: u16,
}

/// The matrix metadata of a stream that signals none: both codes are 2,
/// "unspecified".
pub open spec fn unspecified_matrix() -> YCbCrMatrixCoefficients {
    YCbCrMatrixCoefficients { matrix_coefficients: 2, colour_primaries: 2 }
}

impl Default for YCbCrMatrixCoefficients {
    fn default() -> (matrix: Self)
        ensures
            matrix == unspecified_matrix(),
    {
        YCbCrMatrixCoefficients { matrix_coefficients: 2, colour_primaries: 2 }
    }
}

/// Decoded AVIF plane samples.
#[derive(Clone, Debug, PartialEq, Eq)]
pub enum AvifPlaneSamples {
    U8(Vec<u8>),
    U16(Vec<u16>),
}

/// One decoded AVIF image plane in row-major order.
#[derive(Clone, Debug, PartialEq, Eq)]
pub struct AvifPlane {
    pub width: u32,
    pub height: u32,
    pub samples: AvifPlaneSamples,
}

/// Decoded AVIF auxiliary alpha samples.
#[derive(Clone, Debug, PartialEq, Eq)]
pub struct AvifAuxiliaryAlphaPlane {
    pub width: u32,
    pub height: u32,
    pub bit_depth: u8,
    pub samples: AvifPlaneSamples,
}

/// Decoded AVIF image in planar YUV form.
#[derive(Clone, Debug, PartialEq, Eq)]
pub struct DecodedAvifImage {
    pub width: u32,
    pub height: u32,
    pub bit_depth: u8,
    pub layout: AvifPixelLayout,
    pub ycbcr_range: YCbCrRange,
    pub ycbcr_matrix: YCbCrMatrixCoefficients,
    pub y_plane: AvifPlane,
    pub u_plane: Option<AvifPlane>,
    pub v_plane: Option<AvifPlane>,
    pub alpha_plane: Option<AvifAuxiliaryAlphaPlane>,
}

/// Decoded HEIC chroma layout.
#[derive(Clone, Copy, Debug, PartialEq, Eq, Structural)]
pub enum HeicPixelLayout {
    Yuv400,
    Yuv420,
    Yuv422,
    Yuv444,
}

impl HeicPixelLayout {
    /// The layout's name in messages.
    pub open spec fn spec_name(self) -> &'static str {
        match self {
            HeicPixelLayout::Yuv400 => "Yuv400",
            HeicPixelLayout::Yuv420 => "Yuv420",
            HeicPixelLayout::Yuv422 => "Yuv422",
            HeicPixelLayout::Yuv444 => "Yuv444",
        }
    }

    /// The layout's name in messages.
    pub fn name(self) -> (name: &'static str)
        ensures
            name == self.spec_name(),
    {
        match self {
            HeicPixelLayout::Yuv400 => "Yuv400",
            HeicPixelLayout::Yuv420 => "Yuv420",
            HeicPixelLayout::Yuv422 => "Yuv422",
            HeicPixelLayout::Yuv444 => "Yuv444",
        }
    }
}

/// One decoded HEIC image plane in row-major order.
#[derive(Clone, Debug, PartialEq, Eq)]
pub struct HeicPlane {
    pub width: u32,
    pub height: u32,
    pub samples: Vec<u16>,
}

/// Decoded HEIC image in planar YUV form.
#[derive(Clone, Debug, PartialEq, Eq)]
pub struct DecodedHeicImage {
    pub width: u32,
    pub height: u32,
    pub bit_depth_luma: u8,
    pub bit_depth_chroma: u8,
    pub layout: HeicPixelLayout,
    pub ycbcr_range: YCbCrRange,
    pub ycbcr_matrix: YCbCrMatrixCoefficients,
    pub y_plane: HeicPlane,
    pub u_plane: Option<HeicPlane>,
    pub v_plane: Option<HeicPlane>,
}

/// Decoded auxiliary alpha samples of a HEIC image.
#[derive(Clone, Debug, PartialEq, Eq)]
pub struct HeicAuxiliaryAlphaPlane {
    pub width: u32,
    pub height: u32,
    pub bit_depth: u8,
    pub samples: Vec<u16>,
}

/// Decoded uncompressed HEIF image materialized as RGBA samples.
#[derive(Clone, Debug, PartialEq, Eq)]
pub struct DecodedUncompressedImage {
    pub width: u32,
    pub height: u32,
    pub bit_depth: u8,
    pub rgba: Vec<u16>,
    pub icc_profile: Option<Vec<u8>>,
}

/// Parsed HEIC image metadata extracted from the primary HEVC SPS.
#[derive(Clone, Copy, Debug, PartialEq, Eq, Structural)]
pub struct DecodedHeicImageMetadata {
    pub width: u32,
    pub height: u32,
    pub bit_depth_luma: u8,
    pub bit_depth_chroma: u8,
    pub layout: HeicPixelLayout,
}

/// The nclx form of a `colr` property.
#[derive(Clone, Copy, Debug, PartialEq, Eq, Structural)]
pub struct NclxColorProfile {
    pub colour_primaries: u16,
    pub transfer_characteristics: u16,
    pub matrix_coefficients: u16,
    pub full_range_flag: bool,
    /// Whether the profile says nothing: it is then as if there were none.
    pub is_undefined: bool,
}

/// The colour properties of the primary item.
#[derive(Clone, Debug, PartialEq, Eq)]
pub struct PrimaryItemColorProperties {
    /// The nclx profile, where there is one.
    pub nclx: Option<NclxColorProfile>,
    /// The bytes of the ICC profile, where there is one.
    pub icc: Option<Vec<u8>>,
}

/// The size and the samples of a plane.
pub struct PlaneView {
    pub width: u32,
    pub height: u32,
    pub samples: Seq<u16>,
}

impl View for HeicPlane {
    type V = PlaneView;

    open spec fn view(&self) -> PlaneView {
        PlaneView { width: self.width, height: self.height, samples: self.samples@ }
    }
}

/// What an optional plane holds.
pub open spec fn optional_plane(plane: Option<HeicPlane>) -> Option<PlaneView> {
    match plane {
        Some(plane) => Some(plane@),
        None => None,
    }
}

/// What a decoded HEIC image holds.
pub struct HeicView {
    pub width: u32,
    pub height: u32,
    pub bit_depth_luma: u8,
    pub bit_depth_chroma: u8,
    pub layout: HeicPixelLayout,
    pub ycbcr_range: YCbCrRange,
    pub ycbcr_matrix: YCbCrMatrixCoefficients,
    pub y_plane: PlaneView,
    pub u_plane: Option<PlaneView>,
    pub v_plane: Option<PlaneView>,
}

impl View for DecodedHeicImage {
    type V = HeicView;

    open spec fn view(&self) -> HeicView {
        HeicView {
            width: self.width,
            height: self.height,
            bit_depth_luma: self.bit_depth_luma,
            bit_depth_chroma: self.bit_depth_chroma,
            layout: self.layout,
            ycbcr_range: self.ycbcr_range,
            ycbcr_matrix: self.ycbcr_matrix,
            y_plane: self.y_plane@,
            u_plane: optional_plane(self.u_plane),
            v_plane: optional_plane(self.v_plane),
        }
    }
}

} // verus!
