//! Frames of the HEVC decoder as decoded HEIC images.
use super::nal::{
    parse_length_prefixed_hevc_nal_units, HevcNalClass, LengthPrefixedHevcNalUnit,
};
#[allow(unused_imports)]
use super::nal::{class_of, stream_error, type_code, units_from, views};
#[allow(unused_imports)]
use super::sps::array_type_layout;
use super::sps::heic_layout_from_sps_chroma_array_type;
use crate::errors::{invalid_frame, DecodeHeicError};
#[allow(unused_imports)]
use crate::errors::{bad_frame, first};
use crate::text::{Arg, Detail};
use crate::types::{
    DecodedHeicImage, HeicPixelLayout, HeicPlane, YCbCrMatrixCoefficients, YCbCrRange,
};
#[allow(unused_imports)]
use crate::types::{HeicView, PlaneView};
use crate::yuv::crop::extract_cropped_heic_plane;
#[allow(unused_imports)]
use crate::yuv::crop::{cropped_samples, extract_error};
use crate::yuv::heic::{heic_chroma_subsampling, heic_sample_count, shared_size};
#[allow(unused_imports)]
use crate::yuv::heic::{count_error, shared_chroma};
#[allow(unused_imports)]
use crate::yuv::image::chroma_size;
use vstd::prelude::*;

verus! {

/// A frame of the decoder: its planes, of which a part is visible.
#[derive(Clone, Debug, PartialEq, Eq)]
pub struct HeicFrame {
    pub width: u32,
    pub height: u32,
    pub cropped_width: u32,
    pub cropped_height: u32,
    pub crop_left: u32,
    pub crop_right: u32,
    pub crop_top: u32,
    pub crop_bottom: u32,
    pub bit_depth: u8,
    pub chroma_format: u8,
    pub full_range: bool,
    pub matrix_coeffs: u8,
    pub colour_primaries: u8,
    /// The samples from one row of the luma plane to the next.
    pub y_stride: usize,
    /// The samples from one row of a chroma plane to the next.
    pub c_stride: usize,
    pub y_plane: Vec<u16>,
    pub cb_plane: Vec<u16>,
    pub cr_plane: Vec<u16>,
}

/// Where the visible part of a plane lies.
pub struct PlanePart {
    pub stride: int,
    pub source_width: int,
    pub source_height: int,
    pub left: int,
    pub top: int,
    pub width: int,
    pub height: int,
}

impl PlanePart {
    /// Whether the part is the whole plane, with nothing between its rows.
    pub open spec fn is_whole(self, available: int) -> bool {
        &&& self.left == 0
        &&& self.top == 0
        &&& self.width == self.source_width
        &&& self.height == self.source_height
        &&& self.stride == self.width
        &&& available == self.width * self.height
    }

    /// Why the part cannot be had of so many samples, if it cannot.
    pub open spec fn error(self, available: int, plane: &'static str) -> Option<DecodeHeicError> {
        first(
            count_error(self.width, self.height, plane),
            if self.is_whole(available) {
                None
            } else {
                extract_error(
                    available,
                    self.stride,
                    self.left,
                    self.top,
                    self.width,
                    self.height,
                    plane,
                )
            },
        )
    }

    /// The part of a plane.
    pub open spec fn of(self, samples: Seq<u16>) -> PlaneView {
        PlaneView {
            width: self.width as u32,
            height: self.height as u32,
            samples: cropped_samples(
                samples,
                self.stride,
                self.left,
                self.top,
                self.width,
                self.height,
            ),
        }
    }
}

/// The visible part of a plane.
pub fn materialize_heic_plane(
    samples: Vec<u16>,
    stride: usize,
    source_width: u32,
    source_height: u32,
    crop_left: u32,
    crop_top: u32,
    width: u32,
    height: u32,
    plane: &'static str,
) -> (result: Result<HeicPlane, DecodeHeicError>)
    ensures
        ({
            let part = PlanePart {
                stride: stride as int,
                source_width: source_width as int,
                source_height: source_height as int,
                left: crop_left as int,
                top: crop_top as int,
                width: width as int,
                height: height as int,
            };
            match part.error(samples@.len() as int, plane) {
                Some(e) => result == Err::<HeicPlane, DecodeHeicError>(e),
                None => result is Ok && result->Ok_0@ == part.of(samples@),
            }
        }),
{
    let expected: usize = heic_sample_count(width, height, plane)?;
    if crop_left == 0 && crop_top == 0 && width == source_width && height == source_height
        && stride == width as usize && samples.len() == expected {
        proof {
            let same = cropped_samples(
                samples@,
                stride as int,
                0,
                0,
                width as int,
                height as int,
            );
            assert forall|k: int| 0 <= k < same.len() implies same[k] == samples@[k] by {
                crate::transform::pixels::lemma_place_of(k, width as int, height as int);
            }
            assert(same =~= samples@);
        }
        return Ok(HeicPlane { width, height, samples });
    }
    extract_cropped_heic_plane(
        samples.as_slice(),
        stride,
        crop_left,
        crop_top,
        width,
        height,
        plane,
    )
}

impl HeicFrame {
    /// Where the visible part of the luma plane lies.
    pub open spec fn luma_part(self) -> PlanePart {
        PlanePart {
            stride: self.y_stride as int,
            source_width: self.width as int,
            source_height: self.height as int,
            left: self.crop_left as int,
            top: self.crop_top as int,
            width: self.cropped_width as int,
            height: self.cropped_height as int,
        }
    }

    /// Where the visible part of the chroma planes lies.
    pub open spec fn chroma_part(self, layout: HeicPixelLayout) -> PlanePart {
        let (across, down) = shared_chroma(layout);
        PlanePart {
            stride: self.c_stride as int,
            source_width: chroma_size(self.width as int, across),
            source_height: chroma_size(self.height as int, down),
            left: self.crop_left as int / across,
            top: self.crop_top as int / down,
            width: chroma_size(self.cropped_width as int, across),
            height: chroma_size(self.cropped_height as int, down),
        }
    }

    /// Whether the visible part begins and ends where chroma samples do.
    pub open spec fn is_aligned(self, layout: HeicPixelLayout) -> bool {
        let (across, down) = shared_chroma(layout);
        &&& self.crop_left as int % across == 0
        &&& self.crop_right as int % across == 0
        &&& self.crop_top as int % down == 0
        &&& self.crop_bottom as int % down == 0
    }

    /// Why the frame is not an image, if it is not.
    pub open spec fn error(self) -> Option<DecodeHeicError> {
        if self.cropped_width == 0 || self.cropped_height == 0 {
            Some(
                bad_frame(
                    Detail::Two(
                        "cropped geometry must be non-zero, got {}x{}",
                        Arg::Num(self.cropped_width as i128),
                        Arg::Num(self.cropped_height as i128),
                    ),
                ),
            )
        } else {
            match array_type_layout(self.chroma_format) {
                None => Some(
                    DecodeHeicError::UnsupportedSpsChromaArrayType {
                        chroma_array_type: self.chroma_format,
                    },
                ),
                Some(layout) => first(
                    self.luma_part().error(self.y_plane@.len() as int, "Y"),
                    if layout is Yuv400 {
                        None
                    } else if !self.is_aligned(layout) {
                        Some(
                            bad_frame(
                                Detail::Five(
                                    "chroma crop alignment mismatch for layout {}: crop=({}, {}, {}, {})",
                                    Arg::Word(layout.spec_name()),
                                    Arg::Num(self.crop_left as i128),
                                    Arg::Num(self.crop_right as i128),
                                    Arg::Num(self.crop_top as i128),
                                    Arg::Num(self.crop_bottom as i128),
                                ),
                            ),
                        )
                    } else {
                        first(
                            self.chroma_part(layout).error(self.cb_plane@.len() as int, "U"),
                            self.chroma_part(layout).error(self.cr_plane@.len() as int, "V"),
                        )
                    },
                ),
            }
        }
    }

    /// The visible image.
    pub open spec fn image(self) -> HeicView {
        let layout = array_type_layout(self.chroma_format)->0;
        HeicView {
            width: self.cropped_width,
            height: self.cropped_height,
            bit_depth_luma: self.bit_depth,
            bit_depth_chroma: self.bit_depth,
            layout,
            ycbcr_range: if self.full_range {
                YCbCrRange::Full
            } else {
                YCbCrRange::Limited
            },
            ycbcr_matrix: YCbCrMatrixCoefficients {
                matrix_coefficients: self.matrix_coeffs as u16,
                colour_primaries: self.colour_primaries as u16,
            },
            y_plane: self.luma_part().of(self.y_plane@),
            u_plane: if layout is Yuv400 {
                None
            } else {
                Some(self.chroma_part(layout).of(self.cb_plane@))
            },
            v_plane: if layout is Yuv400 {
                None
            } else {
                Some(self.chroma_part(layout).of(self.cr_plane@))
            },
        }
    }
}

/// The visible image of a frame.
pub fn heic_frame_to_internal_image(frame: HeicFrame) -> (result: Result<
    DecodedHeicImage,
    DecodeHeicError,
>)
    ensures
        match frame.error() {
            Some(e) => result == Err::<DecodedHeicImage, DecodeHeicError>(e),
            None => result is Ok && result->Ok_0@ == frame.image(),
        },
{
    let width: u32 = frame.cropped_width;
    let height: u32 = frame.cropped_height;
    if width == 0 || height == 0 {
        return invalid_frame(
            Detail::Two(
                "cropped geometry must be non-zero, got {}x{}",
                Arg::Num(width as i128),
                Arg::Num(height as i128),
            ),
        );
    }
    let layout: HeicPixelLayout = heic_layout_from_sps_chroma_array_type(frame.chroma_format)?;
    let ycbcr_range: YCbCrRange = if frame.full_range {
        YCbCrRange::Full
    } else {
        YCbCrRange::Limited
    };
    let ycbcr_matrix: YCbCrMatrixCoefficients = YCbCrMatrixCoefficients {
        matrix_coefficients: frame.matrix_coeffs as u16,
        colour_primaries: frame.colour_primaries as u16,
    };
    let y_plane: HeicPlane = materialize_heic_plane(
        frame.y_plane,
        frame.y_stride,
        frame.width,
        frame.height,
        frame.crop_left,
        frame.crop_top,
        width,
        height,
        "Y",
    )?;
    let (u_plane, v_plane): (Option<HeicPlane>, Option<HeicPlane>) = if matches!(
        layout,
        HeicPixelLayout::Yuv400
    ) {
        (None, None)
    } else {
        let (across, down): (u32, u32) = heic_chroma_subsampling(layout);
        if frame.crop_left % across != 0 || frame.crop_right % across != 0 || frame.crop_top % down
            != 0 || frame.crop_bottom % down != 0 {
            return invalid_frame(
                Detail::Five(
                    "chroma crop alignment mismatch for layout {}: crop=({}, {}, {}, {})",
                    Arg::Word(layout.name()),
                    Arg::Num(frame.crop_left as i128),
                    Arg::Num(frame.crop_right as i128),
                    Arg::Num(frame.crop_top as i128),
                    Arg::Num(frame.crop_bottom as i128),
                ),
            );
        }
        let chroma_width: u32 = shared_size(width, across);
        let chroma_height: u32 = shared_size(height, down);
        let full_width: u32 = shared_size(frame.width, across);
        let full_height: u32 = shared_size(frame.height, down);
        let left: u32 = frame.crop_left / across;
        let top: u32 = frame.crop_top / down;
        let u: HeicPlane = materialize_heic_plane(
            frame.cb_plane,
            frame.c_stride,
            full_width,
            full_height,
            left,
            top,
            chroma_width,
            chroma_height,
            "U",
        )?;
        let v: HeicPlane = materialize_heic_plane(
            frame.cr_plane,
            frame.c_stride,
            full_width,
            full_height,
            left,
            top,
            chroma_width,
            chroma_height,
            "V",
        )?;
        (Some(u), Some(v))
    };
    Ok(
        DecodedHeicImage {
            width,
            height,
            bit_depth_luma: frame.bit_depth,
            bit_depth_chroma: frame.bit_depth,
            layout,
            ycbcr_range,
            ycbcr_matrix,
            y_plane,
            u_plane,
            v_plane,
        },
    )
}

/// Why a stream has no frame to decode, if it has none.
pub open spec fn no_frame_error(stream: Seq<u8>) -> Option<DecodeHeicError> {
    let (units, cut) = units_from(stream, 4, 0);
    match cut {
        Some(cut) => Some(stream_error(cut)),
        None => if exists|k: int|
            0 <= k < units.len() && class_of(type_code((#[trigger] units[k]).bytes)) is Vcl {
            None
        } else {
            Some(DecodeHeicError::MissingVclNalUnit)
        },
    }
}

/// Checks that a stream has a frame to decode.
pub fn require_hevc_frame(stream: &[u8]) -> (result: Result<(), DecodeHeicError>)
    ensures
        match no_frame_error(stream@) {
            Some(e) => result == Err::<(), DecodeHeicError>(e),
            None => result is Ok,
        },
{
    let units: Vec<LengthPrefixedHevcNalUnit<'_>> = parse_length_prefixed_hevc_nal_units(stream)?;
    let mut k: usize = 0;
    while k < units.len()
        invariant
            k <= units@.len(),
            views(units@) == units_from(stream@, 4, 0).0,
            units_from(stream@, 4, 0).1 is None,
            forall|i: int|
                0 <= i < k ==> !(class_of(type_code((#[trigger] views(units@)[i]).bytes)) is Vcl),
        decreases units@.len() - k,
    {
        let unit: LengthPrefixedHevcNalUnit<'_> = units[k];
        assert(views(units@)[k as int].bytes == unit.bytes@);
        if matches!(unit.class(), HevcNalClass::Vcl) {
            return Ok(());
        }
        k = k + 1;
    }
    Err(DecodeHeicError::MissingVclNalUnit)
}

/// What decoding a frame came to.
pub open spec fn frame_outcome(decoded: Result<HeicFrame, String>) -> Result<
    HeicView,
    DecodeHeicError,
> {
    match decoded {
        Err(detail) => Err(DecodeHeicError::BackendDecodeFailed { detail }),
        Ok(frame) => match frame.error() {
            Some(e) => Err(e),
            None => Ok(frame.image()),
        },
    }
}

/// Decodes the frame of a stream, by `decode_frame`.
pub fn decode_hevc_stream_to_image<B: Fn(&[u8]) -> Result<HeicFrame, String>>(
    stream: &[u8],
    decode_frame: &B,
) -> (result: Result<DecodedHeicImage, DecodeHeicError>)
    requires
        decode_frame.requires((stream,)),
    ensures
        match no_frame_error(stream@) {
            Some(e) => result == Err::<DecodedHeicImage, DecodeHeicError>(e),
            None => exists|decoded: Result<HeicFrame, String>| #[trigger]
                decode_frame.ensures((stream,), decoded) && (match frame_outcome(decoded) {
                    Err(e) => result == Err::<DecodedHeicImage, DecodeHeicError>(e),
                    Ok(image) => result is Ok && result->Ok_0@ == image,
                }),
        },
{
    require_hevc_frame(stream)?;
    let decoded: Result<HeicFrame, String> = decode_frame(stream);
    match decoded {
        Err(detail) => Err(DecodeHeicError::BackendDecodeFailed { detail }),
        Ok(frame) => heic_frame_to_internal_image(frame),
    }
}

} // verus!
