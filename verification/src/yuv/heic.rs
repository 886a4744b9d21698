//! Decoded HEIC images: their planes, checked, and their conversion.
use super::image::{ChromaPlanes, SampleSlice, YuvPlanes};
#[allow(unused_imports)]
use super::image::{chroma_size, Chroma, Opacity, YuvImage};
use crate::errors::{invalid_frame, DecodeHeicError};
#[allow(unused_imports)]
use crate::errors::{bad_frame, first};
use crate::text::{Arg, Detail};
use crate::types::{
    DecodedHeicImage, DecodedHeicImageMetadata, HeicAuxiliaryAlphaPlane, HeicPixelLayout,
    HeicPlane,
};
#[allow(unused_imports)]
use crate::types::{HeicView, PlaneView};
use crate::ycbcr::{ycbcr_transform_from_matrix, PreparedYcbcrToRgb, YCbCrToRgbTransform};
#[allow(unused_imports)]
use crate::ycbcr::{lemma_prepared_wf, prepared, transform_of};
use vstd::prelude::*;

verus! {

/// How many columns and rows of pixels share a chroma sample.
pub open spec fn shared_chroma(layout: HeicPixelLayout) -> (int, int) {
    match layout {
        HeicPixelLayout::Yuv400 => (1, 1),
        HeicPixelLayout::Yuv444 => (1, 1),
        HeicPixelLayout::Yuv420 => (2, 2),
        HeicPixelLayout::Yuv422 => (2, 1),
    }
}

/// How many columns and rows of pixels share a chroma sample.
pub fn heic_chroma_subsampling(layout: HeicPixelLayout) -> (shared: (u32, u32))
    ensures
        (shared.0 as int, shared.1 as int) == shared_chroma(layout),
        1 <= shared.0 <= 2,
        1 <= shared.1 <= 2,
{
    match layout {
        HeicPixelLayout::Yuv400 | HeicPixelLayout::Yuv444 => (1, 1),
        HeicPixelLayout::Yuv420 => (2, 2),
        HeicPixelLayout::Yuv422 => (2, 1),
    }
}

/// How many chroma samples stand for some pixels.
pub(crate) fn shared_size(size: u32, shared: u32) -> (count: u32)
    requires
        1 <= shared <= 2,
    ensures
        count == chroma_size(size as int, shared as int),
{
    if shared == 1 {
        size
    } else {
        size / 2 + size % 2
    }
}

/// The size of the chroma planes.
pub open spec fn chroma_dimensions(width: u32, height: u32, layout: HeicPixelLayout) -> (int, int) {
    if layout is Yuv400 {
        (0, 0)
    } else {
        (
            chroma_size(width as int, shared_chroma(layout).0),
            chroma_size(height as int, shared_chroma(layout).1),
        )
    }
}

/// The size of the chroma planes.
pub fn heic_chroma_dimensions(width: u32, height: u32, layout: HeicPixelLayout) -> (size: (
    u32,
    u32,
))
    ensures
        (size.0 as int, size.1 as int) == chroma_dimensions(width, height, layout),
{
    match layout {
        HeicPixelLayout::Yuv400 => (0, 0),
        _ => {
            let (across, down) = heic_chroma_subsampling(layout);
            (shared_size(width, across), shared_size(height, down))
        },
    }
}

/// The error for a plane whose samples cannot be counted.
pub open spec fn count_error(width: int, height: int, name: &'static str) -> Option<
    DecodeHeicError,
> {
    if width * height > usize::MAX {
        Some(
            bad_frame(
                Detail::Three(
                    "{} plane sample count overflow for {}x{}",
                    Arg::Word(name),
                    Arg::Num(width as i128),
                    Arg::Num(height as i128),
                ),
            ),
        )
    } else {
        None
    }
}

/// The number of samples of a plane.
pub fn heic_sample_count(width: u32, height: u32, plane_name: &'static str) -> (result: Result<
    usize,
    DecodeHeicError,
>)
    ensures
        match count_error(width as int, height as int, plane_name) {
            Some(e) => result == Err::<usize, DecodeHeicError>(e),
            None => result is Ok && result->Ok_0 == width * height,
        },
{
    proof {
        assert(0 <= width * height) by (nonlinear_arith);
    }
    match (width as usize).checked_mul(height as usize) {
        Some(count) => Ok(count),
        None => invalid_frame(
            Detail::Three(
                "{} plane sample count overflow for {}x{}",
                Arg::Word(plane_name),
                Arg::Num(width as i128),
                Arg::Num(height as i128),
            ),
        ),
    }
}

/// The error for a plane of another size than the image needs.
pub open spec fn plane_size_error(
    plane: PlaneView,
    width: int,
    height: int,
    name: &'static str,
) -> Option<DecodeHeicError> {
    if plane.width != width || plane.height != height {
        Some(
            bad_frame(
                Detail::Five(
                    "{} plane has dimensions {}x{}, expected {}x{}",
                    Arg::Word(name),
                    Arg::Num(plane.width as i128),
                    Arg::Num(plane.height as i128),
                    Arg::Num(width as i128),
                    Arg::Num(height as i128),
                ),
            ),
        )
    } else {
        None
    }
}

/// Checks the size of a plane.
pub fn validate_heic_plane_dimensions(
    plane: &HeicPlane,
    expected_width: u32,
    expected_height: u32,
    plane_name: &'static str,
) -> (result: Result<(), DecodeHeicError>)
    ensures
        match plane_size_error(plane@, expected_width as int, expected_height as int, plane_name) {
            Some(e) => result == Err::<(), DecodeHeicError>(e),
            None => result is Ok,
        },
{
    if plane.width != expected_width || plane.height != expected_height {
        return invalid_frame(
            Detail::Five(
                "{} plane has dimensions {}x{}, expected {}x{}",
                Arg::Word(plane_name),
                Arg::Num(plane.width as i128),
                Arg::Num(plane.height as i128),
                Arg::Num(expected_width as i128),
                Arg::Num(expected_height as i128),
            ),
        );
    }
    Ok(())
}

/// The error for a plane with another number of samples than it needs.
pub open spec fn plane_len_error(actual: int, expected: int, template: &'static str) -> Option<
    DecodeHeicError,
> {
    if actual != expected {
        Some(
            bad_frame(
                Detail::Two(template, Arg::Num(actual as i128), Arg::Num(expected as i128)),
            ),
        )
    } else {
        None
    }
}

/// Checks the number of samples of a plane.
fn check_plane_len(actual: usize, expected: usize, template: &'static str) -> (result: Result<
    (),
    DecodeHeicError,
>)
    ensures
        match plane_len_error(actual as int, expected as int, template) {
            Some(e) => result == Err::<(), DecodeHeicError>(e),
            None => result is Ok,
        },
{
    if actual != expected {
        return invalid_frame(
            Detail::Two(template, Arg::Num(actual as i128), Arg::Num(expected as i128)),
        );
    }
    Ok(())
}

/// What is wrong with the bit depths of luma and chroma, if anything.
pub open spec fn depth_error(luma: u8, chroma: u8) -> Option<DecodeHeicError> {
    if luma != chroma {
        Some(
            bad_frame(
                Detail::Two(
                    "HEIC luma/chroma bit-depth mismatch during PNG conversion: {}/{}",
                    Arg::Num(luma as i128),
                    Arg::Num(chroma as i128),
                ),
            ),
        )
    } else if luma == 0 || luma > 16 {
        Some(
            bad_frame(
                Detail::One(
                    "HEIC bit depth {} is outside supported PNG conversion range 1..=16",
                    Arg::Num(luma as i128),
                ),
            ),
        )
    } else {
        None
    }
}

/// The one bit depth of luma and chroma.
fn common_bit_depth(luma: u8, chroma: u8) -> (result: Result<u8, DecodeHeicError>)
    ensures
        match depth_error(luma, chroma) {
            Some(e) => result == Err::<u8, DecodeHeicError>(e),
            None => result == Ok::<u8, DecodeHeicError>(luma) && 1 <= luma <= 16,
        },
{
    if luma != chroma {
        return invalid_frame(
            Detail::Two(
                "HEIC luma/chroma bit-depth mismatch during PNG conversion: {}/{}",
                Arg::Num(luma as i128),
                Arg::Num(chroma as i128),
            ),
        );
    }
    if luma == 0 || luma > 16 {
        return invalid_frame(
            Detail::One(
                "HEIC bit depth {} is outside supported PNG conversion range 1..=16",
                Arg::Num(luma as i128),
            ),
        );
    }
    Ok(luma)
}

/// The bit depth of an image.
pub fn heic_bit_depth_for_png_conversion(decoded: &DecodedHeicImage) -> (result: Result<
    u8,
    DecodeHeicError,
>)
    ensures
        match depth_error(decoded.bit_depth_luma, decoded.bit_depth_chroma) {
            Some(e) => result == Err::<u8, DecodeHeicError>(e),
            None => result == Ok::<u8, DecodeHeicError>(decoded.bit_depth_luma) && 1
                <= decoded.bit_depth_luma <= 16,
        },
{
    common_bit_depth(decoded.bit_depth_luma, decoded.bit_depth_chroma)
}

/// The bit depth of an image that was not decoded yet.
pub fn heic_bit_depth_for_png_conversion_metadata(metadata: &DecodedHeicImageMetadata) -> (result:
    Result<u8, DecodeHeicError>)
    ensures
        match depth_error(metadata.bit_depth_luma, metadata.bit_depth_chroma) {
            Some(e) => result == Err::<u8, DecodeHeicError>(e),
            None => result == Ok::<u8, DecodeHeicError>(metadata.bit_depth_luma) && 1
                <= metadata.bit_depth_luma <= 16,
        },
{
    common_bit_depth(metadata.bit_depth_luma, metadata.bit_depth_chroma)
}

/// The error for a missing chroma plane.
pub open spec fn missing_chroma(layout: HeicPixelLayout, template: &'static str) -> DecodeHeicError {
    bad_frame(Detail::One(template, Arg::Word(layout.spec_name())))
}

/// What is wrong with the chroma planes being there, if anything.
pub open spec fn chroma_presence_error(decoded: HeicView) -> Option<DecodeHeicError> {
    if decoded.u_plane is None {
        Some(missing_chroma(decoded.layout, "decoded HEIC frame is missing U plane for {}"))
    } else if decoded.v_plane is None {
        Some(missing_chroma(decoded.layout, "decoded HEIC frame is missing V plane for {}"))
    } else {
        None
    }
}

/// The chroma planes of an image, and the size that they need.
pub fn require_heic_chroma_planes(decoded: &DecodedHeicImage) -> (result: Result<
    (&HeicPlane, &HeicPlane, u32, u32),
    DecodeHeicError,
>)
    ensures
        match chroma_presence_error(decoded@) {
            Some(e) => result == Err::<(&HeicPlane, &HeicPlane, u32, u32), DecodeHeicError>(e),
            None => {
                &&& result is Ok
                &&& result->Ok_0.0@ == decoded@.u_plane->0
                &&& result->Ok_0.1@ == decoded@.v_plane->0
                &&& (result->Ok_0.2 as int, result->Ok_0.3 as int) == chroma_dimensions(
                    decoded.width,
                    decoded.height,
                    decoded.layout,
                )
            },
        },
{
    let (width, height) = heic_chroma_dimensions(decoded.width, decoded.height, decoded.layout);
    let u_plane: &HeicPlane = match &decoded.u_plane {
        Some(plane) => plane,
        None => {
            return invalid_frame(
                Detail::One(
                    "decoded HEIC frame is missing U plane for {}",
                    Arg::Word(decoded.layout.name()),
                ),
            );
        },
    };
    let v_plane: &HeicPlane = match &decoded.v_plane {
        Some(plane) => plane,
        None => {
            return invalid_frame(
                Detail::One(
                    "decoded HEIC frame is missing V plane for {}",
                    Arg::Word(decoded.layout.name()),
                ),
            );
        },
    };
    Ok((u_plane, v_plane, width, height))
}

/// What is wrong with the conversion that the matrix asks for, if anything.
pub open spec fn matrix_error(decoded: HeicView) -> Option<DecodeHeicError> {
    match transform_of(decoded.ycbcr_matrix) {
        Err(code) => Some(
            DecodeHeicError::UnsupportedMatrixCoefficients { matrix_coefficients: code },
        ),
        Ok(_) => None,
    }
}

/// What is wrong with the luma plane, if anything.
pub open spec fn luma_error(decoded: HeicView) -> Option<DecodeHeicError> {
    first(
        plane_size_error(
            decoded.y_plane,
            decoded.width as int,
            decoded.height as int,
            "Y",
        ),
        first(
            count_error(decoded.width as int, decoded.height as int, "Y"),
            plane_len_error(
                decoded.y_plane.samples.len() as int,
                decoded.width * decoded.height,
                "Y plane has {} samples, expected {}",
            ),
        ),
    )
}

/// What is wrong with the chroma planes, if anything.
pub open spec fn chroma_error(decoded: HeicView) -> Option<DecodeHeicError> {
    let (width, height) = chroma_dimensions(decoded.width, decoded.height, decoded.layout);
    if decoded.layout is Yuv400 {
        None
    } else {
        first(
            chroma_presence_error(decoded),
            first(
                plane_size_error(decoded.u_plane->0, width, height, "U"),
                first(
                    plane_size_error(decoded.v_plane->0, width, height, "V"),
                    first(
                        count_error(width, height, "U/V"),
                        first(
                            plane_len_error(
                                decoded.u_plane->0.samples.len() as int,
                                width * height,
                                "U plane has {} samples, expected {}",
                            ),
                            plane_len_error(
                                decoded.v_plane->0.samples.len() as int,
                                width * height,
                                "V plane has {} samples, expected {}",
                            ),
                        ),
                    ),
                ),
            ),
        )
    }
}

/// The planes of a decoded image. Luma of eight bits without chroma is copied as
/// it is.
pub open spec fn heic_image(decoded: HeicView, opacity: Option<Opacity>) -> YuvImage {
    let (across, down) = shared_chroma(decoded.layout);
    YuvImage {
        width: decoded.width,
        height: decoded.height,
        luma: decoded.y_plane.samples,
        chroma: if decoded.layout is Yuv400 {
            None
        } else {
            Some(
                Chroma {
                    u: decoded.u_plane->0.samples,
                    v: decoded.v_plane->0.samples,
                    width: chroma_size(decoded.width as int, across),
                    across,
                    down,
                },
            )
        },
        converter: prepared(
            decoded.bit_depth_luma,
            decoded.ycbcr_range,
            transform_of(decoded.ycbcr_matrix)->Ok_0,
            decoded.layout is Yuv420,
        ),
        verbatim: decoded.layout is Yuv400 && decoded.bit_depth_luma == 8,
        opacity,
    }
}

/// The planes of a decoded image, for a conversion that copies luma of eight
/// bits without chroma as it is, or for one that does not.
pub open spec fn converted_image(decoded: HeicView, copies_grey: bool) -> YuvImage {
    YuvImage {
        verbatim: copies_grey && decoded.layout is Yuv400 && decoded.bit_depth_luma == 8,
        ..heic_image(decoded, None)
    }
}

/// The conversion that the matrix of an image asks for.
pub(crate) fn heic_transform(decoded: &DecodedHeicImage) -> (result: Result<
    YCbCrToRgbTransform,
    DecodeHeicError,
>)
    ensures
        match matrix_error(decoded@) {
            Some(e) => result == Err::<YCbCrToRgbTransform, DecodeHeicError>(e),
            None => result is Ok && transform_of(decoded.ycbcr_matrix) == Ok::<
                YCbCrToRgbTransform,
                u16,
            >(result->Ok_0),
        },
{
    match ycbcr_transform_from_matrix(decoded.ycbcr_matrix) {
        Ok(transform) => Ok(transform),
        Err(matrix_coefficients) => Err(
            DecodeHeicError::UnsupportedMatrixCoefficients { matrix_coefficients },
        ),
    }
}

/// Checks the luma plane.
pub(crate) fn check_luma(decoded: &DecodedHeicImage) -> (result: Result<(), DecodeHeicError>)
    ensures
        match luma_error(decoded@) {
            Some(e) => result == Err::<(), DecodeHeicError>(e),
            None => result is Ok,
        },
{
    validate_heic_plane_dimensions(&decoded.y_plane, decoded.width, decoded.height, "Y")?;
    let expected: usize = heic_sample_count(decoded.width, decoded.height, "Y")?;
    check_plane_len(
        decoded.y_plane.samples.len(),
        expected,
        "Y plane has {} samples, expected {}",
    )
}

/// The planes of a decoded image whose luma was checked.
pub(crate) fn prepare_heic_planes<'a>(
    decoded: &'a DecodedHeicImage,
    transform: YCbCrToRgbTransform,
    copies_grey: bool,
) -> (result: Result<YuvPlanes<'a>, DecodeHeicError>)
    requires
        depth_error(decoded.bit_depth_luma, decoded.bit_depth_chroma) is None,
        luma_error(decoded@) is None,
        transform_of(decoded.ycbcr_matrix) == Ok::<YCbCrToRgbTransform, u16>(transform),
    ensures
        match chroma_error(decoded@) {
            Some(e) => result == Err::<YuvPlanes<'a>, DecodeHeicError>(e),
            None => {
                &&& result is Ok
                &&& result->Ok_0@ == converted_image(decoded@, copies_grey)
                &&& result->Ok_0@.wf()
            },
        },
{
    let layout_is_420: bool = match decoded.layout {
        HeicPixelLayout::Yuv420 => true,
        _ => false,
    };
    let monochrome: bool = match decoded.layout {
        HeicPixelLayout::Yuv400 => true,
        _ => false,
    };
    let chroma: Option<ChromaPlanes<'a>> = if monochrome {
        None
    } else {
        let (u_plane, v_plane, width, height) = require_heic_chroma_planes(decoded)?;
        validate_heic_plane_dimensions(u_plane, width, height, "U")?;
        validate_heic_plane_dimensions(v_plane, width, height, "V")?;
        let expected: usize = heic_sample_count(width, height, "U/V")?;
        check_plane_len(u_plane.samples.len(), expected, "U plane has {} samples, expected {}")?;
        check_plane_len(v_plane.samples.len(), expected, "V plane has {} samples, expected {}")?;
        let (across, down) = heic_chroma_subsampling(decoded.layout);
        Some(
            ChromaPlanes {
                u: SampleSlice::U16(u_plane.samples.as_slice()),
                v: SampleSlice::U16(v_plane.samples.as_slice()),
                width: width as usize,
                across: across as usize,
                down: down as usize,
            },
        )
    };
    proof {
        lemma_prepared_wf(decoded.bit_depth_luma, decoded.ycbcr_range, transform, layout_is_420);
    }
    Ok(
        YuvPlanes {
            width: decoded.width,
            height: decoded.height,
            luma: SampleSlice::U16(decoded.y_plane.samples.as_slice()),
            chroma,
            converter: PreparedYcbcrToRgb::new(
                decoded.bit_depth_luma,
                decoded.ycbcr_range,
                transform,
                layout_is_420,
            ),
            verbatim: copies_grey && monochrome && decoded.bit_depth_luma == 8,
            opacity: None,
        },
    )
}

/// What is wrong with an opacity plane, if anything.
pub open spec fn alpha_error(alpha: &HeicAuxiliaryAlphaPlane, width: u32, height: u32) -> Option<
    DecodeHeicError,
> {
    if alpha.width != width || alpha.height != height {
        Some(
            bad_frame(
                Detail::Four(
                    "auxiliary alpha plane dimensions {}x{} do not match primary image {}x{}",
                    Arg::Num(alpha.width as i128),
                    Arg::Num(alpha.height as i128),
                    Arg::Num(width as i128),
                    Arg::Num(height as i128),
                ),
            ),
        )
    } else if alpha.bit_depth == 0 || alpha.bit_depth > 16 {
        Some(
            bad_frame(
                Detail::One(
                    "auxiliary alpha bit depth {} is outside supported range 1..=16",
                    Arg::Num(alpha.bit_depth as i128),
                ),
            ),
        )
    } else {
        first(
            count_error(width as int, height as int, "alpha"),
            plane_len_error(
                alpha.samples@.len() as int,
                width * height,
                "auxiliary alpha plane has {} samples, expected {}",
            ),
        )
    }
}

/// Checks an opacity plane, and counts its samples.
pub fn validate_auxiliary_alpha_plane(
    alpha: &HeicAuxiliaryAlphaPlane,
    width: u32,
    height: u32,
) -> (result: Result<usize, DecodeHeicError>)
    ensures
        match alpha_error(alpha, width, height) {
            Some(e) => result == Err::<usize, DecodeHeicError>(e),
            None => result is Ok && result->Ok_0 == width * height,
        },
{
    if alpha.width != width || alpha.height != height {
        return invalid_frame(
            Detail::Four(
                "auxiliary alpha plane dimensions {}x{} do not match primary image {}x{}",
                Arg::Num(alpha.width as i128),
                Arg::Num(alpha.height as i128),
                Arg::Num(width as i128),
                Arg::Num(height as i128),
            ),
        );
    }
    if alpha.bit_depth == 0 || alpha.bit_depth > 16 {
        return invalid_frame(
            Detail::One(
                "auxiliary alpha bit depth {} is outside supported range 1..=16",
                Arg::Num(alpha.bit_depth as i128),
            ),
        );
    }
    let pixel_count: usize = heic_sample_count(width, height, "alpha")?;
    check_plane_len(
        alpha.samples.len(),
        pixel_count,
        "auxiliary alpha plane has {} samples, expected {}",
    )?;
    Ok(pixel_count)
}

} // verus!
