//! The planes of decoded AVIF images, and their conversion.
use super::convert::write_upright;
use super::heic::shared_size;
#[allow(unused_imports)]
use super::image::{chroma_size, Chroma, Opacity, YuvImage};
use super::image::{ChromaPlanes, OpacityPlane, SampleSlice, YuvPlanes};
#[allow(unused_imports)]
use super::output::buffer_shows;
use super::output::write_planned;
#[allow(unused_imports)]
use super::rgba::{lemma_gathered_shown, rgba_image_shows, shows_transformed};
use crate::errors::{DecodeAvifError, DecodeError, Wording};
#[allow(unused_imports)]
use crate::output::{lemma_paired_length, lemma_same_pairs, machine_order, paired, unpaired};
use crate::output::{
    native_byte_order, ByteOrder, RgbaSampleOutput, SampleScale, ScaleToU16, ScaleToU8,
};
use crate::rgba::{DecodedRgbaImage, DecodedRgbaPixels};
use crate::text::Detail;
use crate::transform::mapping::PrimaryItemTransformProperty;
#[allow(unused_imports)]
use crate::transform::mapping::{
    inside, lemma_source_place, transformed_size, transforms_wf,
};
#[allow(unused_imports)]
use crate::transform::paste::own_place;
use crate::transform::pixels::apply_primary_item_transforms_rgba;
#[allow(unused_imports)]
use crate::transform::pixels::{sources, transformed};
#[allow(unused_imports)]
use crate::transform::plan::output_error;
use crate::transform::plan::{plan_output, RgbaTransformPlan};
use crate::types::{
    AvifAuxiliaryAlphaPlane, AvifPixelLayout, AvifPlane, AvifPlaneSamples, DecodedAvifImage,
};
#[allow(unused_imports)]
use crate::ycbcr::{kernel_ready, lemma_prepared_wf, prepared, transform_of};
use crate::ycbcr::{ycbcr_transform_from_matrix, PreparedYcbcrToRgb, YCbCrToRgbTransform};
use vstd::prelude::*;

verus! {

impl AvifPlaneSamples {
    /// The values of the samples.
    pub open spec fn values(self) -> Seq<u16> {
        match self {
            AvifPlaneSamples::U8(samples) => samples@.map_values(|sample: u8| sample as u16),
            AvifPlaneSamples::U16(samples) => samples@,
        }
    }

    /// The samples as they are stored.
    pub fn as_slice(&self) -> (slice: SampleSlice<'_>)
        ensures
            slice@ == self.values(),
            slice is U16 == self is U16,
    {
        match self {
            AvifPlaneSamples::U8(samples) => SampleSlice::U8(samples.as_slice()),
            AvifPlaneSamples::U16(samples) => SampleSlice::U16(samples.as_slice()),
        }
    }
}

/// How many pixels across and down share a chroma sample.
pub open spec fn avif_sharing(layout: AvifPixelLayout) -> (int, int) {
    match layout {
        AvifPixelLayout::Yuv400 => (1, 1),
        AvifPixelLayout::Yuv444 => (1, 1),
        AvifPixelLayout::Yuv420 => (2, 2),
        AvifPixelLayout::Yuv422 => (2, 1),
    }
}

/// The size of the chroma planes.
pub open spec fn avif_chroma_size(width: u32, height: u32, layout: AvifPixelLayout) -> (int, int) {
    if layout is Yuv400 {
        (0, 0)
    } else {
        (
            chroma_size(width as int, avif_sharing(layout).0),
            chroma_size(height as int, avif_sharing(layout).1),
        )
    }
}

/// The size of the chroma planes of an image.
pub fn chroma_dimensions(width: u32, height: u32, layout: AvifPixelLayout) -> (size: (u32, u32))
    ensures
        (size.0 as int, size.1 as int) == avif_chroma_size(width, height, layout),
{
    match layout {
        AvifPixelLayout::Yuv400 => (0, 0),
        AvifPixelLayout::Yuv444 => (shared_size(width, 1), shared_size(height, 1)),
        AvifPixelLayout::Yuv420 => (shared_size(width, 2), shared_size(height, 2)),
        AvifPixelLayout::Yuv422 => (shared_size(width, 2), shared_size(height, 1)),
    }
}

/// The first of two errors.
pub open spec fn first_avif(
    one: Option<DecodeAvifError>,
    other: Option<DecodeAvifError>,
) -> Option<DecodeAvifError> {
    match one {
        Some(e) => Some(e),
        None => other,
    }
}

/// The error for a plane of another size than the image has.
pub open spec fn size_error(
    plane: AvifPlane,
    width: int,
    height: int,
    name: &'static str,
) -> Option<DecodeAvifError> {
    if plane.width != width || plane.height != height {
        Some(
            DecodeAvifError::PlaneDimensionsMismatch {
                plane: name,
                expected_width: width as u32,
                expected_height: height as u32,
                actual_width: plane.width,
                actual_height: plane.height,
            },
        )
    } else {
        None
    }
}

/// Checks the size of a plane.
pub fn validate_plane_dimensions(
    plane: &AvifPlane,
    expected_width: u32,
    expected_height: u32,
    plane_name: &'static str,
) -> (result: Result<(), DecodeAvifError>)
    ensures
        match size_error(*plane, expected_width as int, expected_height as int, plane_name) {
            Some(e) => result == Err::<(), DecodeAvifError>(e),
            None => result is Ok,
        },
{
    if plane.width != expected_width || plane.height != expected_height {
        return Err(
            DecodeAvifError::PlaneDimensionsMismatch {
                plane: plane_name,
                expected_width,
                expected_height,
                actual_width: plane.width,
                actual_height: plane.height,
            },
        );
    }
    Ok(())
}

/// The error for a plane with samples of another width than asked for.
pub open spec fn type_error(plane: AvifPlane, wide: bool, name: &'static str) -> Option<
    DecodeAvifError,
> {
    if wide && plane.samples is U8 {
        Some(
            DecodeAvifError::PlaneSampleTypeMismatch {
                plane: name,
                expected: "u16",
                actual: "u8",
            },
        )
    } else if !wide && plane.samples is U16 {
        Some(
            DecodeAvifError::PlaneSampleTypeMismatch {
                plane: name,
                expected: "u8",
                actual: "u16",
            },
        )
    } else {
        None
    }
}

/// The samples of a plane, where they are of the width asked for.
fn plane_samples<'a>(plane: &'a AvifPlane, wide: bool, name: &'static str) -> (result: Result<
    SampleSlice<'a>,
    DecodeAvifError,
>)
    ensures
        match type_error(*plane, wide, name) {
            Some(e) => result == Err::<SampleSlice<'a>, DecodeAvifError>(e),
            None => result is Ok && result->Ok_0@ == plane.samples.values(),
        },
{
    match &plane.samples {
        AvifPlaneSamples::U8(samples) => if wide {
            Err(
                DecodeAvifError::PlaneSampleTypeMismatch {
                    plane: name,
                    expected: "u16",
                    actual: "u8",
                },
            )
        } else {
            Ok(SampleSlice::U8(samples.as_slice()))
        },
        AvifPlaneSamples::U16(samples) => if wide {
            Ok(SampleSlice::U16(samples.as_slice()))
        } else {
            Err(
                DecodeAvifError::PlaneSampleTypeMismatch {
                    plane: name,
                    expected: "u8",
                    actual: "u16",
                },
            )
        },
    }
}

/// The error for a plane with more samples than can be counted.
pub open spec fn overflow_error(
    width: int,
    height: int,
    channels: int,
    name: &'static str,
) -> Option<DecodeAvifError> {
    if width * height * channels > usize::MAX {
        Some(
            DecodeAvifError::PlaneSizeOverflow {
                plane: name,
                width: width as u32,
                height: height as u32,
            },
        )
    } else {
        None
    }
}

/// The number of samples of a plane.
pub fn plane_sample_count(width: u32, height: u32, plane_name: &'static str) -> (result: Result<
    usize,
    DecodeAvifError,
>)
    ensures
        match overflow_error(width as int, height as int, 1, plane_name) {
            Some(e) => result == Err::<usize, DecodeAvifError>(e),
            None => result is Ok && result->Ok_0 == width * height,
        },
{
    proof {
        assert(0 <= width * height) by (nonlinear_arith);
    }
    match (width as usize).checked_mul(height as usize) {
        Some(count) => Ok(count),
        None => Err(DecodeAvifError::PlaneSizeOverflow { plane: plane_name, width, height }),
    }
}

/// The error for a plane with another number of samples than it should have.
pub open spec fn len_error(actual: int, expected: int, name: &'static str) -> Option<
    DecodeAvifError,
> {
    if actual != expected {
        Some(
            DecodeAvifError::PlaneSampleCountMismatch {
                plane: name,
                expected: expected as usize,
                actual: actual as usize,
            },
        )
    } else {
        None
    }
}

/// Checks the number of samples of a plane.
fn check_len(actual: usize, expected: usize, name: &'static str) -> (result: Result<
    (),
    DecodeAvifError,
>)
    ensures
        match len_error(actual as int, expected as int, name) {
            Some(e) => result == Err::<(), DecodeAvifError>(e),
            None => result is Ok,
        },
{
    if actual != expected {
        return Err(
            DecodeAvifError::PlaneSampleCountMismatch { plane: name, expected, actual },
        );
    }
    Ok(())
}

/// The error for a matrix that there is no conversion for.
pub open spec fn avif_matrix_error(decoded: DecodedAvifImage) -> Option<DecodeAvifError> {
    match transform_of(decoded.ycbcr_matrix) {
        Err(code) => Some(
            DecodeAvifError::UnsupportedMatrixCoefficients { matrix_coefficients: code },
        ),
        Ok(_) => None,
    }
}

/// Why the luma plane is not the one of the image, if it is not.
pub open spec fn avif_luma_error(decoded: DecodedAvifImage, wide: bool) -> Option<
    DecodeAvifError,
> {
    first_avif(
        size_error(decoded.y_plane, decoded.width as int, decoded.height as int, "Y"),
        first_avif(
            type_error(decoded.y_plane, wide, "Y"),
            first_avif(
                overflow_error(decoded.width as int, decoded.height as int, 1, "Y"),
                len_error(
                    decoded.y_plane.samples.values().len() as int,
                    decoded.width * decoded.height,
                    "Y",
                ),
            ),
        ),
    )
}

/// Why the chroma planes are not those of the image, if they are not.
pub open spec fn avif_chroma_error(decoded: DecodedAvifImage, wide: bool) -> Option<
    DecodeAvifError,
> {
    let (width, height) = avif_chroma_size(decoded.width, decoded.height, decoded.layout);
    if decoded.layout is Yuv400 {
        None
    } else if decoded.u_plane is None {
        Some(DecodeAvifError::MissingPlane { plane: "U", layout: decoded.layout })
    } else if decoded.v_plane is None {
        Some(DecodeAvifError::MissingPlane { plane: "V", layout: decoded.layout })
    } else {
        let u = decoded.u_plane->0;
        let v = decoded.v_plane->0;
        first_avif(
            size_error(u, width, height, "U"),
            first_avif(
                size_error(v, width, height, "V"),
                first_avif(
                    type_error(u, wide, "U"),
                    first_avif(
                        type_error(v, wide, "V"),
                        first_avif(
                            overflow_error(width, height, 1, "U/V"),
                            first_avif(
                                len_error(
                                    u.samples.values().len() as int,
                                    width * height,
                                    "U",
                                ),
                                len_error(
                                    v.samples.values().len() as int,
                                    width * height,
                                    "V",
                                ),
                            ),
                        ),
                    ),
                ),
            ),
        )
    }
}

/// Why the opacity plane is not the one of the image, if it is not.
pub open spec fn avif_alpha_error(decoded: DecodedAvifImage) -> Option<DecodeAvifError> {
    match decoded.alpha_plane {
        None => None,
        Some(alpha) => if alpha.width != decoded.width || alpha.height != decoded.height {
            Some(
                DecodeAvifError::PlaneDimensionsMismatch {
                    plane: "A",
                    expected_width: decoded.width,
                    expected_height: decoded.height,
                    actual_width: alpha.width,
                    actual_height: alpha.height,
                },
            )
        } else if alpha.bit_depth == 0 || alpha.bit_depth > 16 {
            Some(DecodeAvifError::UnsupportedBitDepth { bit_depth: alpha.bit_depth as i32 })
        } else {
            len_error(
                alpha.samples.values().len() as int,
                decoded.width * decoded.height,
                "A",
            )
        },
    }
}

/// The image that the planes make up. Luma of eight bits without chroma may
/// be copied as it is.
pub open spec fn avif_image(decoded: DecodedAvifImage, copies_grey: bool) -> YuvImage {
    let (across, down) = avif_sharing(decoded.layout);
    YuvImage {
        width: decoded.width,
        height: decoded.height,
        luma: decoded.y_plane.samples.values(),
        chroma: if decoded.layout is Yuv400 {
            None
        } else {
            Some(
                Chroma {
                    u: decoded.u_plane->0.samples.values(),
                    v: decoded.v_plane->0.samples.values(),
                    width: chroma_size(decoded.width as int, across),
                    across,
                    down,
                },
            )
        },
        converter: prepared(
            decoded.bit_depth,
            decoded.ycbcr_range,
            transform_of(decoded.ycbcr_matrix)->Ok_0,
            decoded.layout is Yuv420,
        ),
        verbatim: copies_grey && decoded.layout is Yuv400 && decoded.bit_depth == 8,
        opacity: match decoded.alpha_plane {
            None => None,
            Some(alpha) => Some(
                Opacity { bit_depth: alpha.bit_depth, samples: alpha.samples.values() },
            ),
        },
    }
}

/// The conversion that the matrix of an image asks for, and its luma samples.
fn prepare_luma<'a>(decoded: &'a DecodedAvifImage, wide: bool) -> (result: Result<
    (YCbCrToRgbTransform, SampleSlice<'a>, usize),
    DecodeAvifError,
>)
    ensures
        match first_avif(avif_matrix_error(*decoded), avif_luma_error(*decoded, wide)) {
            Some(e) => result == Err::<
                (YCbCrToRgbTransform, SampleSlice<'a>, usize),
                DecodeAvifError,
            >(e),
            None => {
                &&& result is Ok
                &&& transform_of(decoded.ycbcr_matrix) == Ok::<YCbCrToRgbTransform, u16>(
                    result->Ok_0.0,
                )
                &&& result->Ok_0.1@ == decoded.y_plane.samples.values()
                &&& result->Ok_0.1@.len() == decoded.width * decoded.height
                &&& result->Ok_0.2 == decoded.width * decoded.height
            },
        },
{
    let transform: YCbCrToRgbTransform = match ycbcr_transform_from_matrix(decoded.ycbcr_matrix) {
        Err(code) => {
            return Err(
                DecodeAvifError::UnsupportedMatrixCoefficients { matrix_coefficients: code },
            );
        },
        Ok(transform) => transform,
    };
    validate_plane_dimensions(&decoded.y_plane, decoded.width, decoded.height, "Y")?;
    let luma: SampleSlice<'a> = plane_samples(&decoded.y_plane, wide, "Y")?;
    let count: usize = plane_sample_count(decoded.width, decoded.height, "Y")?;
    check_len(luma.count(), count, "Y")?;
    Ok((transform, luma, count))
}

/// The chroma planes of an image, checked.
fn prepare_chroma<'a>(decoded: &'a DecodedAvifImage, wide: bool) -> (result: Result<
    Option<ChromaPlanes<'a>>,
    DecodeAvifError,
>)
    ensures
        match avif_chroma_error(*decoded, wide) {
            Some(e) => result == Err::<Option<ChromaPlanes<'a>>, DecodeAvifError>(e),
            None => {
                &&& result is Ok
                &&& result->Ok_0 is None == decoded.layout is Yuv400
                &&& result->Ok_0 matches Some(chroma) ==> {
                    &&& decoded.u_plane is Some
                    &&& decoded.v_plane is Some
                    &&& chroma.u@ == decoded.u_plane->0.samples.values()
                    &&& chroma.v@ == decoded.v_plane->0.samples.values()
                    &&& (chroma.across as int, chroma.down as int) == avif_sharing(decoded.layout)
                    &&& chroma.width == avif_chroma_size(
                        decoded.width,
                        decoded.height,
                        decoded.layout,
                    ).0
                    &&& chroma.u@.len() == chroma.v@.len()
                    &&& chroma.u@.len() == chroma.width * avif_chroma_size(
                        decoded.width,
                        decoded.height,
                        decoded.layout,
                    ).1
                    &&& chroma.u@.len() <= usize::MAX
                }
            },
        },
{
    let (across, down): (usize, usize) = match decoded.layout {
        AvifPixelLayout::Yuv400 => {
            return Ok(None);
        },
        AvifPixelLayout::Yuv444 => (1, 1),
        AvifPixelLayout::Yuv420 => (2, 2),
        AvifPixelLayout::Yuv422 => (2, 1),
    };
    let (width, height): (u32, u32) = chroma_dimensions(
        decoded.width,
        decoded.height,
        decoded.layout,
    );
    let u_plane: &AvifPlane = match &decoded.u_plane {
        None => {
            return Err(DecodeAvifError::MissingPlane { plane: "U", layout: decoded.layout });
        },
        Some(plane) => plane,
    };
    let v_plane: &AvifPlane = match &decoded.v_plane {
        None => {
            return Err(DecodeAvifError::MissingPlane { plane: "V", layout: decoded.layout });
        },
        Some(plane) => plane,
    };
    validate_plane_dimensions(u_plane, width, height, "U")?;
    validate_plane_dimensions(v_plane, width, height, "V")?;
    let u: SampleSlice<'a> = plane_samples(u_plane, wide, "U")?;
    let v: SampleSlice<'a> = plane_samples(v_plane, wide, "V")?;
    let count: usize = plane_sample_count(width, height, "U/V")?;
    check_len(u.count(), count, "U")?;
    check_len(v.count(), count, "V")?;
    Ok(Some(ChromaPlanes { u, v, width: width as usize, across, down }))
}

/// The opacity plane of an image, checked.
fn prepare_avif_auxiliary_alpha<'a>(
    decoded: &'a DecodedAvifImage,
    expected_samples: usize,
) -> (result: Result<Option<OpacityPlane<'a>>, DecodeAvifError>)
    requires
        expected_samples == decoded.width * decoded.height,
    ensures
        match avif_alpha_error(*decoded) {
            Some(e) => result == Err::<Option<OpacityPlane<'a>>, DecodeAvifError>(e),
            None => result is Ok && match result->Ok_0 {
                None => decoded.alpha_plane is None,
                Some(opacity) => {
                    &&& decoded.alpha_plane is Some
                    &&& opacity.bit_depth == decoded.alpha_plane->0.bit_depth
                    &&& opacity.samples@ == decoded.alpha_plane->0.samples.values()
                    &&& 1 <= opacity.bit_depth <= 16
                    &&& opacity.samples@.len() == expected_samples
                },
            },
        },
{
    let alpha: &AvifAuxiliaryAlphaPlane = match &decoded.alpha_plane {
        None => {
            return Ok(None);
        },
        Some(alpha) => alpha,
    };
    if alpha.width != decoded.width || alpha.height != decoded.height {
        return Err(
            DecodeAvifError::PlaneDimensionsMismatch {
                plane: "A",
                expected_width: decoded.width,
                expected_height: decoded.height,
                actual_width: alpha.width,
                actual_height: alpha.height,
            },
        );
    }
    if alpha.bit_depth == 0 || alpha.bit_depth > 16 {
        return Err(DecodeAvifError::UnsupportedBitDepth { bit_depth: alpha.bit_depth as i32 });
    }
    let samples: SampleSlice<'a> = alpha.samples.as_slice();
    check_len(samples.count(), expected_samples, "A")?;
    Ok(Some(OpacityPlane { bit_depth: alpha.bit_depth, samples }))
}

/// The planes of an image, ready to be converted.
fn prepare_planes<'a>(
    decoded: &'a DecodedAvifImage,
    wide: bool,
    copies_grey: bool,
    luma: (YCbCrToRgbTransform, SampleSlice<'a>, usize),
) -> (result: Result<YuvPlanes<'a>, DecodeAvifError>)
    requires
        1 <= decoded.bit_depth <= 16,
        transform_of(decoded.ycbcr_matrix) == Ok::<YCbCrToRgbTransform, u16>(luma.0),
        luma.1@ == decoded.y_plane.samples.values(),
        luma.1@.len() == decoded.width * decoded.height,
        luma.2 == decoded.width * decoded.height,
    ensures
        match first_avif(avif_chroma_error(*decoded, wide), avif_alpha_error(*decoded)) {
            Some(e) => result == Err::<YuvPlanes<'a>, DecodeAvifError>(e),
            None => {
                &&& result is Ok
                &&& result->Ok_0@ == avif_image(*decoded, copies_grey)
                &&& result->Ok_0@.wf()
            },
        },
{
    let chroma: Option<ChromaPlanes<'a>> = prepare_chroma(decoded, wide)?;
    let opacity: Option<OpacityPlane<'a>> = prepare_avif_auxiliary_alpha(decoded, luma.2)?;
    let grey: bool = matches!(decoded.layout, AvifPixelLayout::Yuv400);
    let halved: bool = matches!(decoded.layout, AvifPixelLayout::Yuv420);
    let converter: PreparedYcbcrToRgb = PreparedYcbcrToRgb::new(
        decoded.bit_depth,
        decoded.ycbcr_range,
        luma.0,
        halved,
    );
    proof {
        lemma_prepared_wf(decoded.bit_depth, decoded.ycbcr_range, luma.0, halved);
    }
    Ok(
        YuvPlanes {
            width: decoded.width,
            height: decoded.height,
            luma: luma.1,
            chroma,
            converter,
            verbatim: copies_grey && grey && decoded.bit_depth == 8,
            opacity,
        },
    )
}

/// Why an image cannot be converted, if it cannot.
pub open spec fn avif_convert_error(decoded: DecodedAvifImage, wide: bool) -> Option<
    DecodeAvifError,
> {
    first_avif(
        avif_matrix_error(decoded),
        first_avif(
            avif_luma_error(decoded, wide),
            first_avif(
                overflow_error(decoded.width as int, decoded.height as int, 4, "RGBA"),
                first_avif(avif_chroma_error(decoded, wide), avif_alpha_error(decoded)),
            ),
        ),
    )
}

/// The planes of an image, and the number of samples of its conversion.
fn prepare_conversion<'a>(
    decoded: &'a DecodedAvifImage,
    wide: bool,
    copies_grey: bool,
) -> (result: Result<(YuvPlanes<'a>, usize), DecodeAvifError>)
    requires
        1 <= decoded.bit_depth <= 16,
    ensures
        match avif_convert_error(*decoded, wide) {
            Some(e) => result == Err::<(YuvPlanes<'a>, usize), DecodeAvifError>(e),
            None => {
                &&& result is Ok
                &&& result->Ok_0.0@ == avif_image(*decoded, copies_grey)
                &&& result->Ok_0.0@.wf()
                &&& result->Ok_0.1 == 4 * (decoded.width * decoded.height)
            },
        },
{
    let luma: (YCbCrToRgbTransform, SampleSlice<'a>, usize) = prepare_luma(decoded, wide)?;
    let len: usize = match luma.2.checked_mul(4) {
        None => {
            return Err(
                DecodeAvifError::PlaneSizeOverflow {
                    plane: "RGBA",
                    width: decoded.width,
                    height: decoded.height,
                },
            );
        },
        Some(len) => len,
    };
    let planes: YuvPlanes<'a> = prepare_planes(decoded, wide, copies_grey, luma)?;
    Ok((planes, len))
}

/// Converts an image with samples of eight bits.
pub fn convert_avif_to_rgba8<F: Fn(PreparedYcbcrToRgb, i32, i32, i32) -> (u16, u16, u16)>(
    decoded: &DecodedAvifImage,
    float_kernel: &F,
) -> (result: Result<Vec<u8>, DecodeAvifError>)
    requires
        1 <= decoded.bit_depth <= 16,
        kernel_ready(*float_kernel),
    ensures
        match avif_convert_error(*decoded, false) {
            Some(e) => result == Err::<Vec<u8>, DecodeAvifError>(e),
            None => {
                &&& result is Ok
                &&& result->Ok_0@.len() == 4 * (decoded.width * decoded.height)
                &&& avif_image(*decoded, true).shown_as::<u8, ScaleToU8, F>(
                    *float_kernel,
                    4,
                    result->Ok_0@,
                    decoded.width as int,
                    decoded.width * decoded.height,
                    own_place(),
                )
            },
        },
{
    let (planes, len): (YuvPlanes<'_>, usize) = prepare_conversion(decoded, false, true)?;
    let mut out: Vec<u8> = vec![0u8; len];
    write_upright::<u8, ScaleToU8, [u8], F>(
        &planes,
        float_kernel,
        4,
        out.as_mut_slice(),
        ByteOrder::LittleEndian,
    );
    Ok(out)
}

/// Converts an image with samples of sixteen bits.
pub fn convert_avif_to_rgba16<F: Fn(PreparedYcbcrToRgb, i32, i32, i32) -> (u16, u16, u16)>(
    decoded: &DecodedAvifImage,
    float_kernel: &F,
) -> (result: Result<Vec<u16>, DecodeAvifError>)
    requires
        1 <= decoded.bit_depth <= 16,
        kernel_ready(*float_kernel),
    ensures
        match avif_convert_error(*decoded, true) {
            Some(e) => result == Err::<Vec<u16>, DecodeAvifError>(e),
            None => {
                &&& result is Ok
                &&& result->Ok_0@.len() == 4 * (decoded.width * decoded.height)
                &&& avif_image(*decoded, false).shown_as::<u16, ScaleToU16, F>(
                    *float_kernel,
                    4,
                    result->Ok_0@,
                    decoded.width as int,
                    decoded.width * decoded.height,
                    own_place(),
                )
            },
        },
{
    let (planes, len): (YuvPlanes<'_>, usize) = prepare_conversion(decoded, true, false)?;
    let mut out: Vec<u16> = vec![0u16; len];
    write_upright::<u16, ScaleToU16, [u16], F>(
        &planes,
        float_kernel,
        4,
        out.as_mut_slice(),
        ByteOrder::LittleEndian,
    );
    Ok(out)
}

/// Carries out transforms on a converted image.
fn finish<
    T: Copy,
    S: SampleScale<T>,
    F: Fn(PreparedYcbcrToRgb, i32, i32, i32) -> (u16, u16, u16),
>(
    width: u32,
    height: u32,
    pixels: Vec<T>,
    transforms: &[PrimaryItemTransformProperty],
    Ghost(image): Ghost<YuvImage>,
    Ghost(float_kernel): Ghost<F>,
) -> (result: Result<(u32, u32, Vec<T>), DecodeError>)
    requires
        transforms_wf(transforms@),
        image.width == width,
        image.height == height,
        pixels@.len() == 4 * (width * height),
        pixels@.len() <= usize::MAX,
        image.shown_as::<T, S, F>(
            float_kernel,
            4,
            pixels@,
            width as int,
            width * height,
            own_place(),
        ),
    ensures
        match transformed_size(transforms@, width, height, transforms@.len()) {
            Err(e) => result == Err::<(u32, u32, Vec<T>), DecodeError>(
                DecodeError::TransformGuard(e),
            ),
            Ok(_) => result is Ok && shows_transformed::<T, S, F>(
                image,
                transforms@,
                float_kernel,
                4,
                (result->Ok_0.0, result->Ok_0.1, result->Ok_0.2@),
            ),
        },
{
    let ghost shown = pixels@;
    match apply_primary_item_transforms_rgba(width, height, pixels, transforms) {
        Err(e) => Err(DecodeError::TransformGuard(e)),
        Ok((w, h, moved)) => {
            proof {
                let from = sources(transforms@, width, height, transforms@.len());
                assert forall|place: (int, int)| inside(place, w, h) implies inside(
                    #[trigger] from(place),
                    width,
                    height,
                ) by {
                    lemma_source_place(transforms@, width, height, transforms@.len(), place);
                }
                lemma_gathered_shown::<T, S, F>(
                    image,
                    float_kernel,
                    4,
                    shown,
                    moved@,
                    (w, h),
                    from,
                );
            }
            Ok((w, h, moved))
        },
    }
}

/// Why an image cannot become an RGBA image, if it cannot.
pub open spec fn avif_rgba_error(
    decoded: DecodedAvifImage,
    transforms: Seq<PrimaryItemTransformProperty>,
) -> Option<DecodeError> {
    match avif_convert_error(decoded, decoded.bit_depth > 8) {
        Some(e) => Some(DecodeError::AvifDecode(e)),
        None => match transformed_size(
            transforms,
            decoded.width,
            decoded.height,
            transforms.len(),
        ) {
            Err(e) => Some(DecodeError::TransformGuard(e)),
            Ok(_) => None,
        },
    }
}

/// A decoded image with its transforms carried out.
pub fn decoded_avif_to_rgba_image<F: Fn(PreparedYcbcrToRgb, i32, i32, i32) -> (u16, u16, u16)>(
    decoded: &DecodedAvifImage,
    transforms: &[PrimaryItemTransformProperty],
    icc_profile: Option<Vec<u8>>,
    float_kernel: &F,
) -> (result: Result<DecodedRgbaImage, DecodeError>)
    requires
        1 <= decoded.bit_depth <= 16,
        transforms_wf(transforms@),
        kernel_ready(*float_kernel),
    ensures
        match avif_rgba_error(*decoded, transforms@) {
            Some(e) => result == Err::<DecodedRgbaImage, DecodeError>(e),
            None => result is Ok && rgba_image_shows(
                avif_image(*decoded, true),
                transforms@,
                *float_kernel,
                decoded.bit_depth,
                icc_profile,
                result->Ok_0,
            ),
        },
{
    if decoded.bit_depth <= 8 {
        let pixels: Vec<u8> = match convert_avif_to_rgba8(decoded, float_kernel) {
            Err(e) => {
                return Err(DecodeError::AvifDecode(e));
            },
            Ok(pixels) => pixels,
        };
        let (width, height, transformed): (u32, u32, Vec<u8>) = finish::<u8, ScaleToU8, F>(
            decoded.width,
            decoded.height,
            pixels,
            transforms,
            Ghost(avif_image(*decoded, true)),
            Ghost(*float_kernel),
        )?;
        return Ok(
            DecodedRgbaImage {
                width,
                height,
                source_bit_depth: decoded.bit_depth,
                pixels: DecodedRgbaPixels::U8(transformed),
                icc_profile,
            },
        );
    }
    let pixels: Vec<u16> = match convert_avif_to_rgba16(decoded, float_kernel) {
        Err(e) => {
            return Err(DecodeError::AvifDecode(e));
        },
        Ok(pixels) => pixels,
    };
    assert(avif_image(*decoded, true) == avif_image(*decoded, false));
    let (width, height, transformed): (u32, u32, Vec<u16>) = finish::<u16, ScaleToU16, F>(
        decoded.width,
        decoded.height,
        pixels,
        transforms,
        Ghost(avif_image(*decoded, true)),
        Ghost(*float_kernel),
    )?;
    Ok(
        DecodedRgbaImage {
            width,
            height,
            source_bit_depth: decoded.bit_depth,
            pixels: DecodedRgbaPixels::U16(transformed),
            icc_profile,
        },
    )
}

/// Why an image cannot be written into a buffer, if it cannot.
pub open spec fn avif_buffer_error(
    decoded: DecodedAvifImage,
    transforms: Seq<PrimaryItemTransformProperty>,
    wide: bool,
    actual: int,
    stage: &'static str,
) -> Option<DecodeError> {
    match output_error(transforms, decoded.width, decoded.height, actual, stage) {
        Some(e) => Some(DecodeError::TransformGuard(e)),
        None => match first_avif(
            avif_matrix_error(decoded),
            first_avif(
                avif_luma_error(decoded, wide),
                first_avif(avif_chroma_error(decoded, wide), avif_alpha_error(decoded)),
            ),
        ) {
            Some(e) => Some(DecodeError::AvifDecode(e)),
            None => None,
        },
    }
}

/// Writes a decoded image with its transforms carried out into a buffer.
pub fn decoded_avif_to_rgba_output<
    T: Copy,
    S: SampleScale<T>,
    O: RgbaSampleOutput<T> + ?Sized,
    F: Fn(PreparedYcbcrToRgb, i32, i32, i32) -> (u16, u16, u16),
>(
    decoded: &DecodedAvifImage,
    transforms: &[PrimaryItemTransformProperty],
    out: &mut O,
    order: ByteOrder,
    sample_count_stage: &'static str,
    wide: bool,
    float_kernel: &F,
) -> (result: Result<(), DecodeError>)
    requires
        1 <= decoded.bit_depth <= 16,
        transforms_wf(transforms@),
        kernel_ready(*float_kernel),
    ensures
        final(out).samples(order).len() == old(out).samples(order).len(),
        final(out).rest() == old(out).rest(),
        match avif_buffer_error(
            *decoded,
            transforms@,
            wide,
            old(out).samples(order).len() as int,
            sample_count_stage,
        ) {
            Some(e) => result == Err::<(), DecodeError>(e) && forall|o: ByteOrder| #[trigger]
                final(out).samples(o) == old(out).samples(o),
            None => result is Ok && buffer_shows::<T, S, F>(
                avif_image(*decoded, true),
                transforms@,
                *float_kernel,
                final(out).samples(order),
            ),
        },
{
    let actual: usize = out.sample_len();
    let plan: RgbaTransformPlan = match plan_output(
        decoded.width,
        decoded.height,
        transforms,
        actual,
        sample_count_stage,
    ) {
        Err(e) => {
            return Err(DecodeError::TransformGuard(e));
        },
        Ok(plan) => plan,
    };
    let luma: (YCbCrToRgbTransform, SampleSlice<'_>, usize) = match prepare_luma(decoded, wide) {
        Err(e) => {
            return Err(DecodeError::AvifDecode(e));
        },
        Ok(luma) => luma,
    };
    let planes: YuvPlanes<'_> = match prepare_planes(decoded, wide, true, luma) {
        Err(e) => {
            return Err(DecodeError::AvifDecode(e));
        },
        Ok(planes) => planes,
    };
    write_planned::<T, S, O, F>(&planes, &plan, Ghost(transforms@), float_kernel, out, order);
    Ok(())
}

/// The error for an image that is stored with more than eight bits.
pub open spec fn stored_wide() -> DecodeError {
    DecodeError::Unsupported(
        Wording::Template(Detail::Plain("AVIF storage is RGBA16, not RGBA8")),
    )
}

/// The error for an image that is stored with eight bits.
pub open spec fn stored_narrow() -> DecodeError {
    DecodeError::Unsupported(
        Wording::Template(Detail::Plain("AVIF storage is RGBA8, not RGBA16")),
    )
}

/// Writes a decoded image with its transforms carried out into a buffer of
/// eight bits.
pub fn decoded_avif_to_rgba8_slice<F: Fn(PreparedYcbcrToRgb, i32, i32, i32) -> (u16, u16, u16)>(
    decoded: &DecodedAvifImage,
    transforms: &[PrimaryItemTransformProperty],
    out: &mut [u8],
    float_kernel: &F,
) -> (result: Result<(), DecodeError>)
    requires
        1 <= decoded.bit_depth <= 16,
        transforms_wf(transforms@),
        kernel_ready(*float_kernel),
    ensures
        final(out)@.len() == old(out)@.len(),
        if decoded.bit_depth > 8 {
            result == Err::<(), DecodeError>(stored_wide()) && final(out)@ == old(out)@
        } else {
            match avif_buffer_error(
                *decoded,
                transforms@,
                false,
                old(out)@.len() as int,
                "AVIF direct transformed RGBA8 image adapter output",
            ) {
                Some(e) => result == Err::<(), DecodeError>(e) && final(out)@ == old(out)@,
                None => result is Ok && buffer_shows::<u8, ScaleToU8, F>(
                    avif_image(*decoded, true),
                    transforms@,
                    *float_kernel,
                    final(out)@,
                ),
            }
        },
{
    if decoded.bit_depth > 8 {
        return Err(
            DecodeError::Unsupported(
                Wording::Template(Detail::Plain("AVIF storage is RGBA16, not RGBA8")),
            ),
        );
    }
    decoded_avif_to_rgba_output::<u8, ScaleToU8, [u8], F>(
        decoded,
        transforms,
        out,
        ByteOrder::LittleEndian,
        "AVIF direct transformed RGBA8 image adapter output",
        false,
        float_kernel,
    )
}

/// Writes a decoded image with its transforms carried out into a buffer of
/// sixteen bits.
pub fn decoded_avif_to_rgba16_output<
    O: RgbaSampleOutput<u16> + ?Sized,
    F: Fn(PreparedYcbcrToRgb, i32, i32, i32) -> (u16, u16, u16),
>(
    decoded: &DecodedAvifImage,
    transforms: &[PrimaryItemTransformProperty],
    out: &mut O,
    order: ByteOrder,
    float_kernel: &F,
) -> (result: Result<(), DecodeError>)
    requires
        1 <= decoded.bit_depth <= 16,
        transforms_wf(transforms@),
        kernel_ready(*float_kernel),
    ensures
        final(out).samples(order).len() == old(out).samples(order).len(),
        final(out).rest() == old(out).rest(),
        if decoded.bit_depth <= 8 {
            result == Err::<(), DecodeError>(stored_narrow()) && forall|o: ByteOrder| #[trigger]
                final(out).samples(o) == old(out).samples(o)
        } else {
            match avif_buffer_error(
                *decoded,
                transforms@,
                true,
                old(out).samples(order).len() as int,
                "AVIF direct transformed RGBA16 image adapter output",
            ) {
                Some(e) => result == Err::<(), DecodeError>(e) && forall|o: ByteOrder| #[trigger]
                final(out).samples(o) == old(out).samples(o),
                None => result is Ok && buffer_shows::<u16, ScaleToU16, F>(
                    avif_image(*decoded, true),
                    transforms@,
                    *float_kernel,
                    final(out).samples(order),
                ),
            }
        },
{
    if decoded.bit_depth <= 8 {
        return Err(
            DecodeError::Unsupported(
                Wording::Template(Detail::Plain("AVIF storage is RGBA8, not RGBA16")),
            ),
        );
    }
    decoded_avif_to_rgba_output::<u16, ScaleToU16, O, F>(
        decoded,
        transforms,
        out,
        order,
        "AVIF direct transformed RGBA16 image adapter output",
        true,
        float_kernel,
    )
}

/// Writes a decoded image with its transforms carried out into a buffer of
/// sixteen bits, each sample in the byte order of the machine.
pub fn decoded_avif_to_rgba16_native_endian_bytes<
    F: Fn(PreparedYcbcrToRgb, i32, i32, i32) -> (u16, u16, u16),
>(
    decoded: &DecodedAvifImage,
    transforms: &[PrimaryItemTransformProperty],
    out: &mut [u8],
    float_kernel: &F,
) -> (result: Result<(), DecodeError>)
    requires
        1 <= decoded.bit_depth <= 16,
        transforms_wf(transforms@),
        kernel_ready(*float_kernel),
    ensures
        final(out)@.len() == old(out)@.len(),
        unpaired(final(out)@) == unpaired(old(out)@),
        result is Err ==> final(out)@ == old(out)@,
        if decoded.bit_depth <= 8 {
            result == Err::<(), DecodeError>(stored_narrow())
        } else {
            match avif_buffer_error(
                *decoded,
                transforms@,
                true,
                old(out)@.len() as int / 2,
                "AVIF direct transformed RGBA16 image adapter output",
            ) {
                Some(e) => result == Err::<(), DecodeError>(e),
                None => result is Ok && buffer_shows::<u16, ScaleToU16, F>(
                    avif_image(*decoded, true),
                    transforms@,
                    *float_kernel,
                    paired(final(out)@, machine_order()),
                ),
            }
        },
{
    let order: ByteOrder = native_byte_order();
    let ghost before = out@;
    assert(paired(before, order).len() == before.len() as int / 2);
    let result = decoded_avif_to_rgba16_output::<[u8], F>(
        decoded,
        transforms,
        out,
        order,
        float_kernel,
    );
    proof {
        assert(RgbaSampleOutput::<u16>::samples(out, order) == paired(out@, order));
        lemma_paired_length(before, order);
        lemma_paired_length(out@, order);
        if result is Err {
            lemma_same_pairs(before, out@, order);
        }
    }
    result
}

} // verus!
