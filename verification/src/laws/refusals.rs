//! When input is refused, and what is said of it then.
#[allow(unused_imports)]
use crate::avif::{geometry_error, AvifPrimaryItemPreflightProperties};
#[allow(unused_imports)]
use crate::errors::{
    DecodeAvifError, DecodeError, DecodeGuardrailError, DecodeHeicError, DecodeUncompressedError,
    TransformGuardError, Wording,
};
#[allow(unused_imports)]
use crate::grid::image::grid_storage_mismatch;
#[allow(unused_imports)]
use crate::grid::layout::{mismatch_error, tile_count_error, HeicGridDescriptor, HeicGridTileReference};
#[allow(unused_imports)]
use crate::guardrails::{read_failure, SourceReadError};
#[allow(unused_imports)]
use crate::hevc::coded::item_mismatch;
#[allow(unused_imports)]
use crate::hevc::sps::metadata_error;
#[allow(unused_imports)]
use crate::text::{Arg, Detail};
#[allow(unused_imports)]
use crate::transform::mapping::{transformed_size, PrimaryItemTransformProperty};
#[allow(unused_imports)]
use crate::transform::pixels::sample_count;
#[allow(unused_imports)]
use crate::transform::plan::output_error;
#[allow(unused_imports)]
use crate::types::{
    AvifPlane, AvifPlaneSamples, DecodedAvifImage, DecodedHeicImageMetadata,
    HeicAuxiliaryAlphaPlane, HeicPixelLayout, HeicView,
};
#[allow(unused_imports)]
use crate::uncompressed::components::{ComponentLayout, UncompressedFrameConfig};
#[allow(unused_imports)]
use crate::uncompressed::frame::header_error;
#[allow(unused_imports)]
use crate::yuv::avif::{
    avif_alpha_error, avif_chroma_error, avif_chroma_size, avif_luma_error, len_error, size_error,
};
#[allow(unused_imports)]
use crate::yuv::heic::{alpha_error, chroma_dimensions, chroma_error, depth_error, luma_error};
#[allow(unused_imports)]
use crate::yuv::image::chroma_size;
#[allow(unused_imports)]
use crate::yuv::output::storage_mismatch;
use vstd::prelude::*;

verus! {

/// What kind of error it is that a caller gets: a failure to read, a limit, an
/// output that cannot be written, a feature that is not supported, or the kind
/// that the decoder of the format gives it.
pub proof fn lemma_kinds_of_errors(error: DecodeError)
    ensures
        error.spec_category() is Io <==> error is Io,
        error.spec_category() is ResourceLimit <==> error is Guardrail,
        error.spec_category() is OutputEncoding <==> error is PngEncoding
            || error is OutputBufferOverflow,
        error is Unsupported ==> error.spec_category() is UnsupportedFeature,
        error matches DecodeError::TransformGuard(inner) ==> (if inner is UnsupportedRotation {
            error.spec_category() is UnsupportedFeature
        } else {
            error.spec_category() is MalformedInput
        }),
        error matches DecodeError::UncompressedDecode(inner) ==> (match inner {
            DecodeUncompressedError::UnsupportedFeature { .. } => {
                error.spec_category() is UnsupportedFeature
            },
            DecodeUncompressedError::InvalidInput { .. } => error.spec_category() is MalformedInput,
            _ => error.spec_category() is Parse,
        }),
        error matches DecodeError::HeicDecode(inner) ==> {
            &&& error.spec_category() is Parse <==> inner is ParsePrimaryProperties
                || inner is ParsePrimaryTransforms || inner is ExtractPrimaryPayload
            &&& error.spec_category() is DecoderBackend <==> inner is BackendDecodeFailed
            &&& error.spec_category() is UnsupportedFeature
                <==> inner is UnsupportedMatrixCoefficients
        },
        error matches DecodeError::AvifDecode(inner) ==> {
            &&& error.spec_category() is Parse <==> inner is ParsePrimaryProperties
                || inner is ParsePrimaryTransforms || inner is ExtractPrimaryPayload
            &&& error.spec_category() is DecoderBackend <==> inner is DecoderAllocationFailed
                || inner is DecoderApi || inner is DecoderNoFrameOutput
            &&& error.spec_category() is UnsupportedFeature <==> inner is UnsupportedBitDepth
                || inner is UnsupportedPixelLayout || inner is UnsupportedMatrixCoefficients
        },
{
}

/// A source that cannot be read is an I/O error with its own text; one that is
/// too long is a limit, with what was attempted and what is allowed; one whose
/// directory fails is a limit too, with the directory and the reason; a range
/// that it does not have is not supported.
pub proof fn lemma_failures_to_read(err: SourceReadError)
    ensures
        match err {
            SourceReadError::Io(text) => read_failure(err) matches DecodeError::Io(said) && said
                == text,
            SourceReadError::SpoolLimitExceeded { attempted, max_allowed } => read_failure(
                err,
            ) matches DecodeError::Guardrail(
                DecodeGuardrailError::TempSpoolLimitExceeded {
                    attempted_bytes,
                    max_temp_spool_bytes,
                },
            ) && attempted_bytes == attempted && max_temp_spool_bytes == max_allowed,
            SourceReadError::SpoolDirectoryCreateFailed { directory, io_error_kind } => {
                read_failure(err) matches DecodeError::Guardrail(
                    DecodeGuardrailError::TempSpoolDirectoryCreateFailed {
                        directory: said,
                        io_error_kind: kind,
                    },
                ) && said == directory && kind == io_error_kind
            },
            SourceReadError::SpoolDirectoryOpenFailed { directory, io_error_kind } => {
                read_failure(err) matches DecodeError::Guardrail(
                    DecodeGuardrailError::TempSpoolDirectoryOpenFailed {
                        directory: said,
                        io_error_kind: kind,
                    },
                ) && said == directory && kind == io_error_kind
            },
            SourceReadError::BadRange(text) => read_failure(err) matches DecodeError::Unsupported(
                Wording::Text(said),
            ) && said == text,
        },
{
}

/// Luma and chroma have one bit depth, of at most sixteen bits.
pub proof fn lemma_depths_accepted(luma: u8, chroma: u8)
    ensures
        depth_error(luma, chroma) is None <==> luma == chroma && 1 <= luma <= 16,
{
}

/// The planes of an image are accepted where luma has a sample for every pixel,
/// and each chroma plane one for every one or two columns and rows, the last of
/// which may be alone.
pub proof fn lemma_planes_accepted(image: HeicView, chroma: (int, int))
    requires
        image.width * image.height <= usize::MAX,
        chroma.0 * chroma.1 <= usize::MAX,
        match image.layout {
            HeicPixelLayout::Yuv400 => true,
            HeicPixelLayout::Yuv420 => image.width <= 2 * chroma.0 <= image.width + 1
                && image.height <= 2 * chroma.1 <= image.height + 1,
            HeicPixelLayout::Yuv422 => image.width <= 2 * chroma.0 <= image.width + 1 && chroma.1
                == image.height,
            HeicPixelLayout::Yuv444 => chroma.0 == image.width && chroma.1 == image.height,
        },
    ensures
        luma_error(image) is None <==> image.y_plane.width == image.width && image.y_plane.height
            == image.height && image.y_plane.samples.len() == image.width * image.height,
        image.layout is Yuv400 ==> chroma_error(image) is None,
        !(image.layout is Yuv400) ==> (chroma_error(image) is None <==> image.u_plane is Some
            && image.v_plane is Some && image.u_plane->0.width == chroma.0
            && image.u_plane->0.height == chroma.1 && image.u_plane->0.samples.len() == chroma.0
            * chroma.1 && image.v_plane->0.width == chroma.0 && image.v_plane->0.height == chroma.1
            && image.v_plane->0.samples.len() == chroma.0 * chroma.1),
{
    let (w, h) = (image.width as int, image.height as int);
    assert(chroma_size(w, 2) == (w + 1) / 2 && chroma_size(h, 2) == (h + 1) / 2);
    assert(chroma_size(w, 1) == w && chroma_size(h, 1) == h);
    if !(image.layout is Yuv400) {
        assert(chroma_dimensions(image.width, image.height, image.layout) == chroma);
    }
}

/// An opacity plane is accepted where it has the size of the image, one sample
/// for every pixel, and a bit depth of at most sixteen bits.
pub proof fn lemma_opacity_accepted(
    plane: &HeicAuxiliaryAlphaPlane,
    width: u32,
    height: u32,
    image: DecodedAvifImage,
)
    requires
        width * height <= usize::MAX,
    ensures
        alpha_error(plane, width, height) is None <==> plane.width == width && plane.height
            == height && 1 <= plane.bit_depth <= 16 && plane.samples@.len() == width * height,
        avif_alpha_error(image) is None <==> (image.alpha_plane is Some ==> {
            let own = image.alpha_plane->0;
            &&& own.width == image.width
            &&& own.height == image.height
            &&& 1 <= own.bit_depth <= 16
            &&& (match own.samples {
                AvifPlaneSamples::U8(samples) => samples@.len() == image.width * image.height,
                AvifPlaneSamples::U16(samples) => samples@.len() == image.width * image.height,
            })
        }),
{
}

/// The planes of an AVIF image are accepted where each has its size and as many
/// samples, stored in the width that is asked for.
pub proof fn lemma_avif_planes_accepted(image: DecodedAvifImage, wide: bool)
    requires
        image.width * image.height <= usize::MAX,
        ({
            let (across, down) = avif_chroma_size(image.width, image.height, image.layout);
            across * down <= usize::MAX
        }),
    ensures
        avif_luma_error(image, wide) is None <==> image.y_plane.width == image.width
            && image.y_plane.height == image.height && (image.y_plane.samples is U16 <==> wide)
            && image.y_plane.samples.values().len() == image.width * image.height,
        image.layout is Yuv400 ==> avif_chroma_error(image, wide) is None,
        !(image.layout is Yuv400) ==> ({
            let (across, down) = avif_chroma_size(image.width, image.height, image.layout);
            avif_chroma_error(image, wide) is None <==> image.u_plane is Some && image.v_plane is Some
                && image.u_plane->0.width == across && image.u_plane->0.height == down && (
            image.u_plane->0.samples is U16 <==> wide) && image.u_plane->0.samples.values().len()
                == across * down && image.v_plane->0.width == across && image.v_plane->0.height
                == down && (image.v_plane->0.samples is U16 <==> wide)
                && image.v_plane->0.samples.values().len() == across * down
        }),
{
}

/// A refusal of an image says what was announced as expected, and what was
/// decoded as the actual.
pub proof fn lemma_expected_and_actual(
    image: HeicView,
    metadata: DecodedHeicImageMetadata,
    reference: HeicGridTileReference,
    tile_index: int,
    properties: &AvifPrimaryItemPreflightProperties,
    decoded: DecodedAvifImage,
)
    ensures
        metadata_error(image, metadata) matches Some(
            DecodeHeicError::DecodedGeometryMismatch {
                expected_width,
                expected_height,
                actual_width,
                actual_height,
            },
        ) ==> expected_width == metadata.width && expected_height == metadata.height && actual_width
            == image.width && actual_height == image.height,
        metadata_error(image, metadata) matches Some(
            DecodeHeicError::DecodedLayoutMismatch { expected, actual },
        ) ==> expected == metadata.layout && actual == image.layout,
        metadata_error(image, metadata) matches Some(
            DecodeHeicError::DecodedBitDepthMismatch {
                expected_luma,
                expected_chroma,
                actual_luma,
                actual_chroma,
            },
        ) ==> expected_luma == metadata.bit_depth_luma && expected_chroma
            == metadata.bit_depth_chroma && actual_luma == image.bit_depth_luma && actual_chroma
            == image.bit_depth_chroma,
        mismatch_error(image, reference, tile_index) matches Some(
            DecodeHeicError::DecodedLayoutMismatch { expected, actual },
        ) ==> expected == reference.layout && actual == image.layout,
        mismatch_error(image, reference, tile_index) matches Some(
            DecodeHeicError::DecodedBitDepthMismatch {
                expected_luma,
                expected_chroma,
                actual_luma,
                actual_chroma,
            },
        ) ==> expected_luma == reference.bit_depth_luma && expected_chroma
            == reference.bit_depth_chroma && actual_luma == image.bit_depth_luma && actual_chroma
            == image.bit_depth_chroma,
        geometry_error(properties, decoded) matches Some(e) ==> (e matches
            DecodeAvifError::DecodedGeometryMismatch {
            expected_width,
            expected_height,
            actual_width,
            actual_height,
        } && expected_width == properties.ispe_width && expected_height == properties.ispe_height
            && actual_width == decoded.width && actual_height == decoded.height),
{
}

/// A refusal of a plane says the size and the number of samples that the image
/// asks for as expected, and those of the plane as the actual.
pub proof fn lemma_expected_plane(
    plane: AvifPlane,
    width: u32,
    height: u32,
    actual: usize,
    expected: usize,
    name: &'static str,
)
    ensures
        size_error(plane, width as int, height as int, name) is None <==> plane.width == width
            && plane.height == height,
        size_error(plane, width as int, height as int, name) matches Some(e) ==> (e matches
            DecodeAvifError::PlaneDimensionsMismatch {
            plane: said,
            expected_width,
            expected_height,
            actual_width,
            actual_height,
        } && said == name && expected_width == width && expected_height == height && actual_width
            == plane.width && actual_height == plane.height),
        len_error(actual as int, expected as int, name) is None <==> actual == expected,
        len_error(actual as int, expected as int, name) matches Some(e) ==> (e matches
            DecodeAvifError::PlaneSampleCountMismatch {
            plane: said,
            expected: wanted,
            actual: found,
        } && said == name && wanted == expected && found == actual),
{
}

/// An item is decoded only with its own properties; a grid only with as many
/// tiles as it has places; and a buffer must have the width of the samples that
/// are stored.
pub proof fn lemma_said_in_order(
    properties_id: u32,
    payload_id: u32,
    descriptor: HeicGridDescriptor,
    tiles: int,
    stored: u8,
    asked: u8,
)
    ensures
        item_mismatch(properties_id, payload_id) is None <==> properties_id == payload_id,
        tile_count_error(descriptor, tiles) is None <==> tiles == descriptor.columns
            * descriptor.rows,
        storage_mismatch(stored, asked) matches DecodeError::Unsupported(
            Wording::Template(Detail::Two(_, Arg::Num(first), Arg::Num(second))),
        ) && first == stored && second == asked,
        grid_storage_mismatch(stored, asked) matches DecodeError::Unsupported(
            Wording::Template(Detail::Two(_, Arg::Num(first), Arg::Num(second))),
        ) && first == stored && second == asked,
{
    assert(descriptor.rows * descriptor.columns == descriptor.columns * descriptor.rows)
        by (nonlinear_arith);
}

/// An image has a sample for each channel of each pixel, where so many can be
/// counted.
pub proof fn lemma_samples_counted(width: u32, height: u32, channels: u64)
    ensures
        sample_count(width, height, channels) is Ok <==> width * height * channels <= usize::MAX,
        sample_count(width, height, channels) matches Ok(count) ==> count == width * height
            * channels,
{
}

/// A buffer takes an image exactly where it has four samples for each pixel
/// that the transforms leave.
pub proof fn lemma_buffer_accepted(
    transforms: Seq<PrimaryItemTransformProperty>,
    size: (u32, u32),
    left: (u32, u32),
    actual: usize,
    stage: &'static str,
)
    requires
        0 < size.0,
        0 < size.1,
        transformed_size(transforms, size.0, size.1, transforms.len()) == Ok::<
            (u32, u32),
            TransformGuardError,
        >(left),
        left.0 * left.1 * 4 <= usize::MAX,
    ensures
        output_error(transforms, size.0, size.1, actual as int, stage) is None <==> actual == left.0
            * left.1 * 4,
        output_error(transforms, size.0, size.1, actual as int, stage) matches Some(e) ==> (e matches
            TransformGuardError::RgbaSampleCountMismatch {
            actual: found,
            expected,
            width,
            height,
            ..
        } && found == actual && expected == left.0 * left.1 * 4 && width == left.0 && height
            == left.1),
{
}

/// A frame header is accepted with the sampling types 0 to 2 and the interleave
/// types 0 to 5, in whole big-endian components, with a pixel size only where
/// pixels follow each other, and with a component at least.
pub proof fn lemma_header_accepted(layout: ComponentLayout, config: UncompressedFrameConfig)
    ensures
        header_error(layout, config) is None <==> {
            &&& layout.sampling_type <= 2
            &&& layout.interleave_type <= 5
            &&& config.block_size == 0
            &&& !config.components_little_endian
            &&& !config.block_pad_lsb
            &&& !config.block_little_endian
            &&& !config.block_reversed
            &&& !config.pad_unknown
            &&& config.pixel_size == 0 || layout.interleave_type == 1 || layout.interleave_type
                == 5
            &&& layout.specs.len() > 0
        },
{
}

} // verus!
