//! Decoding the primary item of a file, once its data are at hand.
use crate::avif::{decode_primary_avif_to_image, AvifPrimaryItemPreflightProperties};
#[allow(unused_imports)]
use crate::avif::{primary_image, stream_decoded};
use crate::errors::{DecodeAvifError, DecodeError, DecodeHeicError, Wording};
use crate::family::HeifInputFamily;
use crate::grid::image::{
    decode_primary_heic_grid_to_rgb8_image, decode_primary_heic_grid_to_rgba16_native_endian_bytes,
    decode_primary_heic_grid_to_rgba8_slice, decode_primary_heic_grid_to_rgba_image, HeicGrid,
};
#[allow(unused_imports)]
use crate::grid::image::{
    grid_buffer_decoded, grid_opening, grid_view, rgb_grid_decoded, rgba_grid_decoded,
};
#[allow(unused_imports)]
use crate::grid::layout::{HeicGridDescriptor, HeicGridTileReference};
use crate::grid::planes::decode_primary_heic_grid_to_image;
#[allow(unused_imports)]
use crate::grid::planes::plane_grid_decoded;
#[allow(unused_imports)]
use crate::grid::tiles::{produced, tile_views, tiles_error, tiles_tried};
use crate::guardrails::DecodeGuardrails;
use crate::hevc::coded::{
    decode_primary_heic_coded_item_to_image, validate_heic_coded_item_preflight,
    HeicPrimaryItemPreflightProperties,
};
#[allow(unused_imports)]
use crate::hevc::coded::{coded_item_decoded, item_mismatch, recoloured, viewed};
use crate::hevc::frame::HeicFrame;
#[allow(unused_imports)]
use crate::hevc::sps::{metadata_outcome, parses, stream_sps};
use crate::hevc::sps::{
    decode_hevc_stream_metadata_from_sps, validate_decoded_heic_geometry_against_ispe, HevcSps,
};
use crate::hevc::stream::assemble_heic_hevc_stream_from_components;
#[allow(unused_imports)]
use crate::hevc::stream::assembled;
#[allow(unused_imports)]
use crate::layout::{announced, metadata_layout};
use crate::layout::HeicPrimaryItemData;
#[allow(unused_imports)]
use crate::output::{machine_order, paired, unpaired, ScaleToRgb8, ScaleToU16, ScaleToU8};
#[allow(unused_imports)]
use crate::rgba::DecodedRgbaLayout;
use crate::rgba::{DecodedRgbImage, DecodedRgbaImage};
use crate::text::Detail;
use crate::transform::mapping::PrimaryItemTransformProperty;
#[allow(unused_imports)]
use crate::transform::mapping::transforms_wf;
use crate::types::{
    AvifAuxiliaryAlphaPlane, DecodedAvifImage, DecodedHeicImage, DecodedHeicImageMetadata,
    HeicAuxiliaryAlphaPlane,
};
#[allow(unused_imports)]
use crate::types::HeicView;
use crate::ycbcr::{
    ycbcr_matrix_override_from_primary_colr, ycbcr_range_override_from_primary_colr,
    PreparedYcbcrToRgb,
};
#[allow(unused_imports)]
use crate::ycbcr::{kernel_ready, settled};
use crate::yuv::avif::{
    decoded_avif_to_rgba16_native_endian_bytes, decoded_avif_to_rgba8_slice,
    decoded_avif_to_rgba_image,
};
#[allow(unused_imports)]
use crate::yuv::avif::{
    avif_buffer_error, avif_image, avif_rgba_error, stored_narrow, stored_wide,
};
#[allow(unused_imports)]
use crate::yuv::heic::heic_image;
use crate::yuv::output::{
    decoded_heic_to_rgba16_native_endian_bytes, decoded_heic_to_rgba8_slice,
};
#[allow(unused_imports)]
use crate::yuv::output::{buffer_error, buffer_shows};
use crate::yuv::rgba::{decoded_heic_to_rgb8_image, decoded_heic_to_rgba_image};
#[allow(unused_imports)]
use crate::yuv::rgba::{
    plane_opacity, rgb_image_error, rgba_image_error, rgba_image_shows, shows_transformed,
};
#[allow(unused_imports)]
use crate::yuv::shown::{lemma_grid_rgb_of_rgba, lemma_rgb_of_rgba, rgb_of_rgba};
use vstd::prelude::*;

verus! {

/// The primary item of a HEIC file.
#[derive(Clone, Debug, PartialEq, Eq)]
pub enum HeicPrimaryItem {
    /// A grid of tiles.
    Grid(HeicGrid),
    /// A coded image.
    Coded(HeicPrimaryItemPreflightProperties, HeicPrimaryItemData),
}

impl HeicPrimaryItem {
    /// The number of tiles.
    pub open spec fn tile_count(&self) -> int {
        match self {
            HeicPrimaryItem::Grid(grid) => grid.tile_count as int,
            HeicPrimaryItem::Coded(..) => 0,
        }
    }
}

/// A plane, where there is one.
pub open spec fn lent(
    alpha: &Option<HeicAuxiliaryAlphaPlane>,
) -> Option<&HeicAuxiliaryAlphaPlane> {
    match alpha {
        Some(plane) => Some(plane),
        None => None,
    }
}

/// A plane, where there is one.
fn lend(alpha: &Option<HeicAuxiliaryAlphaPlane>) -> (plane: Option<&HeicAuxiliaryAlphaPlane>)
    ensures
        plane == lent(alpha),
{
    match alpha {
        Some(plane) => Some(plane),
        None => None,
    }
}

/// Whether an image and its opacity are what decoding the primary item, a
/// coded image, came to within limits.
pub open spec fn coded_with_alpha<
    P: Fn(&[u8]) -> Result<HevcSps, String>,
    B: Fn(&[u8]) -> Result<HeicFrame, String>,
    A: Fn(u32, u32) -> Option<HeicAuxiliaryAlphaPlane>,
>(
    properties: &HeicPrimaryItemPreflightProperties,
    item: &HeicPrimaryItemData,
    guardrails: &DecodeGuardrails,
    parse_sps: P,
    decode_frame: B,
    decode_alpha: A,
    outcome: Result<(HeicView, Option<HeicAuxiliaryAlphaPlane>), DecodeError>,
) -> bool {
    exists|image: Result<HeicView, DecodeHeicError>|
        {
            &&& #[trigger] coded_item_decoded(
                properties,
                item.item_id,
                item.payload@,
                parse_sps,
                decode_frame,
                image,
            )
            &&& match image {
                Err(e) => outcome == Err::<
                    (HeicView, Option<HeicAuxiliaryAlphaPlane>),
                    DecodeError,
                >(DecodeError::HeicDecode(e)),
                Ok(view) => match guardrails.pixel_error(view.width, view.height) {
                    Some(e) => outcome == Err::<
                        (HeicView, Option<HeicAuxiliaryAlphaPlane>),
                        DecodeError,
                    >(e),
                    None => {
                        &&& outcome matches Ok((decoded, alpha))
                        &&& decoded == view
                        &&& decode_alpha.ensures((view.width, view.height), alpha)
                    },
                },
            }
        }
}

/// What an outcome is, with the image by its view.
pub open spec fn viewed_pair(
    outcome: Result<(DecodedHeicImage, Option<HeicAuxiliaryAlphaPlane>), DecodeError>,
) -> Result<(HeicView, Option<HeicAuxiliaryAlphaPlane>), DecodeError> {
    match outcome {
        Ok((image, alpha)) => Ok((image@, alpha)),
        Err(e) => Err(e),
    }
}

/// Decode the primary coded HEIC item, enforce the pixel-count guardrail,
/// and resolve its auxiliary alpha plane.
pub fn decode_primary_heic_coded_item_with_alpha<
    P: Fn(&[u8]) -> Result<HevcSps, String>,
    B: Fn(&[u8]) -> Result<HeicFrame, String>,
    A: Fn(u32, u32) -> Option<HeicAuxiliaryAlphaPlane>,
>(
    properties: &HeicPrimaryItemPreflightProperties,
    item: &HeicPrimaryItemData,
    guardrails: &DecodeGuardrails,
    parse_sps: &P,
    decode_frame: &B,
    decode_alpha: &A,
) -> (result: Result<(DecodedHeicImage, Option<HeicAuxiliaryAlphaPlane>), DecodeError>)
    requires
        forall|unit: &[u8]| #[trigger] parse_sps.requires((unit,)),
        forall|unit: &[u8]| #[trigger] decode_frame.requires((unit,)),
        forall|width: u32, height: u32| #[trigger] decode_alpha.requires((width, height)),
    ensures
        coded_with_alpha(
            properties,
            item,
            guardrails,
            *parse_sps,
            *decode_frame,
            *decode_alpha,
            viewed_pair(result),
        ),
{
    let decoded: Result<DecodedHeicImage, DecodeHeicError> =
        decode_primary_heic_coded_item_to_image(
        properties,
        item.item_id,
        item.payload.as_slice(),
        parse_sps,
        decode_frame,
    );
    assert(coded_item_decoded(
        properties,
        item.item_id,
        item.payload@,
        *parse_sps,
        *decode_frame,
        viewed(decoded),
    ));
    let image: DecodedHeicImage = match decoded {
        Ok(image) => image,
        Err(e) => {
            return Err(DecodeError::HeicDecode(e));
        },
    };
    guardrails.enforce_pixel_count(image.width, image.height)?;
    let alpha: Option<HeicAuxiliaryAlphaPlane> = decode_alpha(image.width, image.height);
    Ok((image, alpha))
}

/// Whether an image is what decoding the primary item came to.
pub open spec fn primary_decoded<
    D: Fn(usize) -> Result<DecodedHeicImage, DecodeHeicError>,
    P: Fn(&[u8]) -> Result<HevcSps, String>,
    B: Fn(&[u8]) -> Result<HeicFrame, String>,
>(
    primary: &HeicPrimaryItem,
    decode_tile: D,
    parse_sps: P,
    decode_frame: B,
    result: Result<HeicView, DecodeHeicError>,
) -> bool {
    match primary {
        HeicPrimaryItem::Grid(grid) => exists|
            tiles: Seq<Result<DecodedHeicImage, DecodeHeicError>>,
            image: Result<DecodedHeicImage, DecodeHeicError>,
        |
            {
                &&& #[trigger] produced(decode_tile, tiles)
                &&& tiles_tried(grid.descriptor, grid.tile_count as int, tiles.len() as int)
                &&& #[trigger] plane_grid_decoded(
                    grid.descriptor,
                    grid.tile_count as int,
                    tiles,
                    image,
                )
                &&& result == (match image {
                    Ok(image) => Ok::<HeicView, DecodeHeicError>(recoloured(image@, &grid.colr)),
                    Err(e) => Err(e),
                })
            },
        HeicPrimaryItem::Coded(properties, item) => coded_item_decoded(
            properties,
            item.item_id,
            item.payload@,
            parse_sps,
            decode_frame,
            result,
        ),
    }
}

/// Decodes the primary item of a HEIC file: tiles by `decode_tile`, or the
/// stream of a coded image by `parse_sps` and `decode_frame`.
pub fn decode_primary_heic_to_image<
    D: Fn(usize) -> Result<DecodedHeicImage, DecodeHeicError>,
    P: Fn(&[u8]) -> Result<HevcSps, String>,
    B: Fn(&[u8]) -> Result<HeicFrame, String>,
>(primary: &HeicPrimaryItem, decode_tile: &D, parse_sps: &P, decode_frame: &B) -> (result: Result<
    DecodedHeicImage,
    DecodeHeicError,
>)
    requires
        forall|k: usize| k < primary.tile_count() ==> #[trigger] decode_tile.requires((k,)),
        forall|unit: &[u8]| #[trigger] parse_sps.requires((unit,)),
        forall|unit: &[u8]| #[trigger] decode_frame.requires((unit,)),
    ensures
        primary_decoded(primary, *decode_tile, *parse_sps, *decode_frame, viewed(result)),
{
    match primary {
        HeicPrimaryItem::Grid(grid) => {
            let canvas: Result<DecodedHeicImage, DecodeHeicError> =
                decode_primary_heic_grid_to_image(&grid.descriptor, grid.tile_count, decode_tile);
            let ghost tiles = choose|tiles: Seq<Result<DecodedHeicImage, DecodeHeicError>>|
                {
                    &&& #[trigger] produced(*decode_tile, tiles)
                    &&& tiles_tried(grid.descriptor, grid.tile_count as int, tiles.len() as int)
                    &&& plane_grid_decoded(
                        grid.descriptor,
                        grid.tile_count as int,
                        tiles,
                        canvas,
                    )
                };
            assert(produced(*decode_tile, tiles) && plane_grid_decoded(
                grid.descriptor,
                grid.tile_count as int,
                tiles,
                canvas,
            ));
            let mut image: DecodedHeicImage = match canvas {
                Ok(image) => image,
                Err(e) => {
                    return Err(e);
                },
            };
            if let Some(range) = ycbcr_range_override_from_primary_colr(&grid.colr) {
                image.ycbcr_range = range;
            }
            if let Some(matrix) = ycbcr_matrix_override_from_primary_colr(&grid.colr) {
                image.ycbcr_matrix = matrix;
            }
            Ok(image)
        },
        HeicPrimaryItem::Coded(properties, item) => decode_primary_heic_coded_item_to_image(
            properties,
            item.item_id,
            item.payload.as_slice(),
            parse_sps,
            decode_frame,
        ),
    }
}

/// The metadata of an image.
pub open spec fn metadata_of(image: HeicView) -> DecodedHeicImageMetadata {
    DecodedHeicImageMetadata {
        width: image.width,
        height: image.height,
        bit_depth_luma: image.bit_depth_luma,
        bit_depth_chroma: image.bit_depth_chroma,
        layout: image.layout,
    }
}

/// The metadata of an image.
pub fn decoded_heic_image_to_metadata(decoded: &DecodedHeicImage) -> (metadata:
    DecodedHeicImageMetadata)
    ensures
        metadata == metadata_of(decoded@),
{
    DecodedHeicImageMetadata {
        width: decoded.width,
        height: decoded.height,
        bit_depth_luma: decoded.bit_depth_luma,
        bit_depth_chroma: decoded.bit_depth_chroma,
        layout: decoded.layout,
    }
}

/// Assemble primary HEIC coded data as a decoder-ready HEVC stream.
pub fn assemble_primary_heic_hevc_stream(
    properties: &HeicPrimaryItemPreflightProperties,
    item: &HeicPrimaryItemData,
) -> (result: Result<Vec<u8>, DecodeHeicError>)
    ensures
        match assembled(&properties.hvcc, item.payload@) {
            Err(e) => result == Err::<Vec<u8>, DecodeHeicError>(e),
            Ok(stream) => result is Ok && result->Ok_0@ == stream,
        },
{
    assemble_heic_hevc_stream_from_components(&properties.hvcc, item.payload.as_slice())
}

/// The metadata of a coded image, given what parsing its parameter set came
/// to.
pub open spec fn coded_metadata(
    properties: &HeicPrimaryItemPreflightProperties,
    metadata: Result<DecodedHeicImageMetadata, DecodeHeicError>,
) -> Result<DecodedHeicImageMetadata, DecodeHeicError> {
    match metadata {
        Err(e) => Err(e),
        Ok(metadata) => if announced(properties, metadata) {
            Ok(metadata)
        } else {
            Err(
                DecodeHeicError::DecodedGeometryMismatch {
                    expected_width: properties.ispe_width,
                    expected_height: properties.ispe_height,
                    actual_width: metadata.width,
                    actual_height: metadata.height,
                },
            )
        },
    }
}

/// Whether metadata are those of the primary item: of the decoded grid, or of
/// the parameter set in the stream of a coded image.
pub open spec fn primary_metadata<
    D: Fn(usize) -> Result<DecodedHeicImage, DecodeHeicError>,
    P: Fn(&[u8]) -> Result<HevcSps, String>,
>(
    primary: &HeicPrimaryItem,
    decode_tile: D,
    parse_sps: P,
    result: Result<DecodedHeicImageMetadata, DecodeHeicError>,
) -> bool {
    match primary {
        HeicPrimaryItem::Grid(grid) => exists|
            tiles: Seq<Result<DecodedHeicImage, DecodeHeicError>>,
            image: Result<DecodedHeicImage, DecodeHeicError>,
        |
            {
                &&& #[trigger] produced(decode_tile, tiles)
                &&& tiles_tried(grid.descriptor, grid.tile_count as int, tiles.len() as int)
                &&& #[trigger] plane_grid_decoded(
                    grid.descriptor,
                    grid.tile_count as int,
                    tiles,
                    image,
                )
                &&& result == (match image {
                    Ok(image) => Ok::<DecodedHeicImageMetadata, DecodeHeicError>(
                        metadata_of(image@),
                    ),
                    Err(e) => Err(e),
                })
            },
        HeicPrimaryItem::Coded(properties, item) => match item_mismatch(
            properties.item_id,
            item.item_id,
        ) {
            Some(e) => result == Err::<DecodedHeicImageMetadata, DecodeHeicError>(e),
            None => match assembled(&properties.hvcc, item.payload@) {
                Err(e) => result == Err::<DecodedHeicImageMetadata, DecodeHeicError>(e),
                Ok(stream) => match stream_sps(stream) {
                    Err(e) => result == Err::<DecodedHeicImageMetadata, DecodeHeicError>(e),
                    Ok(unit) => exists|parsed: Result<HevcSps, String>| #[trigger]
                        parses(parse_sps, unit.bytes, parsed) && result == coded_metadata(
                            properties,
                            metadata_outcome(parsed, unit.offset),
                        ),
                },
            },
        },
    }
}

/// The metadata of the primary item of a HEIC file.
pub fn decode_primary_heic_to_metadata<
    D: Fn(usize) -> Result<DecodedHeicImage, DecodeHeicError>,
    P: Fn(&[u8]) -> Result<HevcSps, String>,
>(primary: &HeicPrimaryItem, decode_tile: &D, parse_sps: &P) -> (result: Result<
    DecodedHeicImageMetadata,
    DecodeHeicError,
>)
    requires
        forall|k: usize| k < primary.tile_count() ==> #[trigger] decode_tile.requires((k,)),
        forall|unit: &[u8]| #[trigger] parse_sps.requires((unit,)),
    ensures
        primary_metadata(primary, *decode_tile, *parse_sps, result),
{
    match primary {
        HeicPrimaryItem::Grid(grid) => {
            let canvas: Result<DecodedHeicImage, DecodeHeicError> =
                decode_primary_heic_grid_to_image(&grid.descriptor, grid.tile_count, decode_tile);
            proof {
                let tiles = choose|tiles: Seq<Result<DecodedHeicImage, DecodeHeicError>>|
                    {
                        &&& #[trigger] produced(*decode_tile, tiles)
                        &&& tiles_tried(grid.descriptor, grid.tile_count as int, tiles.len() as int)
                        &&& plane_grid_decoded(
                            grid.descriptor,
                            grid.tile_count as int,
                            tiles,
                            canvas,
                        )
                    };
                assert(produced(*decode_tile, tiles) && plane_grid_decoded(
                    grid.descriptor,
                    grid.tile_count as int,
                    tiles,
                    canvas,
                ));
            }
            match canvas {
                Ok(image) => Ok(decoded_heic_image_to_metadata(&image)),
                Err(e) => Err(e),
            }
        },
        HeicPrimaryItem::Coded(properties, item) => {
            validate_heic_coded_item_preflight(properties, item.item_id)?;
            let stream: Vec<u8> = assemble_primary_heic_hevc_stream(properties, item)?;
            let metadata: DecodedHeicImageMetadata = decode_hevc_stream_metadata_from_sps(
                stream.as_slice(),
                parse_sps,
            )?;
            validate_decoded_heic_geometry_against_ispe(
                &metadata,
                properties.ispe_width,
                properties.ispe_height,
            )?;
            Ok(metadata)
        },
    }
}

/// Whether a result is the RGBA image of the primary item.
pub open spec fn rgba_decoded<
    D: Fn(usize) -> Result<DecodedHeicImage, DecodeHeicError>,
    P: Fn(&[u8]) -> Result<HevcSps, String>,
    B: Fn(&[u8]) -> Result<HeicFrame, String>,
    A: Fn(u32, u32) -> Option<HeicAuxiliaryAlphaPlane>,
    F: Fn(PreparedYcbcrToRgb, i32, i32, i32) -> (u16, u16, u16),
>(
    primary: &HeicPrimaryItem,
    guardrails: &DecodeGuardrails,
    transforms: Seq<PrimaryItemTransformProperty>,
    decode_tile: D,
    parse_sps: P,
    decode_frame: B,
    decode_alpha: A,
    float_kernel: F,
    icc_profile: Option<Vec<u8>>,
    result: Result<DecodedRgbaImage, DecodeError>,
) -> bool {
    match primary {
        HeicPrimaryItem::Grid(grid) => match guardrails.pixel_error(
            grid.descriptor.output_width,
            grid.descriptor.output_height,
        ) {
            Some(e) => result == Err::<DecodedRgbaImage, DecodeError>(e),
            None => exists|
                alpha: Option<HeicAuxiliaryAlphaPlane>,
                tiles: Seq<Result<DecodedHeicImage, DecodeHeicError>>,
            |
                {
                    &&& #[trigger] decode_alpha.ensures(
                        (grid.descriptor.output_width, grid.descriptor.output_height),
                        alpha,
                    )
                    &&& #[trigger] produced(decode_tile, tiles)
                    &&& tiles_tried(grid.descriptor, grid.tile_count as int, tiles.len() as int)
                    &&& rgba_grid_decoded(
                        *grid,
                        tiles,
                        transforms,
                        lent(&alpha),
                        icc_profile,
                        float_kernel,
                        result,
                    )
                },
        },
        HeicPrimaryItem::Coded(properties, item) => exists|
            outcome: Result<(HeicView, Option<HeicAuxiliaryAlphaPlane>), DecodeError>,
        |
            {
                &&& #[trigger] coded_with_alpha(
                    properties,
                    item,
                    guardrails,
                    parse_sps,
                    decode_frame,
                    decode_alpha,
                    outcome,
                )
                &&& match outcome {
                    Err(e) => result == Err::<DecodedRgbaImage, DecodeError>(e),
                    Ok((view, alpha)) => match rgba_image_error(view, transforms, lent(&alpha)) {
                        Some(e) => result == Err::<DecodedRgbaImage, DecodeError>(e),
                        None => result is Ok && rgba_image_shows(
                            heic_image(view, plane_opacity(lent(&alpha))),
                            transforms,
                            float_kernel,
                            view.bit_depth_luma,
                            icc_profile,
                            result->Ok_0,
                        ),
                    },
                }
            },
    }
}

/// Decodes the primary item of a HEIC file into an RGBA image.
pub fn decode_primary_heic_to_rgba<
    D: Fn(usize) -> Result<DecodedHeicImage, DecodeHeicError>,
    P: Fn(&[u8]) -> Result<HevcSps, String>,
    B: Fn(&[u8]) -> Result<HeicFrame, String>,
    A: Fn(u32, u32) -> Option<HeicAuxiliaryAlphaPlane>,
    F: Fn(PreparedYcbcrToRgb, i32, i32, i32) -> (u16, u16, u16),
>(
    primary: &HeicPrimaryItem,
    guardrails: &DecodeGuardrails,
    transforms: &[PrimaryItemTransformProperty],
    icc_profile: Option<Vec<u8>>,
    decode_tile: &D,
    parse_sps: &P,
    decode_frame: &B,
    decode_alpha: &A,
    float_kernel: &F,
) -> (result: Result<DecodedRgbaImage, DecodeError>)
    requires
        transforms_wf(transforms@),
        kernel_ready(*float_kernel),
        forall|k: usize| k < primary.tile_count() ==> #[trigger] decode_tile.requires((k,)),
        forall|unit: &[u8]| #[trigger] parse_sps.requires((unit,)),
        forall|unit: &[u8]| #[trigger] decode_frame.requires((unit,)),
        forall|width: u32, height: u32| #[trigger] decode_alpha.requires((width, height)),
    ensures
        rgba_decoded(
            primary,
            guardrails,
            transforms@,
            *decode_tile,
            *parse_sps,
            *decode_frame,
            *decode_alpha,
            *float_kernel,
            icc_profile,
            result,
        ),
{
    match primary {
        HeicPrimaryItem::Grid(grid) => {
            guardrails.enforce_pixel_count(
                grid.descriptor.output_width,
                grid.descriptor.output_height,
            )?;
            let alpha: Option<HeicAuxiliaryAlphaPlane> = decode_alpha(
                grid.descriptor.output_width,
                grid.descriptor.output_height,
            );
            assert(decode_alpha.ensures(
                (grid.descriptor.output_width, grid.descriptor.output_height),
                alpha,
            ));
            decode_primary_heic_grid_to_rgba_image(
                grid,
                transforms,
                lend(&alpha),
                icc_profile,
                decode_tile,
                float_kernel,
            )
        },
        HeicPrimaryItem::Coded(properties, item) => {
            let outcome: Result<(DecodedHeicImage, Option<HeicAuxiliaryAlphaPlane>), DecodeError> =
                decode_primary_heic_coded_item_with_alpha(
                properties,
                item,
                guardrails,
                parse_sps,
                decode_frame,
                decode_alpha,
            );
            assert(coded_with_alpha(
                properties,
                item,
                guardrails,
                *parse_sps,
                *decode_frame,
                *decode_alpha,
                viewed_pair(outcome),
            ));
            let (decoded, alpha): (DecodedHeicImage, Option<HeicAuxiliaryAlphaPlane>) = match outcome {
                Ok(pair) => pair,
                Err(e) => {
                    return Err(e);
                },
            };
            decoded_heic_to_rgba_image(
                decoded,
                transforms,
                lend(&alpha),
                icc_profile,
                float_kernel,
            )
        },
    }
}

/// Whether a result is the RGB image of the primary item.
pub open spec fn rgb8_decoded<
    D: Fn(usize) -> Result<DecodedHeicImage, DecodeHeicError>,
    P: Fn(&[u8]) -> Result<HevcSps, String>,
    B: Fn(&[u8]) -> Result<HeicFrame, String>,
    F: Fn(PreparedYcbcrToRgb, i32, i32, i32) -> (u16, u16, u16),
>(
    primary: &HeicPrimaryItem,
    guardrails: &DecodeGuardrails,
    transforms: Seq<PrimaryItemTransformProperty>,
    decode_tile: D,
    parse_sps: P,
    decode_frame: B,
    float_kernel: F,
    icc_profile: Option<Vec<u8>>,
    result: Result<DecodedRgbImage, DecodeError>,
) -> bool {
    match primary {
        HeicPrimaryItem::Grid(grid) => match guardrails.pixel_error(
            grid.descriptor.output_width,
            grid.descriptor.output_height,
        ) {
            Some(e) => result == Err::<DecodedRgbImage, DecodeError>(e),
            None => exists|tiles: Seq<Result<DecodedHeicImage, DecodeHeicError>>|
                {
                    &&& #[trigger] produced(decode_tile, tiles)
                    &&& tiles_tried(grid.descriptor, grid.tile_count as int, tiles.len() as int)
                    &&& rgb_grid_decoded(
                        *grid,
                        tiles,
                        transforms,
                        icc_profile,
                        float_kernel,
                        result,
                    )
                },
        },
        HeicPrimaryItem::Coded(properties, item) => exists|
            image: Result<HeicView, DecodeHeicError>,
        |
            {
                &&& #[trigger] coded_item_decoded(
                    properties,
                    item.item_id,
                    item.payload@,
                    parse_sps,
                    decode_frame,
                    image,
                )
                &&& match image {
                    Err(e) => result == Err::<DecodedRgbImage, DecodeError>(
                        DecodeError::HeicDecode(e),
                    ),
                    Ok(view) => match guardrails.pixel_error(view.width, view.height) {
                        Some(e) => result == Err::<DecodedRgbImage, DecodeError>(e),
                        None => match rgb_image_error(view, transforms) {
                            Some(e) => result == Err::<DecodedRgbImage, DecodeError>(e),
                            None => {
                                &&& result matches Ok(shown)
                                &&& shown.source_bit_depth == view.bit_depth_luma
                                &&& shown.icc_profile == icc_profile
                                &&& shows_transformed::<u8, ScaleToRgb8, F>(
                                    heic_image(view, None),
                                    transforms,
                                    float_kernel,
                                    3,
                                    (shown.width, shown.height, shown.pixels@),
                                )
                            },
                        },
                    },
                }
            },
    }
}

/// Decodes the primary item of a HEIC file into an RGB image.
pub fn decode_primary_heic_to_rgb8<
    D: Fn(usize) -> Result<DecodedHeicImage, DecodeHeicError>,
    P: Fn(&[u8]) -> Result<HevcSps, String>,
    B: Fn(&[u8]) -> Result<HeicFrame, String>,
    F: Fn(PreparedYcbcrToRgb, i32, i32, i32) -> (u16, u16, u16),
>(
    primary: &HeicPrimaryItem,
    guardrails: &DecodeGuardrails,
    transforms: &[PrimaryItemTransformProperty],
    icc_profile: Option<Vec<u8>>,
    decode_tile: &D,
    parse_sps: &P,
    decode_frame: &B,
    float_kernel: &F,
) -> (result: Result<DecodedRgbImage, DecodeError>)
    requires
        transforms_wf(transforms@),
        kernel_ready(*float_kernel),
        forall|k: usize| k < primary.tile_count() ==> #[trigger] decode_tile.requires((k,)),
        forall|unit: &[u8]| #[trigger] parse_sps.requires((unit,)),
        forall|unit: &[u8]| #[trigger] decode_frame.requires((unit,)),
    ensures
        rgb8_decoded(
            primary,
            guardrails,
            transforms@,
            *decode_tile,
            *parse_sps,
            *decode_frame,
            *float_kernel,
            icc_profile,
            result,
        ),
{
    match primary {
        HeicPrimaryItem::Grid(grid) => {
            guardrails.enforce_pixel_count(
                grid.descriptor.output_width,
                grid.descriptor.output_height,
            )?;
            decode_primary_heic_grid_to_rgb8_image(
                grid,
                transforms,
                icc_profile,
                decode_tile,
                float_kernel,
            )
        },
        HeicPrimaryItem::Coded(properties, item) => {
            let decoded: Result<DecodedHeicImage, DecodeHeicError> =
                decode_primary_heic_coded_item_to_image(
                properties,
                item.item_id,
                item.payload.as_slice(),
                parse_sps,
                decode_frame,
            );
            assert(coded_item_decoded(
                properties,
                item.item_id,
                item.payload@,
                *parse_sps,
                *decode_frame,
                viewed(decoded),
            ));
            let image: DecodedHeicImage = match decoded {
                Ok(image) => image,
                Err(e) => {
                    return Err(DecodeError::HeicDecode(e));
                },
            };
            guardrails.enforce_pixel_count(image.width, image.height)?;
            decoded_heic_to_rgb8_image(image, transforms, icc_profile, float_kernel)
        },
    }
}

/// Whether a buffer holds the eight-bit RGBA samples of the primary item.
pub open spec fn rgba8_decoded<
    D: Fn(usize) -> Result<DecodedHeicImage, DecodeHeicError>,
    P: Fn(&[u8]) -> Result<HevcSps, String>,
    B: Fn(&[u8]) -> Result<HeicFrame, String>,
    A: Fn(u32, u32) -> Option<HeicAuxiliaryAlphaPlane>,
    F: Fn(PreparedYcbcrToRgb, i32, i32, i32) -> (u16, u16, u16),
>(
    primary: &HeicPrimaryItem,
    guardrails: &DecodeGuardrails,
    transforms: Seq<PrimaryItemTransformProperty>,
    decode_tile: D,
    parse_sps: P,
    decode_frame: B,
    decode_alpha: A,
    float_kernel: F,
    before: Seq<u8>,
    after: Seq<u8>,
    result: Result<(), DecodeError>,
) -> bool {
    match primary {
        HeicPrimaryItem::Grid(grid) => match guardrails.pixel_error(
            grid.descriptor.output_width,
            grid.descriptor.output_height,
        ) {
            Some(e) => result == Err::<(), DecodeError>(e) && after == before,
            None => exists|
                alpha: Option<HeicAuxiliaryAlphaPlane>,
                tiles: Seq<Result<DecodedHeicImage, DecodeHeicError>>,
            |
                {
                    &&& #[trigger] decode_alpha.ensures(
                        (grid.descriptor.output_width, grid.descriptor.output_height),
                        alpha,
                    )
                    &&& #[trigger] produced(decode_tile, tiles)
                    &&& tiles_tried(grid.descriptor, grid.tile_count as int, tiles.len() as int)
                    &&& grid_buffer_decoded::<u8, ScaleToU8, F>(
                        *grid,
                        tiles,
                        transforms,
                        lent(&alpha),
                        8,
                        before,
                        "HEIC grid RGBA8 image adapter output",
                        float_kernel,
                        result,
                        after,
                    )
                },
        },
        HeicPrimaryItem::Coded(properties, item) => exists|
            outcome: Result<(HeicView, Option<HeicAuxiliaryAlphaPlane>), DecodeError>,
        |
            {
                &&& #[trigger] coded_with_alpha(
                    properties,
                    item,
                    guardrails,
                    parse_sps,
                    decode_frame,
                    decode_alpha,
                    outcome,
                )
                &&& match outcome {
                    Err(e) => result == Err::<(), DecodeError>(e) && after == before,
                    Ok((view, alpha)) => match buffer_error(
                        view,
                        transforms,
                        lent(&alpha),
                        8,
                        before.len() as int,
                    ) {
                        Some(e) => result == Err::<(), DecodeError>(e) && after == before,
                        None => result is Ok && buffer_shows::<u8, ScaleToU8, F>(
                            heic_image(view, plane_opacity(lent(&alpha))),
                            transforms,
                            float_kernel,
                            after,
                        ),
                    },
                }
            },
    }
}

/// Decodes the primary item of a HEIC file into a buffer of eight-bit samples.
pub fn decode_primary_heic_to_rgba8_slice<
    D: Fn(usize) -> Result<DecodedHeicImage, DecodeHeicError>,
    P: Fn(&[u8]) -> Result<HevcSps, String>,
    B: Fn(&[u8]) -> Result<HeicFrame, String>,
    A: Fn(u32, u32) -> Option<HeicAuxiliaryAlphaPlane>,
    F: Fn(PreparedYcbcrToRgb, i32, i32, i32) -> (u16, u16, u16),
>(
    primary: &HeicPrimaryItem,
    guardrails: &DecodeGuardrails,
    transforms: &[PrimaryItemTransformProperty],
    out: &mut [u8],
    decode_tile: &D,
    parse_sps: &P,
    decode_frame: &B,
    decode_alpha: &A,
    float_kernel: &F,
) -> (result: Result<(), DecodeError>)
    requires
        transforms_wf(transforms@),
        kernel_ready(*float_kernel),
        forall|k: usize| k < primary.tile_count() ==> #[trigger] decode_tile.requires((k,)),
        forall|unit: &[u8]| #[trigger] parse_sps.requires((unit,)),
        forall|unit: &[u8]| #[trigger] decode_frame.requires((unit,)),
        forall|width: u32, height: u32| #[trigger] decode_alpha.requires((width, height)),
    ensures
        final(out)@.len() == old(out)@.len(),
        rgba8_decoded(
            primary,
            guardrails,
            transforms@,
            *decode_tile,
            *parse_sps,
            *decode_frame,
            *decode_alpha,
            *float_kernel,
            old(out)@,
            final(out)@,
            result,
        ),
{
    match primary {
        HeicPrimaryItem::Grid(grid) => {
            guardrails.enforce_pixel_count(
                grid.descriptor.output_width,
                grid.descriptor.output_height,
            )?;
            let alpha: Option<HeicAuxiliaryAlphaPlane> = decode_alpha(
                grid.descriptor.output_width,
                grid.descriptor.output_height,
            );
            assert(decode_alpha.ensures(
                (grid.descriptor.output_width, grid.descriptor.output_height),
                alpha,
            ));
            decode_primary_heic_grid_to_rgba8_slice(
                grid,
                transforms,
                lend(&alpha),
                out,
                decode_tile,
                float_kernel,
            )
        },
        HeicPrimaryItem::Coded(properties, item) => {
            let outcome: Result<(DecodedHeicImage, Option<HeicAuxiliaryAlphaPlane>), DecodeError> =
                decode_primary_heic_coded_item_with_alpha(
                properties,
                item,
                guardrails,
                parse_sps,
                decode_frame,
                decode_alpha,
            );
            assert(coded_with_alpha(
                properties,
                item,
                guardrails,
                *parse_sps,
                *decode_frame,
                *decode_alpha,
                viewed_pair(outcome),
            ));
            let (decoded, alpha): (DecodedHeicImage, Option<HeicAuxiliaryAlphaPlane>) = match outcome {
                Ok(pair) => pair,
                Err(e) => {
                    return Err(e);
                },
            };
            decoded_heic_to_rgba8_slice(
                &decoded,
                transforms,
                lend(&alpha),
                out,
                float_kernel,
            )
        },
    }
}

/// Whether sixteen-bit RGBA samples are those of the primary item.
pub open spec fn rgba16_decoded<
    D: Fn(usize) -> Result<DecodedHeicImage, DecodeHeicError>,
    P: Fn(&[u8]) -> Result<HevcSps, String>,
    B: Fn(&[u8]) -> Result<HeicFrame, String>,
    A: Fn(u32, u32) -> Option<HeicAuxiliaryAlphaPlane>,
    F: Fn(PreparedYcbcrToRgb, i32, i32, i32) -> (u16, u16, u16),
>(
    primary: &HeicPrimaryItem,
    guardrails: &DecodeGuardrails,
    transforms: Seq<PrimaryItemTransformProperty>,
    decode_tile: D,
    parse_sps: P,
    decode_frame: B,
    decode_alpha: A,
    float_kernel: F,
    before: Seq<u16>,
    after: Seq<u16>,
    result: Result<(), DecodeError>,
) -> bool {
    match primary {
        HeicPrimaryItem::Grid(grid) => match guardrails.pixel_error(
            grid.descriptor.output_width,
            grid.descriptor.output_height,
        ) {
            Some(e) => result == Err::<(), DecodeError>(e) && after == before,
            None => exists|
                alpha: Option<HeicAuxiliaryAlphaPlane>,
                tiles: Seq<Result<DecodedHeicImage, DecodeHeicError>>,
            |
                {
                    &&& #[trigger] decode_alpha.ensures(
                        (grid.descriptor.output_width, grid.descriptor.output_height),
                        alpha,
                    )
                    &&& #[trigger] produced(decode_tile, tiles)
                    &&& tiles_tried(grid.descriptor, grid.tile_count as int, tiles.len() as int)
                    &&& grid_buffer_decoded::<u16, ScaleToU16, F>(
                        *grid,
                        tiles,
                        transforms,
                        lent(&alpha),
                        16,
                        before,
                        "HEIC grid RGBA16 image adapter byte output",
                        float_kernel,
                        result,
                        after,
                    )
                },
        },
        HeicPrimaryItem::Coded(properties, item) => exists|
            outcome: Result<(HeicView, Option<HeicAuxiliaryAlphaPlane>), DecodeError>,
        |
            {
                &&& #[trigger] coded_with_alpha(
                    properties,
                    item,
                    guardrails,
                    parse_sps,
                    decode_frame,
                    decode_alpha,
                    outcome,
                )
                &&& match outcome {
                    Err(e) => result == Err::<(), DecodeError>(e) && after == before,
                    Ok((view, alpha)) => match buffer_error(view, transforms, lent(&alpha), 16, before.len() as int) {
                        Some(e) => result == Err::<(), DecodeError>(e) && after == before,
                        None => result is Ok && buffer_shows::<u16, ScaleToU16, F>(
                            heic_image(view, plane_opacity(lent(&alpha))),
                            transforms,
                            float_kernel,
                            after,
                        ),
                    },
                }
            },
    }
}

/// Decodes the primary item of a HEIC file into the bytes of sixteen-bit
/// samples, in the byte order of the machine.
pub fn decode_primary_heic_to_rgba16_native_endian_bytes<
    D: Fn(usize) -> Result<DecodedHeicImage, DecodeHeicError>,
    P: Fn(&[u8]) -> Result<HevcSps, String>,
    B: Fn(&[u8]) -> Result<HeicFrame, String>,
    A: Fn(u32, u32) -> Option<HeicAuxiliaryAlphaPlane>,
    F: Fn(PreparedYcbcrToRgb, i32, i32, i32) -> (u16, u16, u16),
>(
    primary: &HeicPrimaryItem,
    guardrails: &DecodeGuardrails,
    transforms: &[PrimaryItemTransformProperty],
    out: &mut [u8],
    decode_tile: &D,
    parse_sps: &P,
    decode_frame: &B,
    decode_alpha: &A,
    float_kernel: &F,
) -> (result: Result<(), DecodeError>)
    requires
        transforms_wf(transforms@),
        kernel_ready(*float_kernel),
        forall|k: usize| k < primary.tile_count() ==> #[trigger] decode_tile.requires((k,)),
        forall|unit: &[u8]| #[trigger] parse_sps.requires((unit,)),
        forall|unit: &[u8]| #[trigger] decode_frame.requires((unit,)),
        forall|width: u32, height: u32| #[trigger] decode_alpha.requires((width, height)),
    ensures
        final(out)@.len() == old(out)@.len(),
        unpaired(final(out)@) == unpaired(old(out)@),
        rgba16_decoded(
            primary,
            guardrails,
            transforms@,
            *decode_tile,
            *parse_sps,
            *decode_frame,
            *decode_alpha,
            *float_kernel,
            paired(old(out)@, machine_order()),
            paired(final(out)@, machine_order()),
            result,
        ),
{
    match primary {
        HeicPrimaryItem::Grid(grid) => {
            let allowed: Result<(), DecodeError> = guardrails.enforce_pixel_count(
                grid.descriptor.output_width,
                grid.descriptor.output_height,
            );
            if let Err(e) = allowed {
                return Err(e);
            }
            let alpha: Option<HeicAuxiliaryAlphaPlane> = decode_alpha(
                grid.descriptor.output_width,
                grid.descriptor.output_height,
            );
            assert(decode_alpha.ensures(
                (grid.descriptor.output_width, grid.descriptor.output_height),
                alpha,
            ));
            decode_primary_heic_grid_to_rgba16_native_endian_bytes(
                grid,
                transforms,
                lend(&alpha),
                out,
                decode_tile,
                float_kernel,
            )
        },
        HeicPrimaryItem::Coded(properties, item) => {
            let outcome: Result<(DecodedHeicImage, Option<HeicAuxiliaryAlphaPlane>), DecodeError> =
                decode_primary_heic_coded_item_with_alpha(
                properties,
                item,
                guardrails,
                parse_sps,
                decode_frame,
                decode_alpha,
            );
            assert(coded_with_alpha(
                properties,
                item,
                guardrails,
                *parse_sps,
                *decode_frame,
                *decode_alpha,
                viewed_pair(outcome),
            ));
            let (decoded, alpha): (DecodedHeicImage, Option<HeicAuxiliaryAlphaPlane>) = match outcome {
                Ok(pair) => pair,
                Err(e) => {
                    return Err(e);
                },
            };
            decoded_heic_to_rgba16_native_endian_bytes(
                &decoded,
                transforms,
                lend(&alpha),
                out,
                float_kernel,
            )
        },
    }
}

/// Whether images come with bit depths that can be converted.
pub open spec fn decodes_depths<D: Fn(&[u8]) -> Result<DecodedAvifImage, DecodeAvifError>>(
    decode_stream: D,
) -> bool {
    forall|stream: &[u8], image: DecodedAvifImage| #[trigger]
        decode_stream.ensures((stream,), Ok::<DecodedAvifImage, DecodeAvifError>(image)) ==> 1
            <= image.bit_depth <= 16
}

/// Whether an image is what decoding the primary item of an AVIF file came to
/// within limits.
pub open spec fn avif_decoded<
    D: Fn(&[u8]) -> Result<DecodedAvifImage, DecodeAvifError>,
    A: Fn(u32, u32) -> Option<AvifAuxiliaryAlphaPlane>,
>(
    properties: &AvifPrimaryItemPreflightProperties,
    payload: Seq<u8>,
    guardrails: &DecodeGuardrails,
    decode_stream: D,
    decode_alpha: A,
    outcome: Result<DecodedAvifImage, DecodeError>,
) -> bool {
    exists|
        decoded: Result<DecodedAvifImage, DecodeAvifError>,
        image: Result<DecodedAvifImage, DecodeAvifError>,
    |
        {
            &&& #[trigger] stream_decoded(
                decode_stream,
                properties.config_obus@ + payload,
                decoded,
            )
            &&& #[trigger] primary_image(properties, decoded, decode_alpha, image)
            &&& outcome == (match image {
                Err(e) => Err::<DecodedAvifImage, DecodeError>(DecodeError::AvifDecode(e)),
                Ok(image) => match guardrails.pixel_error(image.width, image.height) {
                    Some(e) => Err(e),
                    None => Ok(image),
                },
            })
        }
}

/// Decodes the primary item of an AVIF file within limits.
fn decode_avif_within_limits<
    D: Fn(&[u8]) -> Result<DecodedAvifImage, DecodeAvifError>,
    A: Fn(u32, u32) -> Option<AvifAuxiliaryAlphaPlane>,
>(
    properties: &AvifPrimaryItemPreflightProperties,
    payload: &[u8],
    guardrails: &DecodeGuardrails,
    decode_stream: &D,
    decode_alpha: &A,
) -> (result: Result<DecodedAvifImage, DecodeError>)
    requires
        forall|stream: &[u8]| #[trigger] decode_stream.requires((stream,)),
        forall|width: u32, height: u32| #[trigger] decode_alpha.requires((width, height)),
        decodes_depths(*decode_stream),
    ensures
        avif_decoded(properties, payload@, guardrails, *decode_stream, *decode_alpha, result),
        result matches Ok(image) ==> 1 <= image.bit_depth <= 16,
{
    let image: Result<DecodedAvifImage, DecodeAvifError> = decode_primary_avif_to_image(
        properties,
        payload,
        decode_stream,
        decode_alpha,
    );
    proof {
        let decoded = choose|decoded: Result<DecodedAvifImage, DecodeAvifError>|
            {
                &&& #[trigger] stream_decoded(
                    *decode_stream,
                    properties.config_obus@ + payload@,
                    decoded,
                )
                &&& primary_image(properties, decoded, *decode_alpha, image)
            };
        assert(stream_decoded(*decode_stream, properties.config_obus@ + payload@, decoded)
            && primary_image(properties, decoded, *decode_alpha, image));
    }
    let decoded: DecodedAvifImage = match image {
        Ok(decoded) => decoded,
        Err(e) => {
            return Err(DecodeError::AvifDecode(e));
        },
    };
    guardrails.enforce_pixel_count(decoded.width, decoded.height)?;
    Ok(decoded)
}

/// Decodes the primary item of an AVIF file into an RGBA image.
pub fn decode_avif_to_rgba<
    D: Fn(&[u8]) -> Result<DecodedAvifImage, DecodeAvifError>,
    A: Fn(u32, u32) -> Option<AvifAuxiliaryAlphaPlane>,
    F: Fn(PreparedYcbcrToRgb, i32, i32, i32) -> (u16, u16, u16),
>(
    properties: &AvifPrimaryItemPreflightProperties,
    payload: &[u8],
    guardrails: &DecodeGuardrails,
    transforms: &[PrimaryItemTransformProperty],
    icc_profile: Option<Vec<u8>>,
    decode_stream: &D,
    decode_alpha: &A,
    float_kernel: &F,
) -> (result: Result<DecodedRgbaImage, DecodeError>)
    requires
        transforms_wf(transforms@),
        kernel_ready(*float_kernel),
        forall|stream: &[u8]| #[trigger] decode_stream.requires((stream,)),
        forall|width: u32, height: u32| #[trigger] decode_alpha.requires((width, height)),
        decodes_depths(*decode_stream),
    ensures
        exists|outcome: Result<DecodedAvifImage, DecodeError>|
            {
                &&& #[trigger] avif_decoded(
                    properties,
                    payload@,
                    guardrails,
                    *decode_stream,
                    *decode_alpha,
                    outcome,
                )
                &&& match outcome {
                    Err(e) => result == Err::<DecodedRgbaImage, DecodeError>(e),
                    Ok(image) => match avif_rgba_error(image, transforms@) {
                        Some(e) => result == Err::<DecodedRgbaImage, DecodeError>(e),
                        None => result is Ok && rgba_image_shows(
                            avif_image(image, true),
                            transforms@,
                            *float_kernel,
                            image.bit_depth,
                            icc_profile,
                            result->Ok_0,
                        ),
                    },
                }
            },
{
    let outcome: Result<DecodedAvifImage, DecodeError> = decode_avif_within_limits(
        properties,
        payload,
        guardrails,
        decode_stream,
        decode_alpha,
    );
    assert(avif_decoded(
        properties,
        payload@,
        guardrails,
        *decode_stream,
        *decode_alpha,
        outcome,
    ));
    match outcome {
        Err(e) => Err(e),
        Ok(image) => decoded_avif_to_rgba_image(&image, transforms, icc_profile, float_kernel),
    }
}

/// Decodes the primary item of an AVIF file into a buffer of eight-bit samples.
pub fn decode_avif_to_rgba8_slice<
    D: Fn(&[u8]) -> Result<DecodedAvifImage, DecodeAvifError>,
    A: Fn(u32, u32) -> Option<AvifAuxiliaryAlphaPlane>,
    F: Fn(PreparedYcbcrToRgb, i32, i32, i32) -> (u16, u16, u16),
>(
    properties: &AvifPrimaryItemPreflightProperties,
    payload: &[u8],
    guardrails: &DecodeGuardrails,
    transforms: &[PrimaryItemTransformProperty],
    out: &mut [u8],
    decode_stream: &D,
    decode_alpha: &A,
    float_kernel: &F,
) -> (result: Result<(), DecodeError>)
    requires
        transforms_wf(transforms@),
        kernel_ready(*float_kernel),
        forall|stream: &[u8]| #[trigger] decode_stream.requires((stream,)),
        forall|width: u32, height: u32| #[trigger] decode_alpha.requires((width, height)),
        decodes_depths(*decode_stream),
    ensures
        final(out)@.len() == old(out)@.len(),
        result is Err ==> final(out)@ == old(out)@,
        exists|outcome: Result<DecodedAvifImage, DecodeError>|
            {
                &&& #[trigger] avif_decoded(
                    properties,
                    payload@,
                    guardrails,
                    *decode_stream,
                    *decode_alpha,
                    outcome,
                )
                &&& match outcome {
                    Err(e) => result == Err::<(), DecodeError>(e),
                    Ok(image) => if image.bit_depth > 8 {
                        result == Err::<(), DecodeError>(stored_wide())
                    } else {
                        match avif_buffer_error(
                            image,
                            transforms@,
                            false,
                            old(out)@.len() as int,
                            "AVIF direct transformed RGBA8 image adapter output",
                        ) {
                            Some(e) => result == Err::<(), DecodeError>(e),
                            None => result is Ok && buffer_shows::<u8, ScaleToU8, F>(
                                avif_image(image, true),
                                transforms@,
                                *float_kernel,
                                final(out)@,
                            ),
                        }
                    },
                }
            },
{
    let outcome: Result<DecodedAvifImage, DecodeError> = decode_avif_within_limits(
        properties,
        payload,
        guardrails,
        decode_stream,
        decode_alpha,
    );
    assert(avif_decoded(
        properties,
        payload@,
        guardrails,
        *decode_stream,
        *decode_alpha,
        outcome,
    ));
    match outcome {
        Err(e) => Err(e),
        Ok(image) => decoded_avif_to_rgba8_slice(&image, transforms, out, float_kernel),
    }
}

/// Decodes the primary item of an AVIF file into the bytes of sixteen-bit
/// samples, in the byte order of the machine.
pub fn decode_avif_to_rgba16_native_endian_bytes<
    D: Fn(&[u8]) -> Result<DecodedAvifImage, DecodeAvifError>,
    A: Fn(u32, u32) -> Option<AvifAuxiliaryAlphaPlane>,
    F: Fn(PreparedYcbcrToRgb, i32, i32, i32) -> (u16, u16, u16),
>(
    properties: &AvifPrimaryItemPreflightProperties,
    payload: &[u8],
    guardrails: &DecodeGuardrails,
    transforms: &[PrimaryItemTransformProperty],
    out: &mut [u8],
    decode_stream: &D,
    decode_alpha: &A,
    float_kernel: &F,
) -> (result: Result<(), DecodeError>)
    requires
        transforms_wf(transforms@),
        kernel_ready(*float_kernel),
        forall|stream: &[u8]| #[trigger] decode_stream.requires((stream,)),
        forall|width: u32, height: u32| #[trigger] decode_alpha.requires((width, height)),
        decodes_depths(*decode_stream),
    ensures
        final(out)@.len() == old(out)@.len(),
        unpaired(final(out)@) == unpaired(old(out)@),
        result is Err ==> final(out)@ == old(out)@,
        exists|outcome: Result<DecodedAvifImage, DecodeError>|
            {
                &&& #[trigger] avif_decoded(
                    properties,
                    payload@,
                    guardrails,
                    *decode_stream,
                    *decode_alpha,
                    outcome,
                )
                &&& match outcome {
                    Err(e) => result == Err::<(), DecodeError>(e),
                    Ok(image) => if image.bit_depth <= 8 {
                        result == Err::<(), DecodeError>(stored_narrow())
                    } else {
                        match avif_buffer_error(
                            image,
                            transforms@,
                            true,
                            old(out)@.len() as int / 2,
                            "AVIF direct transformed RGBA16 image adapter output",
                        ) {
                            Some(e) => result == Err::<(), DecodeError>(e),
                            None => result is Ok && buffer_shows::<u16, ScaleToU16, F>(
                                avif_image(image, true),
                                transforms@,
                                *float_kernel,
                                paired(final(out)@, machine_order()),
                            ),
                        }
                    },
                }
            },
{
    let outcome: Result<DecodedAvifImage, DecodeError> = decode_avif_within_limits(
        properties,
        payload,
        guardrails,
        decode_stream,
        decode_alpha,
    );
    assert(avif_decoded(
        properties,
        payload@,
        guardrails,
        *decode_stream,
        *decode_alpha,
        outcome,
    ));
    match outcome {
        Err(e) => Err(e),
        Ok(image) => decoded_avif_to_rgba16_native_endian_bytes(
            &image,
            transforms,
            out,
            float_kernel,
        ),
    }
}

/// Refuses a buffer that cannot hold sixteen-bit samples.
pub fn require_whole_rgba16_samples(byte_count: usize) -> (result: Result<(), DecodeError>)
    ensures
        if byte_count % 2 != 0 {
            result == Err::<(), DecodeError>(
                DecodeError::Unsupported(
                    Wording::Template(
                        Detail::Plain("RGBA16 image adapter output has an odd byte length"),
                    ),
                ),
            )
        } else {
            result is Ok
        },
{
    if byte_count % 2 != 0 {
        return Err(
            DecodeError::Unsupported(
                Wording::Template(
                    Detail::Plain("RGBA16 image adapter output has an odd byte length"),
                ),
            ),
        );
    }
    Ok(())
}

/// Refuses direct RGB output for files of other families than HEIF.
pub fn require_rgb8_family(family: HeifInputFamily) -> (result: Result<(), DecodeError>)
    ensures
        match family {
            HeifInputFamily::Heif => result is Ok,
            HeifInputFamily::Avif => result == Err::<(), DecodeError>(
                DecodeError::Unsupported(
                    Wording::Template(
                        Detail::Plain(
                            "direct RGB8 output currently supports coded HEIC/HEIF inputs",
                        ),
                    ),
                ),
            ),
        },
{
    match family {
        HeifInputFamily::Heif => Ok(()),
        HeifInputFamily::Avif => Err(
            DecodeError::Unsupported(
                Wording::Template(
                    Detail::Plain("direct RGB8 output currently supports coded HEIC/HEIF inputs"),
                ),
            ),
        ),
    }
}

/// The size that the primary item announces.
pub open spec fn announced_size(primary: &HeicPrimaryItem) -> (u32, u32) {
    match primary {
        HeicPrimaryItem::Grid(grid) => (
            grid.descriptor.output_width,
            grid.descriptor.output_height,
        ),
        HeicPrimaryItem::Coded(properties, _) => (properties.ispe_width, properties.ispe_height),
    }
}

/// A coded image that was decoded has the size that its properties announce.
proof fn lemma_coded_size<
    P: Fn(&[u8]) -> Result<HevcSps, String>,
    B: Fn(&[u8]) -> Result<HeicFrame, String>,
>(
    properties: &HeicPrimaryItemPreflightProperties,
    item: &HeicPrimaryItemData,
    parse_sps: P,
    decode_frame: B,
    image: HeicView,
)
    requires
        coded_item_decoded(
            properties,
            item.item_id,
            item.payload@,
            parse_sps,
            decode_frame,
            Ok::<HeicView, DecodeHeicError>(image),
        ),
    ensures
        image.width == properties.ispe_width,
        image.height == properties.ispe_height,
{
}

/// An RGBA image is made only of a primary item within the limit of pixels.
pub proof fn lemma_rgba_within_limits<
    D: Fn(usize) -> Result<DecodedHeicImage, DecodeHeicError>,
    P: Fn(&[u8]) -> Result<HevcSps, String>,
    B: Fn(&[u8]) -> Result<HeicFrame, String>,
    A: Fn(u32, u32) -> Option<HeicAuxiliaryAlphaPlane>,
    F: Fn(PreparedYcbcrToRgb, i32, i32, i32) -> (u16, u16, u16),
>(
    primary: &HeicPrimaryItem,
    guardrails: &DecodeGuardrails,
    transforms: Seq<PrimaryItemTransformProperty>,
    decode_tile: D,
    parse_sps: P,
    decode_frame: B,
    decode_alpha: A,
    float_kernel: F,
    icc_profile: Option<Vec<u8>>,
    image: DecodedRgbaImage,
)
    requires
        rgba_decoded(
            primary,
            guardrails,
            transforms,
            decode_tile,
            parse_sps,
            decode_frame,
            decode_alpha,
            float_kernel,
            icc_profile,
            Ok::<DecodedRgbaImage, DecodeError>(image),
        ),
    ensures
        guardrails.max_pixels matches Some(max_pixels) ==> announced_size(primary).0
            * announced_size(primary).1 <= max_pixels,
{
    if let HeicPrimaryItem::Coded(properties, item) = primary {
        let outcome = choose|
            outcome: Result<(HeicView, Option<HeicAuxiliaryAlphaPlane>), DecodeError>,
        |
            {
                &&& #[trigger] coded_with_alpha(
                    properties,
                    item,
                    guardrails,
                    parse_sps,
                    decode_frame,
                    decode_alpha,
                    outcome,
                )
                &&& outcome is Ok
            };
        let decoded = choose|decoded: Result<HeicView, DecodeHeicError>| #[trigger]
            coded_item_decoded(
                properties,
                item.item_id,
                item.payload@,
                parse_sps,
                decode_frame,
                decoded,
            ) && decoded is Ok && guardrails.pixel_error(
                decoded->Ok_0.width,
                decoded->Ok_0.height,
            ) is None;
        lemma_coded_size(properties, item, parse_sps, decode_frame, decoded->Ok_0);
    }
}

/// An RGB image is made only of a primary item within the limit of pixels.
pub proof fn lemma_rgb_within_limits<
    D: Fn(usize) -> Result<DecodedHeicImage, DecodeHeicError>,
    P: Fn(&[u8]) -> Result<HevcSps, String>,
    B: Fn(&[u8]) -> Result<HeicFrame, String>,
    F: Fn(PreparedYcbcrToRgb, i32, i32, i32) -> (u16, u16, u16),
>(
    primary: &HeicPrimaryItem,
    guardrails: &DecodeGuardrails,
    transforms: Seq<PrimaryItemTransformProperty>,
    decode_tile: D,
    parse_sps: P,
    decode_frame: B,
    float_kernel: F,
    icc_profile: Option<Vec<u8>>,
    image: DecodedRgbImage,
)
    requires
        rgb8_decoded(
            primary,
            guardrails,
            transforms,
            decode_tile,
            parse_sps,
            decode_frame,
            float_kernel,
            icc_profile,
            Ok::<DecodedRgbImage, DecodeError>(image),
        ),
    ensures
        guardrails.max_pixels matches Some(max_pixels) ==> announced_size(primary).0
            * announced_size(primary).1 <= max_pixels,
{
    if let HeicPrimaryItem::Coded(properties, item) = primary {
        let decoded = choose|decoded: Result<HeicView, DecodeHeicError>|
            {
                &&& #[trigger] coded_item_decoded(
                    properties,
                    item.item_id,
                    item.payload@,
                    parse_sps,
                    decode_frame,
                    decoded,
                )
                &&& decoded matches Ok(view) && guardrails.pixel_error(
                    view.width,
                    view.height,
                ) is None
            };
        lemma_coded_size(properties, item, parse_sps, decode_frame, decoded->Ok_0);
    }
}

/// An AVIF image is decoded only within the limit of pixels, and has the size
/// that its properties announce.
pub proof fn lemma_avif_within_limits<
    D: Fn(&[u8]) -> Result<DecodedAvifImage, DecodeAvifError>,
    A: Fn(u32, u32) -> Option<AvifAuxiliaryAlphaPlane>,
>(
    properties: &AvifPrimaryItemPreflightProperties,
    payload: Seq<u8>,
    guardrails: &DecodeGuardrails,
    decode_stream: D,
    decode_alpha: A,
    image: DecodedAvifImage,
)
    requires
        avif_decoded(
            properties,
            payload,
            guardrails,
            decode_stream,
            decode_alpha,
            Ok::<DecodedAvifImage, DecodeError>(image),
        ),
    ensures
        image.width == properties.ispe_width,
        image.height == properties.ispe_height,
        guardrails.max_pixels matches Some(max_pixels) ==> image.width * image.height
            <= max_pixels,
{
}

/// What an image with some metadata will be like is what it is like: the RGBA
/// image has the announced size, bit depths and profile.
pub proof fn lemma_layout_agrees<F: Fn(PreparedYcbcrToRgb, i32, i32, i32) -> (u16, u16, u16)>(
    decoded: HeicView,
    alpha: Option<&HeicAuxiliaryAlphaPlane>,
    guardrails: &DecodeGuardrails,
    transforms: Seq<PrimaryItemTransformProperty>,
    float_kernel: F,
    icc_profile: Option<Vec<u8>>,
    image: DecodedRgbaImage,
    layout: DecodedRgbaLayout,
)
    requires
        rgba_image_shows(
            heic_image(decoded, plane_opacity(alpha)),
            transforms,
            float_kernel,
            decoded.bit_depth_luma,
            icc_profile,
            image,
        ),
        metadata_layout(metadata_of(decoded), guardrails, transforms, icc_profile) == Ok::<
            DecodedRgbaLayout,
            DecodeError,
        >(layout),
    ensures
        image.width == layout.width,
        image.height == layout.height,
        image.source_bit_depth == layout.source_bit_depth,
        layout.storage_bit_depth == (if image.pixels is U8 {
            8u8
        } else {
            16u8
        }),
        image.icc_profile == layout.icc_profile,
{
}

/// Whether the primary item decodes to one image: each tile of a grid to one,
/// or the coded image to one.
pub open spec fn decodes_to_one<
    D: Fn(usize) -> Result<DecodedHeicImage, DecodeHeicError>,
    P: Fn(&[u8]) -> Result<HevcSps, String>,
    B: Fn(&[u8]) -> Result<HeicFrame, String>,
>(primary: &HeicPrimaryItem, decode_tile: D, parse_sps: P, decode_frame: B) -> bool {
    match primary {
        HeicPrimaryItem::Grid(_) => forall|
            k: usize,
            one: DecodedHeicImage,
            other: DecodedHeicImage,
        |
            #[trigger] decode_tile.ensures((k,), Ok::<DecodedHeicImage, DecodeHeicError>(one))
                && #[trigger] decode_tile.ensures(
                (k,),
                Ok::<DecodedHeicImage, DecodeHeicError>(other),
            ) ==> one@ == other@,
        HeicPrimaryItem::Coded(properties, item) => forall|one: HeicView, other: HeicView|
            #[trigger] coded_item_decoded(
                properties,
                item.item_id,
                item.payload@,
                parse_sps,
                decode_frame,
                Ok::<HeicView, DecodeHeicError>(one),
            ) && #[trigger] coded_item_decoded(
                properties,
                item.item_id,
                item.payload@,
                parse_sps,
                decode_frame,
                Ok::<HeicView, DecodeHeicError>(other),
            ) ==> one == other,
    }
}

/// Tiles that were all pasted are all there.
proof fn lemma_tiles_there(
    descriptor: HeicGridDescriptor,
    reference: HeicGridTileReference,
    tiles: Seq<Result<DecodedHeicImage, DecodeHeicError>>,
    channels: int,
    label: &'static str,
    count: nat,
)
    requires
        count <= tiles.len(),
        tiles_error(descriptor, reference, tiles, channels, label, count) is None,
    ensures
        forall|k: int| 0 <= k < count ==> (#[trigger] tiles[k]) is Ok,
    decreases count,
{
    if count > 0 {
        lemma_tiles_there(descriptor, reference, tiles, channels, label, (count - 1) as nat);
    }
}

/// What the primary item decodes to as RGB is what it decodes to as RGBA,
/// without the opacity, and rounded to eight bits where that has sixteen:
/// the same size, bit depth and profile, and the same colours. The two decodes
/// go by the same decoder, which makes one image of the item, and by the same
/// conversion.
pub proof fn lemma_rgb_decode_of_rgba<
    D: Fn(usize) -> Result<DecodedHeicImage, DecodeHeicError>,
    P: Fn(&[u8]) -> Result<HevcSps, String>,
    B: Fn(&[u8]) -> Result<HeicFrame, String>,
    A: Fn(u32, u32) -> Option<HeicAuxiliaryAlphaPlane>,
    F: Fn(PreparedYcbcrToRgb, i32, i32, i32) -> (u16, u16, u16),
>(
    primary: &HeicPrimaryItem,
    guardrails: &DecodeGuardrails,
    transforms: Seq<PrimaryItemTransformProperty>,
    decode_tile: D,
    parse_sps: P,
    decode_frame: B,
    decode_alpha: A,
    float_kernel: F,
    icc_profile: Option<Vec<u8>>,
    rgb: DecodedRgbImage,
    rgba: DecodedRgbaImage,
)
    requires
        decodes_to_one(primary, decode_tile, parse_sps, decode_frame),
        forall|prepared: PreparedYcbcrToRgb| #[trigger] settled(prepared, float_kernel),
        rgb8_decoded(
            primary,
            guardrails,
            transforms,
            decode_tile,
            parse_sps,
            decode_frame,
            float_kernel,
            icc_profile,
            Ok::<DecodedRgbImage, DecodeError>(rgb),
        ),
        rgba_decoded(
            primary,
            guardrails,
            transforms,
            decode_tile,
            parse_sps,
            decode_frame,
            decode_alpha,
            float_kernel,
            icc_profile,
            Ok::<DecodedRgbaImage, DecodeError>(rgba),
        ),
    ensures
        rgb_of_rgba(&rgb, &rgba),
{
    match primary {
        HeicPrimaryItem::Grid(grid) => {
            let shown = Ok::<DecodedRgbImage, DecodeError>(rgb);
            let opaque = Ok::<DecodedRgbaImage, DecodeError>(rgba);
            let size = (grid.descriptor.output_width, grid.descriptor.output_height);
            let tiles = choose|tiles: Seq<Result<DecodedHeicImage, DecodeHeicError>>|
                {
                    &&& #[trigger] produced(decode_tile, tiles)
                    &&& tiles_tried(grid.descriptor, grid.tile_count as int, tiles.len() as int)
                    &&& rgb_grid_decoded(
                        *grid,
                        tiles,
                        transforms,
                        icc_profile,
                        float_kernel,
                        shown,
                    )
                };
            let (alpha, others) = choose|
                alpha: Option<HeicAuxiliaryAlphaPlane>,
                tiles: Seq<Result<DecodedHeicImage, DecodeHeicError>>,
            |
                {
                    &&& #[trigger] decode_alpha.ensures(size, alpha)
                    &&& #[trigger] produced(decode_tile, tiles)
                    &&& tiles_tried(grid.descriptor, grid.tile_count as int, tiles.len() as int)
                    &&& rgba_grid_decoded(
                        *grid,
                        tiles,
                        transforms,
                        lent(&alpha),
                        icc_profile,
                        float_kernel,
                        opaque,
                    )
                };
            lemma_tiles_there(
                grid.descriptor,
                grid_opening(*grid, tiles)->Ok_0.0,
                tiles,
                3,
                "RGB",
                tiles.len(),
            );
            lemma_tiles_there(
                grid.descriptor,
                grid_opening(*grid, others)->Ok_0.0,
                others,
                4,
                "RGBA",
                others.len(),
            );
            assert forall|k: int| 0 <= k < tiles.len() implies #[trigger] tile_views(tiles)[k]
                == tile_views(others)[k] by {
                assert(tiles[k] is Ok && others[k] is Ok);
                assert(decode_tile.ensures((k as usize,), tiles[k]));
                assert(decode_tile.ensures((k as usize,), others[k]));
                assert(tiles[k] == Ok::<DecodedHeicImage, DecodeHeicError>(tiles[k]->Ok_0));
                assert(others[k] == Ok::<DecodedHeicImage, DecodeHeicError>(others[k]->Ok_0));
            }
            assert(tile_views(tiles) =~= tile_views(others));
            let view = grid_view(*grid, tiles);
            assert forall|place: (int, int)|
                (#[trigger] view.image_at(place)).settled(float_kernel) by {
                assert(settled(view.image_at(place).converter, float_kernel));
            }
            lemma_grid_rgb_of_rgba(
                *grid,
                tiles,
                others,
                transforms,
                lent(&alpha),
                float_kernel,
                icc_profile,
                rgb,
                rgba,
            );
        },
        HeicPrimaryItem::Coded(properties, item) => {
            let outcome = choose|
                outcome: Result<(HeicView, Option<HeicAuxiliaryAlphaPlane>), DecodeError>,
            |
                {
                    &&& #[trigger] coded_with_alpha(
                        properties,
                        item,
                        guardrails,
                        parse_sps,
                        decode_frame,
                        decode_alpha,
                        outcome,
                    )
                    &&& match outcome {
                        Err(_) => false,
                        Ok((view, alpha)) => rgba_image_shows(
                            heic_image(view, plane_opacity(lent(&alpha))),
                            transforms,
                            float_kernel,
                            view.bit_depth_luma,
                            icc_profile,
                            rgba,
                        ),
                    }
                };
            let (view, alpha) = outcome->Ok_0;
            assert(coded_item_decoded(
                properties,
                item.item_id,
                item.payload@,
                parse_sps,
                decode_frame,
                Ok::<HeicView, DecodeHeicError>(view),
            ));
            let image = choose|image: Result<HeicView, DecodeHeicError>|
                {
                    &&& #[trigger] coded_item_decoded(
                        properties,
                        item.item_id,
                        item.payload@,
                        parse_sps,
                        decode_frame,
                        image,
                    )
                    &&& match image {
                        Err(_) => false,
                        Ok(other) => {
                            &&& rgb.source_bit_depth == other.bit_depth_luma
                            &&& rgb.icc_profile == icc_profile
                            &&& shows_transformed::<u8, ScaleToRgb8, F>(
                                heic_image(other, None),
                                transforms,
                                float_kernel,
                                3,
                                (rgb.width, rgb.height, rgb.pixels@),
                            )
                        },
                    }
                };
            assert(image == Ok::<HeicView, DecodeHeicError>(image->Ok_0));
            assert(image->Ok_0 == view);
            assert(settled(heic_image(view, None).converter, float_kernel));
            lemma_rgb_of_rgba(
                view,
                transforms,
                lent(&alpha),
                float_kernel,
                icc_profile,
                &rgb,
                &rgba,
            );
        },
    }
}

} // verus!
