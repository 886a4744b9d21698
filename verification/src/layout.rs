//! What a decoded image will be like, found without decoding it.
use crate::avif::AvifPrimaryItemPreflightProperties;
use crate::errors::{invalid_frame, DecodeAvifError, DecodeError, DecodeHeicError};
#[allow(unused_imports)]
use crate::errors::bad_frame;
use crate::grid::layout::HeicGridDescriptor;
use crate::guardrails::DecodeGuardrails;
use crate::hevc::coded::{
    validate_heic_coded_item_preflight, HeicGridTileItemData, HeicPrimaryItemPreflightProperties,
};
#[allow(unused_imports)]
use crate::hevc::coded::{coded_image, item_mismatch};
#[allow(unused_imports)]
use crate::hevc::frame::HeicFrame;
#[allow(unused_imports)]
use crate::hevc::sps::{first_sps, item_sps, lemma_same_sps, metadata_outcome, parses, unplaced};
use crate::hevc::sps::{
    decode_hevc_metadata_from_hvcc_or_payload, hevc_metadata_from_hvcc_nal_arrays,
    validate_decoded_heic_geometry_against_ispe, HevcSps,
};
#[allow(unused_imports)]
use crate::hevc::stream::assembled;
use crate::icc::icc_profile_from_color_properties;
#[allow(unused_imports)]
use crate::icc::{icc_of, profile_is};
use crate::rgba::DecodedRgbaLayout;
use crate::text::Detail;
#[allow(unused_imports)]
use crate::transform::mapping::{transformed_size, transforms_wf};
use crate::transform::mapping::{transformed_rgba_dimensions, PrimaryItemTransformProperty};
use crate::types::DecodedHeicImageMetadata;
#[allow(unused_imports)]
use crate::types::HeicView;
#[allow(unused_imports)]
use crate::uncompressed::channel_map::output_depth_of_properties;
use crate::uncompressed::channel_map::uncompressed_output_bit_depth_from_properties;
use crate::uncompressed::components::UncompressedPrimaryItemProperties;
#[allow(unused_imports)]
use crate::yuv::heic::depth_error;
use crate::yuv::heic::heic_bit_depth_for_png_conversion_metadata;
use crate::yuv::output::heic_storage_bit_depth;
#[allow(unused_imports)]
use crate::yuv::output::storage_depth;
use vstd::prelude::*;

verus! {

/// A coded image that is the primary item of a file.
#[derive(Clone, Debug, PartialEq, Eq)]
pub struct HeicPrimaryItemData {
    pub item_id: u32,
    pub payload: Vec<u8>,
}

/// What an image of a size and a bit depth will be like behind transforms.
pub open spec fn layout_of(
    size: (u32, u32),
    bit_depth: u8,
    transforms: Seq<PrimaryItemTransformProperty>,
    icc_profile: Option<Vec<u8>>,
) -> Result<DecodedRgbaLayout, DecodeError> {
    match transformed_size(transforms, size.0, size.1, transforms.len()) {
        Err(e) => Err(DecodeError::TransformGuard(e)),
        Ok((width, height)) => Ok(
            DecodedRgbaLayout {
                width,
                height,
                source_bit_depth: bit_depth,
                storage_bit_depth: storage_depth(bit_depth),
                icc_profile,
            },
        ),
    }
}

/// What an image of a size and a bit depth will be like behind transforms.
pub fn decoded_rgba_layout_from_heic_geometry(
    width: u32,
    height: u32,
    source_bit_depth: u8,
    transforms: &[PrimaryItemTransformProperty],
    icc_profile: Option<Vec<u8>>,
) -> (result: Result<DecodedRgbaLayout, DecodeError>)
    requires
        transforms_wf(transforms@),
    ensures
        result == layout_of((width, height), source_bit_depth, transforms@, icc_profile),
{
    match transformed_rgba_dimensions(width, height, transforms) {
        Err(e) => Err(DecodeError::TransformGuard(e)),
        Ok((width, height)) => Ok(
            DecodedRgbaLayout {
                width,
                height,
                source_bit_depth,
                storage_bit_depth: heic_storage_bit_depth(source_bit_depth),
                icc_profile,
            },
        ),
    }
}

/// What an uncompressed item will be like.
pub fn uncompressed_rgba_layout(
    properties: &UncompressedPrimaryItemProperties,
    guardrails: &DecodeGuardrails,
    transforms: &[PrimaryItemTransformProperty],
) -> (result: Result<DecodedRgbaLayout, DecodeError>)
    requires
        transforms_wf(transforms@),
    ensures
        match guardrails.pixel_error(properties.width, properties.height) {
            Some(e) => result == Err::<DecodedRgbaLayout, DecodeError>(e),
            None => match output_depth_of_properties(properties) {
                Err(e) => result == Err::<DecodedRgbaLayout, DecodeError>(
                    DecodeError::UncompressedDecode(e),
                ),
                Ok(bit_depth) => exists|icc_profile: Option<Vec<u8>>| #[trigger]
                    profile_is(icc_profile, icc_of(&properties.colr)) && result == layout_of(
                        (properties.width, properties.height),
                        bit_depth,
                        transforms@,
                        icc_profile,
                    ),
            },
        },
{
    guardrails.enforce_pixel_count(properties.width, properties.height)?;
    let bit_depth: u8 = match uncompressed_output_bit_depth_from_properties(properties) {
        Ok(bit_depth) => bit_depth,
        Err(e) => {
            return Err(DecodeError::UncompressedDecode(e));
        },
    };
    let icc_profile: Option<Vec<u8>> = icc_profile_from_color_properties(&properties.colr);
    decoded_rgba_layout_from_heic_geometry(
        properties.width,
        properties.height,
        bit_depth,
        transforms,
        icc_profile,
    )
}

/// Whether metadata is of the size that the properties announce.
pub open spec fn announced(
    properties: &HeicPrimaryItemPreflightProperties,
    metadata: DecodedHeicImageMetadata,
) -> bool {
    metadata.width == properties.ispe_width && metadata.height == properties.ispe_height
}

/// What the decoder configuration of a coded item says of its image. There is
/// nothing where the configuration lacks it, or where it does not fit: the
/// payload is then needed.
pub fn heic_metadata_from_preflight<P: Fn(&[u8]) -> Result<HevcSps, String>>(
    properties: &HeicPrimaryItemPreflightProperties,
    parse_sps: &P,
) -> (found: Option<DecodedHeicImageMetadata>)
    requires
        forall|unit: &[u8]| #[trigger] parse_sps.requires((unit,)),
    ensures
        match first_sps(unplaced(properties.hvcc.headers())) {
            None => found is None,
            Some(unit) => exists|parsed: Result<HevcSps, String>| #[trigger]
                parses(*parse_sps, unit.bytes, parsed) && found == (match metadata_outcome(
                    parsed,
                    unit.offset,
                ) {
                    Ok(metadata) if announced(properties, metadata) => Some(metadata),
                    _ => None,
                }),
        },
{
    match hevc_metadata_from_hvcc_nal_arrays(&properties.hvcc, parse_sps) {
        Ok(Some(metadata)) => {
            match validate_decoded_heic_geometry_against_ispe(
                &metadata,
                properties.ispe_width,
                properties.ispe_height,
            ) {
                Ok(()) => Some(metadata),
                Err(_) => None,
            }
        },
        _ => None,
    }
}

/// What a coded item says of its image, with the configuration and the
/// payload.
pub fn heic_metadata_from_coded_item<P: Fn(&[u8]) -> Result<HevcSps, String>>(
    properties: &HeicPrimaryItemPreflightProperties,
    item: &HeicPrimaryItemData,
    parse_sps: &P,
) -> (result: Result<DecodedHeicImageMetadata, DecodeHeicError>)
    requires
        forall|unit: &[u8]| #[trigger] parse_sps.requires((unit,)),
    ensures
        match item_mismatch(properties.item_id, item.item_id) {
            Some(e) => result == Err::<DecodedHeicImageMetadata, DecodeHeicError>(e),
            None => match item_sps(&properties.hvcc, item.payload@) {
                Err(e) => result == Err::<DecodedHeicImageMetadata, DecodeHeicError>(e),
                Ok(unit) => exists|parsed: Result<HevcSps, String>| #[trigger]
                    parses(*parse_sps, unit.bytes, parsed) && result == (match metadata_outcome(
                        parsed,
                        unit.offset,
                    ) {
                        Err(e) => Err(e),
                        Ok(metadata) => if announced(properties, metadata) {
                            Ok(metadata)
                        } else {
                            Err(
                                DecodeHeicError::DecodedGeometryMismatch {
                                    expected_width: properties.ispe_width,
                                    expected_height: properties.ispe_height,
                                    actual_width: metadata.width,
                                    actual_height: metadata.height,
                                },
                            )
                        },
                    }),
            },
        },
{
    validate_heic_coded_item_preflight(properties, item.item_id)?;
    let metadata: DecodedHeicImageMetadata = decode_hevc_metadata_from_hvcc_or_payload(
        &properties.hvcc,
        item.payload.as_slice(),
        parse_sps,
    )?;
    validate_decoded_heic_geometry_against_ispe(
        &metadata,
        properties.ispe_width,
        properties.ispe_height,
    )?;
    Ok(metadata)
}

/// What an image with some metadata will be like.
pub open spec fn metadata_layout(
    metadata: DecodedHeicImageMetadata,
    guardrails: &DecodeGuardrails,
    transforms: Seq<PrimaryItemTransformProperty>,
    icc_profile: Option<Vec<u8>>,
) -> Result<DecodedRgbaLayout, DecodeError> {
    match guardrails.pixel_error(metadata.width, metadata.height) {
        Some(e) => Err(e),
        None => match depth_error(metadata.bit_depth_luma, metadata.bit_depth_chroma) {
            Some(e) => Err(DecodeError::HeicDecode(e)),
            None => layout_of(
                (metadata.width, metadata.height),
                metadata.bit_depth_luma,
                transforms,
                icc_profile,
            ),
        },
    }
}

/// What a coded item will be like.
pub fn heic_rgba_layout_from_metadata(
    metadata: &DecodedHeicImageMetadata,
    guardrails: &DecodeGuardrails,
    transforms: &[PrimaryItemTransformProperty],
    icc_profile: Option<Vec<u8>>,
) -> (result: Result<DecodedRgbaLayout, DecodeError>)
    requires
        transforms_wf(transforms@),
    ensures
        result == metadata_layout(*metadata, guardrails, transforms@, icc_profile),
{
    guardrails.enforce_pixel_count(metadata.width, metadata.height)?;
    let bit_depth: u8 = match heic_bit_depth_for_png_conversion_metadata(metadata) {
        Ok(bit_depth) => bit_depth,
        Err(e) => {
            return Err(DecodeError::HeicDecode(e));
        },
    };
    decoded_rgba_layout_from_heic_geometry(
        metadata.width,
        metadata.height,
        bit_depth,
        transforms,
        icc_profile,
    )
}

/// The bit depth of an image with some metadata.
pub open spec fn one_depth(metadata: Result<DecodedHeicImageMetadata, DecodeHeicError>) -> Result<
    u8,
    DecodeHeicError,
> {
    match metadata {
        Err(e) => Err(e),
        Ok(metadata) => match depth_error(metadata.bit_depth_luma, metadata.bit_depth_chroma) {
            Some(e) => Err(e),
            None => Ok(metadata.bit_depth_luma),
        },
    }
}

/// Whether a bit depth is that of the first tile of a grid.
pub open spec fn grid_depth<P: Fn(&[u8]) -> Result<HevcSps, String>>(
    tiles: Seq<HeicGridTileItemData>,
    parse_sps: P,
    depth: Result<u8, DecodeHeicError>,
) -> bool {
    if tiles.len() == 0 {
        depth == Err::<u8, DecodeHeicError>(
            bad_frame(Detail::Plain("grid tile list cannot be empty")),
        )
    } else {
        match item_sps(&tiles[0].hvcc, tiles[0].payload@) {
            Err(e) => depth == Err::<u8, DecodeHeicError>(e),
            Ok(unit) => exists|parsed: Result<HevcSps, String>| #[trigger]
                parses(parse_sps, unit.bytes, parsed) && depth == one_depth(
                    metadata_outcome(parsed, unit.offset),
                ),
        }
    }
}

/// The bit depth of a grid: that of its first tile.
pub fn heic_grid_source_bit_depth_for_png_conversion<P: Fn(&[u8]) -> Result<HevcSps, String>>(
    tiles: &[HeicGridTileItemData],
    parse_sps: &P,
) -> (depth: Result<u8, DecodeHeicError>)
    requires
        forall|unit: &[u8]| #[trigger] parse_sps.requires((unit,)),
    ensures
        grid_depth(tiles@, *parse_sps, depth),
{
    if tiles.len() == 0 {
        return invalid_frame(Detail::Plain("grid tile list cannot be empty"));
    }
    let metadata: DecodedHeicImageMetadata = decode_hevc_metadata_from_hvcc_or_payload(
        &tiles[0].hvcc,
        tiles[0].payload.as_slice(),
        parse_sps,
    )?;
    heic_bit_depth_for_png_conversion_metadata(&metadata)
}

/// What a grid will be like.
pub fn heic_rgba_layout_from_grid<P: Fn(&[u8]) -> Result<HevcSps, String>>(
    descriptor: &HeicGridDescriptor,
    tiles: &[HeicGridTileItemData],
    guardrails: &DecodeGuardrails,
    transforms: &[PrimaryItemTransformProperty],
    icc_profile: Option<Vec<u8>>,
    parse_sps: &P,
) -> (result: Result<DecodedRgbaLayout, DecodeError>)
    requires
        transforms_wf(transforms@),
        forall|unit: &[u8]| #[trigger] parse_sps.requires((unit,)),
    ensures
        match guardrails.pixel_error(
            descriptor.output_width,
            descriptor.output_height,
        ) {
            Some(e) => result == Err::<DecodedRgbaLayout, DecodeError>(e),
            None => exists|depth: Result<u8, DecodeHeicError>| #[trigger]
                grid_depth(tiles@, *parse_sps, depth) && result == (match depth {
                    Err(e) => Err(DecodeError::HeicDecode(e)),
                    Ok(depth) => layout_of(
                        (descriptor.output_width, descriptor.output_height),
                        depth,
                        transforms@,
                        icc_profile,
                    ),
                }),
        },
{
    guardrails.enforce_pixel_count(descriptor.output_width, descriptor.output_height)?;
    let depth: Result<u8, DecodeHeicError> = heic_grid_source_bit_depth_for_png_conversion(
        tiles,
        parse_sps,
    );
    match depth {
        Err(e) => Err(DecodeError::HeicDecode(e)),
        Ok(bit_depth) => decoded_rgba_layout_from_heic_geometry(
            descriptor.output_width,
            descriptor.output_height,
            bit_depth,
            transforms,
            icc_profile,
        ),
    }
}

/// Whether a bit depth is what a sequence header says.
pub open spec fn header_says<H: Fn(&[u8]) -> Option<u8>>(
    header_depth: H,
    bytes: Seq<u8>,
    depth: Option<u8>,
) -> bool {
    exists|slice: &[u8]| slice@ == bytes && #[trigger] header_depth.ensures((slice,), depth)
}

/// Whether a bit depth is that of an AVIF item: what the sequence header in
/// its configuration says, or else the one in its payload.
pub open spec fn avif_depth<
    H: Fn(&[u8]) -> Option<u8>,
    L: Fn() -> Result<Vec<u8>, DecodeAvifError>,
>(
    config_obus: Seq<u8>,
    header_depth: H,
    load_payload: L,
    depth: Result<u8, DecodeAvifError>,
) -> bool {
    exists|configured: Option<u8>| #[trigger]
        header_says(header_depth, config_obus, configured) && match configured {
            Some(bits) => depth == Ok::<u8, DecodeAvifError>(bits),
            None => exists|loaded: Result<Vec<u8>, DecodeAvifError>| #[trigger]
                load_payload.ensures((), loaded) && match loaded {
                    Err(e) => depth == Err::<u8, DecodeAvifError>(e),
                    Ok(payload) => exists|coded: Option<u8>| #[trigger]
                        header_says(header_depth, payload@, coded) && depth == (match coded {
                            Some(bits) => Ok::<u8, DecodeAvifError>(bits),
                            None => Err(DecodeAvifError::MissingSequenceHeader),
                        }),
                },
        }
}

/// The bit depth of an AVIF item. The sequence header normally sits in the
/// configuration; the payload is loaded only where it does not.
pub fn avif_probe_source_bit_depth<
    H: Fn(&[u8]) -> Option<u8>,
    L: Fn() -> Result<Vec<u8>, DecodeAvifError>,
>(config_obus: &[u8], header_depth: &H, load_payload: &L) -> (depth: Result<u8, DecodeAvifError>)
    requires
        forall|bytes: &[u8]| #[trigger] header_depth.requires((bytes,)),
        load_payload.requires(()),
    ensures
        avif_depth(config_obus@, *header_depth, *load_payload, depth),
{
    let configured: Option<u8> = header_depth(config_obus);
    assert(header_says(*header_depth, config_obus@, configured));
    if let Some(bits) = configured {
        return Ok(bits);
    }
    let loaded: Result<Vec<u8>, DecodeAvifError> = load_payload();
    assert(load_payload.ensures((), loaded));
    match loaded {
        Err(e) => Err(e),
        Ok(payload) => {
            let coded: Option<u8> = header_depth(payload.as_slice());
            assert(header_says(*header_depth, payload@, coded));
            match coded {
                Some(bits) => Ok(bits),
                None => Err(DecodeAvifError::MissingSequenceHeader),
            }
        },
    }
}

/// What an AVIF item will be like.
pub fn avif_rgba_layout<
    H: Fn(&[u8]) -> Option<u8>,
    L: Fn() -> Result<Vec<u8>, DecodeAvifError>,
>(
    properties: &AvifPrimaryItemPreflightProperties,
    guardrails: &DecodeGuardrails,
    transforms: &[PrimaryItemTransformProperty],
    icc_profile: Option<Vec<u8>>,
    header_depth: &H,
    load_payload: &L,
) -> (result: Result<DecodedRgbaLayout, DecodeError>)
    requires
        transforms_wf(transforms@),
        forall|bytes: &[u8]| #[trigger] header_depth.requires((bytes,)),
        load_payload.requires(()),
    ensures
        match guardrails.pixel_error(properties.ispe_width, properties.ispe_height) {
            Some(e) => result == Err::<DecodedRgbaLayout, DecodeError>(e),
            None => exists|depth: Result<u8, DecodeAvifError>| #[trigger]
                avif_depth(properties.config_obus@, *header_depth, *load_payload, depth) && result
                    == (match depth {
                    Err(e) => Err(DecodeError::AvifDecode(e)),
                    Ok(depth) => layout_of(
                        (properties.ispe_width, properties.ispe_height),
                        depth,
                        transforms@,
                        icc_profile,
                    ),
                }),
        },
{
    guardrails.enforce_pixel_count(properties.ispe_width, properties.ispe_height)?;
    let depth: Result<u8, DecodeAvifError> = avif_probe_source_bit_depth(
        properties.config_obus.as_slice(),
        header_depth,
        load_payload,
    );
    match depth {
        Err(e) => Err(DecodeError::AvifDecode(e)),
        Ok(bit_depth) => decoded_rgba_layout_from_heic_geometry(
            properties.ispe_width,
            properties.ispe_height,
            bit_depth,
            transforms,
            icc_profile,
        ),
    }
}

/// What a coded item says of its image before it is decoded holds of the
/// decoded image: its size, its layout and its bit depths.
pub proof fn lemma_probe_agrees(
    properties: &HeicPrimaryItemPreflightProperties,
    payload: Seq<u8>,
    parsed: Result<HevcSps, String>,
    decoded: Result<HeicFrame, String>,
    image: HeicView,
)
    requires
        assembled(&properties.hvcc, payload) is Ok,
        coded_image(
            assembled(&properties.hvcc, payload)->Ok_0,
            parsed,
            decoded,
            &properties.colr,
            Some((properties.ispe_width, properties.ispe_height)),
        ) == Ok::<HeicView, DecodeHeicError>(image),
    ensures
        item_sps(&properties.hvcc, payload) is Ok,
        metadata_outcome(parsed, item_sps(&properties.hvcc, payload)->Ok_0.offset) matches Ok(
            metadata,
        ) && announced(properties, metadata) && metadata == (DecodedHeicImageMetadata {
            width: image.width,
            height: image.height,
            bit_depth_luma: image.bit_depth_luma,
            bit_depth_chroma: image.bit_depth_chroma,
            layout: image.layout,
        }),
{
    lemma_same_sps(&properties.hvcc, payload);
}

} // verus!
