//! Coded items: from their parameter sets and payload to a decoded image.
use super::frame::{decode_hevc_stream_to_image, HeicFrame};
#[allow(unused_imports)]
use super::frame::{frame_outcome, no_frame_error};
use super::sps::{
    decode_hevc_stream_metadata_from_sps, validate_decoded_heic_geometry_against_ispe,
    validate_decoded_heic_image_against_metadata, HevcSps,
};
#[allow(unused_imports)]
use super::sps::{metadata_error, metadata_outcome, parses, stream_sps};
#[allow(unused_imports)]
use super::stream::assembled;
use super::stream::{assemble_heic_hevc_stream_from_components, HevcDecoderConfigurationBox};
use crate::errors::{invalid_frame, DecodeHeicError};
#[allow(unused_imports)]
use crate::errors::bad_frame;
use crate::text::{Arg, Detail};
use crate::transform::mapping::PrimaryItemTransformProperty;
#[allow(unused_imports)]
use crate::transform::mapping::transforms_wf;
use crate::types::{DecodedHeicImage, DecodedHeicImageMetadata, PrimaryItemColorProperties};
#[allow(unused_imports)]
use crate::types::HeicView;
#[allow(unused_imports)]
use crate::ycbcr::{matrix_override, range_override};
use crate::ycbcr::{
    ycbcr_matrix_override_from_primary_colr, ycbcr_range_override_from_primary_colr,
};
use crate::yuv::crop::apply_heic_grid_tile_transforms;
#[allow(unused_imports)]
use crate::yuv::crop::tile_transformed;
use vstd::prelude::*;

verus! {

/// An image with the range and the matrix that colour properties ask for,
/// where they ask for any.
pub open spec fn recoloured(decoded: HeicView, colr: &PrimaryItemColorProperties) -> HeicView {
    HeicView {
        ycbcr_range: match range_override(colr) {
            Some(range) => range,
            None => decoded.ycbcr_range,
        },
        ycbcr_matrix: match matrix_override(colr) {
            Some(matrix) => matrix,
            None => decoded.ycbcr_matrix,
        },
        ..decoded
    }
}

/// What the stream of a coded item describes, or why it cannot be decoded, by
/// what parsing its parameter set came to. The container may give the size of
/// the image.
pub open spec fn described(
    stream: Seq<u8>,
    parsed: Result<HevcSps, String>,
    expected: Option<(u32, u32)>,
) -> Result<DecodedHeicImageMetadata, DecodeHeicError> {
    match stream_sps(stream) {
        Err(e) => Err(e),
        Ok(unit) => match metadata_outcome(parsed, unit.offset) {
            Err(e) => Err(e),
            Ok(metadata) => match expected {
                Some((width, height)) if metadata.width != width || metadata.height != height => {
                    Err(
                        DecodeHeicError::DecodedGeometryMismatch {
                            expected_width: width,
                            expected_height: height,
                            actual_width: metadata.width,
                            actual_height: metadata.height,
                        },
                    )
                },
                _ => match no_frame_error(stream) {
                    Some(e) => Err(e),
                    None => Ok(metadata),
                },
            },
        },
    }
}

/// The image of a coded item, or why there is none, by what parsing its
/// parameter set and decoding its frame came to.
pub open spec fn coded_image(
    stream: Seq<u8>,
    parsed: Result<HevcSps, String>,
    decoded: Result<HeicFrame, String>,
    colr: &PrimaryItemColorProperties,
    expected: Option<(u32, u32)>,
) -> Result<HeicView, DecodeHeicError> {
    match described(stream, parsed, expected) {
        Err(e) => Err(e),
        Ok(metadata) => match frame_outcome(decoded) {
            Err(e) => Err(e),
            Ok(image) => match metadata_error(image, metadata) {
                Some(e) => Err(e),
                None => Ok(recoloured(image, colr)),
            },
        },
    }
}

/// Whether parsing the parameter set of a stream may have come to `parsed`,
/// where there is one.
pub open spec fn sps_parsed<P: Fn(&[u8]) -> Result<HevcSps, String>>(
    parse_sps: P,
    stream: Seq<u8>,
    parsed: Result<HevcSps, String>,
) -> bool {
    stream_sps(stream) matches Ok(unit) ==> parses(parse_sps, unit.bytes, parsed)
}

/// Whether decoding the frame of a stream may have come to `decoded`.
pub open spec fn frame_decoded<B: Fn(&[u8]) -> Result<HeicFrame, String>>(
    decode_frame: B,
    stream: Seq<u8>,
    decoded: Result<HeicFrame, String>,
) -> bool {
    exists|slice: &[u8]| slice@ == stream && #[trigger] decode_frame.ensures((slice,), decoded)
}

/// Whether decoding a coded item came to `result`, for some outcomes of
/// parsing its parameter set and decoding its frame. The frame is decoded only
/// where the stream describes one.
pub open spec fn coded_result<
    P: Fn(&[u8]) -> Result<HevcSps, String>,
    B: Fn(&[u8]) -> Result<HeicFrame, String>,
>(
    parse_sps: P,
    decode_frame: B,
    stream: Seq<u8>,
    colr: &PrimaryItemColorProperties,
    expected: Option<(u32, u32)>,
    parsed: Result<HevcSps, String>,
    decoded: Result<HeicFrame, String>,
    result: Result<HeicView, DecodeHeicError>,
) -> bool {
    &&& sps_parsed(parse_sps, stream, parsed)
    &&& described(stream, parsed, expected) is Ok ==> frame_decoded(decode_frame, stream, decoded)
    &&& result == coded_image(stream, parsed, decoded, colr, expected)
}

/// What a decoded image or an error holds.
pub open spec fn viewed(result: Result<DecodedHeicImage, DecodeHeicError>) -> Result<
    HeicView,
    DecodeHeicError,
> {
    match result {
        Ok(image) => Ok(image@),
        Err(e) => Err(e),
    }
}

/// Decodes the stream of a coded item, by `parse_sps` and `decode_frame`. What
/// they came to comes with the result.
fn decode_stream<
    P: Fn(&[u8]) -> Result<HevcSps, String>,
    B: Fn(&[u8]) -> Result<HeicFrame, String>,
>(
    stream: &[u8],
    colr: &PrimaryItemColorProperties,
    expected: Option<(u32, u32)>,
    parse_sps: &P,
    decode_frame: &B,
) -> (outcome: (
    Result<DecodedHeicImage, DecodeHeicError>,
    Ghost<(Result<HevcSps, String>, Result<HeicFrame, String>)>,
))
    requires
        forall|unit: &[u8]| #[trigger] parse_sps.requires((unit,)),
        forall|unit: &[u8]| #[trigger] decode_frame.requires((unit,)),
    ensures
        coded_result(
            *parse_sps,
            *decode_frame,
            stream@,
            colr,
            expected,
            outcome.1@.0,
            outcome.1@.1,
            viewed(outcome.0),
        ),
{
    let read: Result<DecodedHeicImageMetadata, DecodeHeicError> =
        decode_hevc_stream_metadata_from_sps(stream, parse_sps);
    let ghost unit = stream_sps(stream@)->Ok_0;
    let ghost parsed: Result<HevcSps, String> = choose|parsed: Result<HevcSps, String>|
        #[trigger] parses(*parse_sps, unit.bytes, parsed) && read == metadata_outcome(
            parsed,
            unit.offset,
        );
    let ghost nothing: Result<HeicFrame, String> = arbitrary();
    let metadata: DecodedHeicImageMetadata = match read {
        Err(e) => {
            return (Err(e), Ghost((parsed, nothing)));
        },
        Ok(metadata) => metadata,
    };
    if let Some((width, height)) = expected {
        match validate_decoded_heic_geometry_against_ispe(&metadata, width, height) {
            Err(e) => {
                return (Err(e), Ghost((parsed, nothing)));
            },
            Ok(()) => {},
        }
    }
    let frame: Result<DecodedHeicImage, DecodeHeicError> = decode_hevc_stream_to_image(
        stream,
        decode_frame,
    );
    let ghost decoded: Result<HeicFrame, String> = choose|decoded: Result<HeicFrame, String>|
        #[trigger] decode_frame.ensures((stream,), decoded) && (match frame_outcome(decoded) {
            Err(e) => frame == Err::<DecodedHeicImage, DecodeHeicError>(e),
            Ok(image) => frame is Ok && frame->Ok_0@ == image,
        });
    let image: DecodedHeicImage = match frame {
        Err(e) => {
            return (Err(e), Ghost((parsed, decoded)));
        },
        Ok(image) => image,
    };
    let ghost bare = image@;
    let range = match ycbcr_range_override_from_primary_colr(colr) {
        Some(range) => range,
        None => image.ycbcr_range,
    };
    let matrix = match ycbcr_matrix_override_from_primary_colr(colr) {
        Some(matrix) => matrix,
        None => image.ycbcr_matrix,
    };
    let image: DecodedHeicImage = DecodedHeicImage {
        ycbcr_range: range,
        ycbcr_matrix: matrix,
        ..image
    };
    assert(image@ == recoloured(bare, colr));
    match validate_decoded_heic_image_against_metadata(&image, &metadata) {
        Err(e) => {
            assert(metadata_error(bare, metadata) == Some(e));
            return (Err(e), Ghost((parsed, decoded)));
        },
        Ok(()) => {},
    }
    (Ok(image), Ghost((parsed, decoded)))
}

/// A tile of a grid, as the container holds it.
#[derive(Clone, Debug, PartialEq, Eq)]
pub struct HeicGridTileItemData {
    pub hvcc: HevcDecoderConfigurationBox,
    pub colr: PrimaryItemColorProperties,
    pub transforms: Vec<PrimaryItemTransformProperty>,
    pub payload: Vec<u8>,
}

/// A decoded tile with its own transforms carried out.
pub open spec fn finished_tile(
    decoded: Result<HeicView, DecodeHeicError>,
    transforms: Seq<PrimaryItemTransformProperty>,
) -> Result<HeicView, DecodeHeicError> {
    match decoded {
        Err(e) => Err(e),
        Ok(image) => tile_transformed(image, transforms, transforms.len()),
    }
}

/// Decodes a tile of a grid, by `parse_sps` and `decode_frame`.
pub fn decode_heic_grid_tile_to_image<
    P: Fn(&[u8]) -> Result<HevcSps, String>,
    B: Fn(&[u8]) -> Result<HeicFrame, String>,
>(tile: &HeicGridTileItemData, parse_sps: &P, decode_frame: &B) -> (result: Result<
    DecodedHeicImage,
    DecodeHeicError,
>)
    requires
        transforms_wf(tile.transforms@),
        forall|unit: &[u8]| #[trigger] parse_sps.requires((unit,)),
        forall|unit: &[u8]| #[trigger] decode_frame.requires((unit,)),
    ensures
        match assembled(&tile.hvcc, tile.payload@) {
            Err(e) => result == Err::<DecodedHeicImage, DecodeHeicError>(e),
            Ok(stream) => exists|
                parsed: Result<HevcSps, String>,
                decoded: Result<HeicFrame, String>,
                image: Result<HeicView, DecodeHeicError>,
            |
                {
                    &&& #[trigger] coded_result(
                        *parse_sps,
                        *decode_frame,
                        stream,
                        &tile.colr,
                        None,
                        parsed,
                        decoded,
                        image,
                    )
                    &&& viewed(result) == finished_tile(image, tile.transforms@)
                },
        },
{
    let stream: Vec<u8> = assemble_heic_hevc_stream_from_components(
        &tile.hvcc,
        tile.payload.as_slice(),
    )?;
    let (outcome, Ghost(came)) = decode_stream(
        stream.as_slice(),
        &tile.colr,
        None,
        parse_sps,
        decode_frame,
    );
    assert(coded_result(
        *parse_sps,
        *decode_frame,
        stream@,
        &tile.colr,
        None,
        came.0,
        came.1,
        viewed(outcome),
    ));
    match outcome {
        Err(e) => Err(e),
        Ok(image) => apply_heic_grid_tile_transforms(image, tile.transforms.as_slice()),
    }
}

/// What the container says of a coded primary item.
#[derive(Clone, Debug, PartialEq, Eq)]
pub struct HeicPrimaryItemPreflightProperties {
    pub item_id: u32,
    pub hvcc: HevcDecoderConfigurationBox,
    pub ispe_width: u32,
    pub ispe_height: u32,
    pub colr: PrimaryItemColorProperties,
}

/// The error for properties of another item than the payload.
pub open spec fn item_mismatch(properties_id: u32, payload_id: u32) -> Option<DecodeHeicError> {
    if properties_id != payload_id {
        Some(
            bad_frame(
                Detail::Two(
                    "primary item_ID mismatch between HEIC property parse ({}) and extracted payload ({})",
                    Arg::Num(properties_id as i128),
                    Arg::Num(payload_id as i128),
                ),
            ),
        )
    } else {
        None
    }
}

/// Checks that the properties are those of the item that the payload is of.
pub fn validate_heic_coded_item_preflight(
    properties: &HeicPrimaryItemPreflightProperties,
    payload_item_id: u32,
) -> (result: Result<(), DecodeHeicError>)
    ensures
        match item_mismatch(properties.item_id, payload_item_id) {
            Some(e) => result == Err::<(), DecodeHeicError>(e),
            None => result is Ok,
        },
{
    if properties.item_id != payload_item_id {
        return invalid_frame(
            Detail::Two(
                "primary item_ID mismatch between HEIC property parse ({}) and extracted payload ({})",
                Arg::Num(properties.item_id as i128),
                Arg::Num(payload_item_id as i128),
            ),
        );
    }
    Ok(())
}

/// Whether an image is what decoding the primary item, a coded image, came
/// to.
pub open spec fn coded_item_decoded<
    P: Fn(&[u8]) -> Result<HevcSps, String>,
    B: Fn(&[u8]) -> Result<HeicFrame, String>,
>(
    properties: &HeicPrimaryItemPreflightProperties,
    payload_item_id: u32,
    payload: Seq<u8>,
    parse_sps: P,
    decode_frame: B,
    image: Result<HeicView, DecodeHeicError>,
) -> bool {
    match item_mismatch(properties.item_id, payload_item_id) {
        Some(e) => image == Err::<HeicView, DecodeHeicError>(e),
        None => match assembled(&properties.hvcc, payload) {
            Err(e) => image == Err::<HeicView, DecodeHeicError>(e),
            Ok(stream) => exists|
                parsed: Result<HevcSps, String>,
                decoded: Result<HeicFrame, String>,
            | #[trigger]
                coded_result(
                    parse_sps,
                    decode_frame,
                    stream,
                    &properties.colr,
                    Some((properties.ispe_width, properties.ispe_height)),
                    parsed,
                    decoded,
                    image,
                ),
        },
    }
}

/// Decodes the coded primary item, by `parse_sps` and `decode_frame`.
pub fn decode_primary_heic_coded_item_to_image<
    P: Fn(&[u8]) -> Result<HevcSps, String>,
    B: Fn(&[u8]) -> Result<HeicFrame, String>,
>(
    properties: &HeicPrimaryItemPreflightProperties,
    payload_item_id: u32,
    payload: &[u8],
    parse_sps: &P,
    decode_frame: &B,
) -> (result: Result<DecodedHeicImage, DecodeHeicError>)
    requires
        forall|unit: &[u8]| #[trigger] parse_sps.requires((unit,)),
        forall|unit: &[u8]| #[trigger] decode_frame.requires((unit,)),
    ensures
        coded_item_decoded(
            properties,
            payload_item_id,
            payload@,
            *parse_sps,
            *decode_frame,
            viewed(result),
        ),
{
    validate_heic_coded_item_preflight(properties, payload_item_id)?;
    let stream: Vec<u8> = assemble_heic_hevc_stream_from_components(&properties.hvcc, payload)?;
    let (outcome, Ghost(came)) = decode_stream(
        stream.as_slice(),
        &properties.colr,
        Some((properties.ispe_width, properties.ispe_height)),
        parse_sps,
        decode_frame,
    );
    assert(coded_result(
        *parse_sps,
        *decode_frame,
        stream@,
        &properties.colr,
        Some((properties.ispe_width, properties.ispe_height)),
        came.0,
        came.1,
        viewed(outcome),
    ));
    outcome
}

} // verus!
