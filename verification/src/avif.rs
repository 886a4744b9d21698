//! The primary item of an AVIF file.
use crate::errors::{ContainerError, DecodeAvifError};
use crate::fourcc::{four_cc_is, FourCc};
#[allow(unused_imports)]
use crate::fourcc::spells;
use crate::text::{Arg, Detail};
use crate::types::{AvifAuxiliaryAlphaPlane, DecodedAvifImage, PrimaryItemColorProperties};
use crate::ycbcr::{ycbcr_matrix_from_primary_colr, ycbcr_range_from_primary_colr};
#[allow(unused_imports)]
use crate::ycbcr::{matrix_of, range_of};
use vstd::prelude::*;

verus! {

/// What the properties of the primary item say.
#[derive(Clone, Debug, PartialEq, Eq)]
pub struct AvifPrimaryItemPreflightProperties {
    pub ispe_width: u32,
    pub ispe_height: u32,
    pub colr: PrimaryItemColorProperties,
    /// The units that come before the payload.
    pub config_obus: Vec<u8>,
}

/// Whether an item type is that of an AV1 image (`av01`).
pub open spec fn is_av1_item(item_type: Option<FourCc>) -> bool {
    item_type matches Some(code) && spells(code, 97, 118, 48, 49)
}

/// What is said of a primary item without a type.
pub open spec fn missing_type(item_id: u32) -> Detail {
    Detail::One("primary item {} has no item type", Arg::Num(item_id as i128))
}

/// What is said of a primary item of another type.
pub open spec fn unexpected_type(item_id: u32, code: FourCc) -> Detail {
    Detail::Two(
        "primary item {} has the type {}, not av01",
        Arg::Num(item_id as i128),
        Arg::FourCc(code),
    )
}

/// Refuses a primary item that is no AV1 image.
pub fn require_av1_item(item_id: u32, item_type: Option<FourCc>) -> (result: Result<
    (),
    DecodeAvifError,
>)
    ensures
        match result {
            Ok(()) => is_av1_item(item_type),
            Err(DecodeAvifError::ExtractPrimaryPayload(
                ContainerError::UnexpectedPrimaryItemType { message },
            )) => !is_av1_item(item_type) && item_type is Some && message@ == unexpected_type(
                item_id,
                item_type->0,
            ).text(),
            Err(DecodeAvifError::ExtractPrimaryPayload(ContainerError::Other { message })) => {
                item_type is None && message@ == missing_type(item_id).text()
            },
            Err(_) => false,
        },
{
    match item_type {
        None => Err(
            DecodeAvifError::ExtractPrimaryPayload(
                ContainerError::Other {
                    message: Detail::One(
                        "primary item {} has no item type",
                        Arg::Num(item_id as i128),
                    ).render(),
                },
            ),
        ),
        Some(code) => if four_cc_is(code, 97, 118, 48, 49) {
            Ok(())
        } else {
            Err(
                DecodeAvifError::ExtractPrimaryPayload(
                    ContainerError::UnexpectedPrimaryItemType {
                        message: Detail::Two(
                            "primary item {} has the type {}, not av01",
                            Arg::Num(item_id as i128),
                            Arg::FourCc(code),
                        ).render(),
                    },
                ),
            )
        },
    }
}

/// The stream that a decoder is given: the units of the configuration and the
/// payload.
pub fn av1_stream(config_obus: &[u8], payload: &[u8]) -> (stream: Vec<u8>)
    ensures
        stream@ == config_obus@ + payload@,
{
    let mut stream: Vec<u8> = Vec::new();
    stream.extend_from_slice(config_obus);
    stream.extend_from_slice(payload);
    assert(stream@ =~= config_obus@ + payload@);
    stream
}

/// Whether an image is what decoding a stream came to.
pub open spec fn stream_decoded<D: Fn(&[u8]) -> Result<DecodedAvifImage, DecodeAvifError>>(
    decode_stream: D,
    stream: Seq<u8>,
    decoded: Result<DecodedAvifImage, DecodeAvifError>,
) -> bool {
    exists|slice: &[u8]| slice@ == stream && #[trigger] decode_stream.ensures((slice,), decoded)
}

/// A decoded image with the colours that the properties ask for and with an
/// opacity, where it has the size that the properties announce.
pub open spec fn finished(
    properties: &AvifPrimaryItemPreflightProperties,
    decoded: DecodedAvifImage,
    alpha_plane: Option<AvifAuxiliaryAlphaPlane>,
) -> DecodedAvifImage {
    DecodedAvifImage {
        ycbcr_range: range_of(&properties.colr),
        ycbcr_matrix: matrix_of(&properties.colr),
        alpha_plane,
        ..decoded
    }
}

/// Why a decoded image is refused, if it is.
pub open spec fn geometry_error(
    properties: &AvifPrimaryItemPreflightProperties,
    decoded: DecodedAvifImage,
) -> Option<DecodeAvifError> {
    if decoded.width != properties.ispe_width || decoded.height != properties.ispe_height {
        Some(
            DecodeAvifError::DecodedGeometryMismatch {
                expected_width: properties.ispe_width,
                expected_height: properties.ispe_height,
                actual_width: decoded.width,
                actual_height: decoded.height,
            },
        )
    } else {
        None
    }
}

/// Whether a result is the image of the primary item, given what decoding its
/// stream came to.
pub open spec fn primary_image<A: Fn(u32, u32) -> Option<AvifAuxiliaryAlphaPlane>>(
    properties: &AvifPrimaryItemPreflightProperties,
    decoded: Result<DecodedAvifImage, DecodeAvifError>,
    decode_alpha: A,
    result: Result<DecodedAvifImage, DecodeAvifError>,
) -> bool {
    match decoded {
        Err(e) => result == Err::<DecodedAvifImage, DecodeAvifError>(e),
        Ok(image) => match geometry_error(properties, image) {
            Some(e) => result == Err::<DecodedAvifImage, DecodeAvifError>(e),
            None => {
                &&& result matches Ok(shown)
                &&& decode_alpha.ensures((image.width, image.height), shown.alpha_plane)
                &&& shown == finished(properties, image, shown.alpha_plane)
            },
        },
    }
}

/// The image of the primary item: its stream is decoded by `decode_stream`,
/// and the opacity that belongs to it by `decode_alpha`, which is given the
/// size of the image.
pub fn decode_primary_avif_to_image<
    D: Fn(&[u8]) -> Result<DecodedAvifImage, DecodeAvifError>,
    A: Fn(u32, u32) -> Option<AvifAuxiliaryAlphaPlane>,
>(
    properties: &AvifPrimaryItemPreflightProperties,
    payload: &[u8],
    decode_stream: &D,
    decode_alpha: &A,
) -> (result: Result<DecodedAvifImage, DecodeAvifError>)
    requires
        forall|stream: &[u8]| #[trigger] decode_stream.requires((stream,)),
        forall|width: u32, height: u32| #[trigger] decode_alpha.requires((width, height)),
    ensures
        exists|decoded: Result<DecodedAvifImage, DecodeAvifError>|
            {
                &&& #[trigger] stream_decoded(
                    *decode_stream,
                    properties.config_obus@ + payload@,
                    decoded,
                )
                &&& primary_image(properties, decoded, *decode_alpha, result)
            },
{
    let stream: Vec<u8> = av1_stream(properties.config_obus.as_slice(), payload);
    let decoded: Result<DecodedAvifImage, DecodeAvifError> = decode_stream(stream.as_slice());
    assert(stream_decoded(*decode_stream, properties.config_obus@ + payload@, decoded));
    let mut image: DecodedAvifImage = match decoded {
        Ok(image) => image,
        Err(e) => {
            return Err(e);
        },
    };
    image.ycbcr_range = ycbcr_range_from_primary_colr(&properties.colr);
    image.ycbcr_matrix = ycbcr_matrix_from_primary_colr(&properties.colr);
    if image.width != properties.ispe_width || image.height != properties.ispe_height {
        return Err(
            DecodeAvifError::DecodedGeometryMismatch {
                expected_width: properties.ispe_width,
                expected_height: properties.ispe_height,
                actual_width: image.width,
                actual_height: image.height,
            },
        );
    }
    image.alpha_plane = decode_alpha(image.width, image.height);
    Ok(image)
}

} // verus!
