//! What a decoded item is, as a whole.
#[allow(unused_imports)]
use crate::alpha::{avif_luma, first_that_fits, fits, is_luma_of};
#[allow(unused_imports)]
use crate::avif::{finished, geometry_error, stream_decoded, AvifPrimaryItemPreflightProperties};
#[allow(unused_imports)]
use crate::decode::{announced_size, avif_decoded, coded_metadata, metadata_of, HeicPrimaryItem};
#[allow(unused_imports)]
use crate::errors::{DecodeAvifError, DecodeError};
#[allow(unused_imports)]
use crate::grid::layout::{HeicGridDescriptor, HeicGridTileReference};
#[allow(unused_imports)]
use crate::grid::tiles::{grid_opacity, placed};
#[allow(unused_imports)]
use crate::grid::window::{bytes_needed, is_window};
#[allow(unused_imports)]
use crate::guardrails::DecodeGuardrails;
#[allow(unused_imports)]
use crate::hevc::coded::HeicPrimaryItemPreflightProperties;
#[allow(unused_imports)]
use crate::layout::layout_of;
#[allow(unused_imports)]
use crate::output::{ScaleToU16, ScaleToU8};
#[allow(unused_imports)]
use crate::rgba::{
    exif_oriented, DecodedRgbaImage, DecodedRgbaPixels, ExifOrientationHint,
};
#[allow(unused_imports)]
use crate::scaling::{to_u16, to_u8};
#[allow(unused_imports)]
use crate::transform::mapping::{transformed_size, PrimaryItemTransformProperty};
#[allow(unused_imports)]
use crate::types::{
    AvifAuxiliaryAlphaPlane, AvifPlaneSamples, DecodedAvifImage, DecodedHeicImageMetadata,
    HeicAuxiliaryAlphaPlane, HeicView,
};
use vstd::prelude::*;

verus! {

/// A decoded AVIF image keeps its planes, its size, its bit depth and its
/// layout, gets the opacity that belongs to it, and is converted as the colour
/// properties say: in full range unless an nclx profile clears the flag, by the
/// codes of the profile or by unspecified ones.
pub proof fn lemma_finished_avif(
    properties: &AvifPrimaryItemPreflightProperties,
    decoded: DecodedAvifImage,
    alpha: Option<AvifAuxiliaryAlphaPlane>,
)
    ensures
        ({
            let image = finished(properties, decoded, alpha);
            let nclx = properties.colr.nclx;
            &&& image.width == decoded.width
            &&& image.height == decoded.height
            &&& image.bit_depth == decoded.bit_depth
            &&& image.layout == decoded.layout
            &&& image.y_plane == decoded.y_plane
            &&& image.u_plane == decoded.u_plane
            &&& image.v_plane == decoded.v_plane
            &&& image.alpha_plane == alpha
            &&& image.ycbcr_range is Full <==> nclx is None || nclx->0.is_undefined
                || nclx->0.full_range_flag
            &&& nclx is Some && !nclx->0.is_undefined ==> image.ycbcr_matrix.matrix_coefficients
                == nclx->0.matrix_coefficients && image.ycbcr_matrix.colour_primaries
                == nclx->0.colour_primaries
            &&& nclx is None || nclx->0.is_undefined ==> image.ycbcr_matrix.matrix_coefficients == 2
                && image.ycbcr_matrix.colour_primaries == 2
        }),
        geometry_error(properties, decoded) is None <==> decoded.width == properties.ispe_width
            && decoded.height == properties.ispe_height,
{
}

/// The stream of an AVIF item is its configuration and then its payload. An
/// image that comes of it has the size that the item announces, and no more
/// pixels than the limit allows.
pub proof fn lemma_avif_item<
    D: Fn(&[u8]) -> Result<DecodedAvifImage, DecodeAvifError>,
    A: Fn(u32, u32) -> Option<AvifAuxiliaryAlphaPlane>,
>(
    properties: &AvifPrimaryItemPreflightProperties,
    payload: Seq<u8>,
    guardrails: &DecodeGuardrails,
    decode_stream: D,
    decode_alpha: A,
    outcome: Result<DecodedAvifImage, DecodeError>,
)
    requires
        avif_decoded(properties, payload, guardrails, decode_stream, decode_alpha, outcome),
    ensures
        exists|slice: &[u8], decoded: Result<DecodedAvifImage, DecodeAvifError>|
            {
                &&& #[trigger] decode_stream.ensures((slice,), decoded)
                &&& slice@.len() == properties.config_obus@.len() + payload.len()
                &&& slice@.take(properties.config_obus@.len() as int) == properties.config_obus@
                &&& slice@.skip(properties.config_obus@.len() as int) == payload
                &&& decoded is Err ==> outcome is Err
            },
        outcome matches Ok(image) ==> image.width == properties.ispe_width && image.height
            == properties.ispe_height && (guardrails.max_pixels is Some ==> image.width
            * image.height <= guardrails.max_pixels->0) && decode_alpha.ensures(
            (image.width, image.height),
            image.alpha_plane,
        ),
{
    let config = properties.config_obus@;
    let stream = config + payload;
    assert(stream.take(config.len() as int) =~= config);
    assert(stream.skip(config.len() as int) =~= payload);
    let decoded = choose|decoded: Result<DecodedAvifImage, DecodeAvifError>|
        #![trigger stream_decoded(decode_stream, stream, decoded)]
        stream_decoded(decode_stream, stream, decoded) && exists|
            image: Result<DecodedAvifImage, DecodeAvifError>,
        |
            {
                &&& #[trigger] crate::avif::primary_image(properties, decoded, decode_alpha, image)
                &&& outcome == (match image {
                    Err(e) => Err::<DecodedAvifImage, DecodeError>(DecodeError::AvifDecode(e)),
                    Ok(image) => match guardrails.pixel_error(image.width, image.height) {
                        Some(e) => Err(e),
                        None => Ok(image),
                    },
                })
            };
    let slice = choose|slice: &[u8]|
        slice@ == stream && #[trigger] decode_stream.ensures((slice,), decoded);
    assert(decode_stream.ensures((slice,), decoded));
}

/// The opacity that an image stands for is its luma, with its size and its bit
/// depth; there is none where the luma has not one sample for each pixel.
pub proof fn lemma_opacity_is_luma(
    avif: DecodedAvifImage,
    heic: HeicView,
    plane: Option<HeicAuxiliaryAlphaPlane>,
)
    requires
        is_luma_of(heic, plane),
    ensures
        match avif_luma(avif) {
            Some(alpha) => {
                &&& alpha.width == avif.width
                &&& alpha.height == avif.height
                &&& alpha.bit_depth == avif.bit_depth
                &&& alpha.samples == avif.y_plane.samples
                &&& fits(Some(alpha), avif.width, avif.height)
            },
            None => avif.width * avif.height > usize::MAX || (match avif.y_plane.samples {
                AvifPlaneSamples::U8(samples) => samples@.len() != avif.width * avif.height,
                AvifPlaneSamples::U16(samples) => samples@.len() != avif.width * avif.height,
            }),
        },
        match plane {
            Some(alpha) => {
                &&& alpha.width == heic.width
                &&& alpha.height == heic.height
                &&& alpha.bit_depth == heic.bit_depth_luma
                &&& alpha.samples@ == heic.y_plane.samples
                &&& fits(Some(alpha), heic.width, heic.height)
            },
            None => heic.width * heic.height > usize::MAX || heic.y_plane.samples.len()
                != heic.width * heic.height,
        },
{
}

/// Of several candidates the first whose size is that of the image is its
/// opacity, and it has none where no candidate has that size.
pub proof fn lemma_first_candidate(
    planes: Seq<Option<AvifAuxiliaryAlphaPlane>>,
    count: int,
    width: u32,
    height: u32,
    chosen: Option<AvifAuxiliaryAlphaPlane>,
)
    requires
        first_that_fits(planes, count, width, height, chosen),
    ensures
        chosen matches Some(plane) ==> plane.width == width && plane.height == height
            && planes.len() > 0 && planes[planes.len() - 1] == chosen,
        chosen is None ==> planes.len() == count,
        forall|k: int|
            0 <= k < planes.len() && (chosen is None || k < planes.len() - 1) ==> !(
            #[trigger] planes[k] is Some && planes[k]->0.width == width && planes[k]->0.height
                == height),
{
    assert forall|k: int|
        0 <= k < planes.len() && (chosen is None || k < planes.len() - 1) implies !(
    #[trigger] planes[k] is Some && planes[k]->0.width == width && planes[k]->0.height
        == height) by {
        if k < planes.len() - 1 {
            assert(!fits(planes[k], width, height));
        } else {
            assert(planes.last() == planes[k]);
        }
    }
}

/// What an image will be like is what it is like: its size is the size behind
/// the transforms, its bit depth that of the source, and it is stored in eight
/// bits exactly where that is enough.
pub proof fn lemma_layout_of_image(
    size: (u32, u32),
    depth: u8,
    transforms: Seq<PrimaryItemTransformProperty>,
    profile: Option<Vec<u8>>,
)
    ensures
        layout_of(size, depth, transforms, profile) matches Ok(layout) ==> {
            &&& transformed_size(transforms, size.0, size.1, transforms.len()) is Ok
            &&& transformed_size(transforms, size.0, size.1, transforms.len())->Ok_0 == (
                layout.width,
                layout.height,
            )
            &&& layout.source_bit_depth == depth
            &&& layout.storage_bit_depth == (if depth <= 8 {
                8u8
            } else {
                16u8
            })
            &&& layout.icc_profile == profile
        },
        transforms.len() == 0 ==> (layout_of(size, depth, transforms, profile) matches Ok(layout)
            && layout.width == size.0 && layout.height == size.1),
{
}

/// The metadata of an image are its own; those of a coded item are accepted
/// where they have the size that the item announces; and the announced size of
/// a grid is that of its image.
pub proof fn lemma_metadata_of_image(
    image: HeicView,
    properties: &HeicPrimaryItemPreflightProperties,
    metadata: DecodedHeicImageMetadata,
    primary: &HeicPrimaryItem,
)
    ensures
        metadata_of(image).width == image.width,
        metadata_of(image).height == image.height,
        metadata_of(image).bit_depth_luma == image.bit_depth_luma,
        metadata_of(image).bit_depth_chroma == image.bit_depth_chroma,
        metadata_of(image).layout == image.layout,
        coded_metadata(properties, Ok(metadata)) is Ok <==> metadata.width == properties.ispe_width
            && metadata.height == properties.ispe_height,
        coded_metadata(properties, Ok(metadata)) matches Ok(kept) ==> kept == metadata,
        match primary {
            HeicPrimaryItem::Grid(grid) => announced_size(primary) == (
                grid.descriptor.output_width,
                grid.descriptor.output_height,
            ),
            HeicPrimaryItem::Coded(own, _) => announced_size(primary) == (
                own.ispe_width,
                own.ispe_height,
            ),
        },
{
}

/// An EXIF orientation is applied where it asks for a change, from 2 to 8, and
/// the file does not turn or mirror the image itself.
pub proof fn lemma_orientation_applies(hint: ExifOrientationHint)
    ensures
        hint.applies() <==> hint.exif_orientation is Some && 2 <= hint.exif_orientation->0
            && hint.exif_orientation->0 <= 8 && !hint.primary_item_has_orientation_transform,
{
}

/// An image that is set upright keeps its bit depth and its profile. Its pixel
/// in column `x` and row `y` is the stored one of that orientation; an
/// orientation that is none of 2 to 8 changes nothing.
pub proof fn lemma_upright_image(
    image: DecodedRgbaImage,
    orientation: u8,
    result: DecodedRgbaImage,
    x: int,
    y: int,
    channel: int,
)
    requires
        exif_oriented(image, orientation, Ok(result)),
        0 <= x < result.width,
        0 <= y < result.height,
        0 <= channel < 4,
    ensures
        result.source_bit_depth == image.source_bit_depth,
        result.icc_profile == image.icc_profile,
        !(2 <= orientation <= 8) ==> result == image,
        2 <= orientation <= 4 ==> result.width == image.width && result.height == image.height,
        5 <= orientation <= 8 ==> result.width == image.height && result.height == image.width,
        2 <= orientation <= 8 ==> {
            let row = if orientation == 2 {
                y
            } else if orientation == 3 || orientation == 4 {
                image.height - 1 - y
            } else if orientation == 5 || orientation == 8 {
                x
            } else {
                image.height - 1 - x
            };
            let column = if orientation == 4 {
                x
            } else if orientation == 2 || orientation == 3 {
                image.width - 1 - x
            } else if orientation == 5 || orientation == 6 {
                y
            } else {
                image.width - 1 - y
            };
            let to = 4 * (y * result.width + x) + channel;
            let from = 4 * (row * image.width + column) + channel;
            match (image.pixels, result.pixels) {
                (DecodedRgbaPixels::U8(stored), DecodedRgbaPixels::U8(shown)) => shown@[to]
                    == stored@[from],
                (DecodedRgbaPixels::U16(stored), DecodedRgbaPixels::U16(shown)) => shown@[to]
                    == stored@[from],
                _ => false,
            }
        },
{
    if 2 <= orientation <= 8 {
        assert(4 * (image.width * image.height) == image.width * image.height * 4);
        match (image.pixels, result.pixels) {
            (DecodedRgbaPixels::U8(stored), DecodedRgbaPixels::U8(shown)) => {
                crate::laws::turns::lemma_exif_upright(
                    orientation as u16,
                    image.width,
                    image.height,
                    stored@,
                    (result.width, result.height, shown@),
                    x,
                    y,
                    channel,
                );
            },
            (DecodedRgbaPixels::U16(stored), DecodedRgbaPixels::U16(shown)) => {
                crate::laws::turns::lemma_exif_upright(
                    orientation as u16,
                    image.width,
                    image.height,
                    stored@,
                    (result.width, result.height, shown@),
                    x,
                    y,
                    channel,
                );
            },
            _ => {},
        }
    }
}

/// Tile `row * columns + column` of a grid begins `column` tiles to the right
/// and `row` tiles down.
pub proof fn lemma_tile_begins_at(
    descriptor: HeicGridDescriptor,
    reference: HeicGridTileReference,
    row: int,
    column: int,
    origin: (u32, u32),
)
    requires
        0 <= column < descriptor.columns,
        0 <= row < descriptor.rows,
        placed(descriptor, reference, row * descriptor.columns + column, origin),
    ensures
        origin.0 == column * reference.tile_width,
        origin.1 == row * reference.tile_height,
{
    crate::laws::places::lemma_row_major(
        column,
        row,
        descriptor.columns as int,
        descriptor.rows as int,
    );
}

/// The opacity of a grid's pixel is the sample of its opacity plane at that
/// place, scaled from the bit depth of the plane; without a plane it is full.
pub proof fn lemma_opacity_of_grid(alpha: &HeicAuxiliaryAlphaPlane, width: u32, x: int, y: int)
    ensures
        grid_opacity::<u8, ScaleToU8>(Some(alpha), width)((x, y)) == to_u8(
            alpha.samples@[y * width + x],
            alpha.bit_depth,
        ),
        grid_opacity::<u16, ScaleToU16>(Some(alpha), width)((x, y)) == to_u16(
            alpha.samples@[y * width + x],
            alpha.bit_depth,
        ),
        grid_opacity::<u8, ScaleToU8>(None, width)((x, y)) == 255,
        grid_opacity::<u16, ScaleToU16>(None, width)((x, y)) == 65535,
{
}

/// Tiles that are decoded at once need the sum of what each needs, and at
/// least one byte each. Several are decoded at once only within the budget of
/// 64 MiB, by no more threads than eight and than the machine gives, and one
/// always is.
pub proof fn lemma_tiles_at_once(
    estimates: Seq<Option<u64>>,
    count: nat,
    threads: usize,
    window: usize,
)
    requires
        count < estimates.len(),
    ensures
        bytes_needed(estimates, 0) == 0,
        estimates[count as int] matches Some(own) ==> bytes_needed(estimates, count + 1)
            == bytes_needed(estimates, count) + (if own == 0 {
            1int
        } else {
            own as int
        }),
        is_window(estimates, threads, window) ==> 1 <= window <= 8 && (window > 1 ==> window
            <= threads && window <= estimates.len() && bytes_needed(estimates, window as nat)
            <= 67108864),
{
}

} // verus!
