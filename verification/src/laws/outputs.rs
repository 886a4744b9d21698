//! What is handed out of a decoded image.
#[allow(unused_imports)]
use crate::errors::{DecodeAvifError, DecodeHeicError};
#[allow(unused_imports)]
use crate::grid::tiles::tile_sample;
#[allow(unused_imports)]
use crate::guardrails::DecodeGuardrails;
#[allow(unused_imports)]
use crate::items::{info_of, ItemGraph, ItemProperty, ItemReference};
use crate::laws::items::lemma_first_entry;
use crate::laws::places::lemma_row_major;
use crate::laws::turns::lemma_transformed_sample;
#[allow(unused_imports)]
use crate::layout::{avif_depth, metadata_layout};
#[allow(unused_imports)]
use crate::linked::{
    alpha_candidate, alpha_candidates, assists, configuration_of, describes, exif_place,
    exif_places, AlphaCandidate, AlphaCodec,
};
#[allow(unused_imports)]
use crate::output::{ScaleToU16, ScaleToU8};
#[allow(unused_imports)]
use crate::png_file::{image_file, png_encoded, unrepeated};
#[allow(unused_imports)]
use crate::rgba::{DecodedRgbaImage, DecodedRgbaPixels};
#[allow(unused_imports)]
use crate::scaling::{to_u16, to_u8};
#[allow(unused_imports)]
use crate::transform::mapping::PrimaryItemTransformProperty;
#[allow(unused_imports)]
use crate::transform::pixels::{place_of, sources};
#[allow(unused_imports)]
use crate::types::{
    DecodedHeicImageMetadata, DecodedUncompressedImage, HeicAuxiliaryAlphaPlane, HeicView,
};
#[allow(unused_imports)]
use crate::uncompressed::output::{rgba_shows, scaled_samples};
#[allow(unused_imports)]
use crate::ycbcr::PreparedYcbcrToRgb;
#[allow(unused_imports)]
use crate::yuv::crop::{crop_outcome, leading_crops, tile_transformed};
#[allow(unused_imports)]
use crate::yuv::image::YuvImage;
#[allow(unused_imports)]
use crate::yuv::rgba::{composited, plane_opacity, rgba_image_shows};
use vstd::prelude::*;

verus! {

/// Laying an opacity plane over an image changes nothing but the opacity of
/// each pixel, which becomes the sample of the plane for that pixel.
pub proof fn lemma_opacity_laid_over(
    alpha: &HeicAuxiliaryAlphaPlane,
    eight: (Seq<u8>, Seq<u8>),
    sixteen: (Seq<u16>, Seq<u16>),
    pixel: int,
    channel: int,
)
    requires
        composited::<u8, ScaleToU8>(eight.0, eight.1, alpha),
        composited::<u16, ScaleToU16>(sixteen.0, sixteen.1, alpha),
        0 <= pixel,
        4 * pixel + 3 < eight.0.len(),
        4 * pixel + 3 < sixteen.0.len(),
        0 <= channel < 3,
    ensures
        eight.1.len() == eight.0.len(),
        sixteen.1.len() == sixteen.0.len(),
        eight.1[4 * pixel + channel] == eight.0[4 * pixel + channel],
        sixteen.1[4 * pixel + channel] == sixteen.0[4 * pixel + channel],
        eight.1[4 * pixel + 3] == to_u8(alpha.samples@[pixel], alpha.bit_depth),
        sixteen.1[4 * pixel + 3] == to_u16(alpha.samples@[pixel], alpha.bit_depth),
        plane_opacity(Some(alpha)) matches Some(own) && own.bit_depth == alpha.bit_depth
            && own.samples == alpha.samples@,
{
}

/// A pixel of a tile gets the opacity of the place where it stands in the grid,
/// where it stands within the grid; its colour stays.
pub proof fn lemma_opacity_of_tile(
    pixels: Seq<u8>,
    size: (u32, u32),
    origin: (u32, u32),
    alpha: &HeicAuxiliaryAlphaPlane,
    canvas: (u32, u32),
    x: int,
    y: int,
    channel: int,
)
    requires
        0 <= x < size.0,
        0 <= y < size.1,
        0 <= channel < 3,
    ensures
        ({
            let at = 4 * (y * size.0 + x);
            let within = origin.0 + x < canvas.0 && origin.1 + y < canvas.1;
            &&& tile_sample::<u8, ScaleToU8>(pixels, size, origin, alpha, canvas, at + channel)
                == pixels[at + channel]
            &&& tile_sample::<u8, ScaleToU8>(pixels, size, origin, alpha, canvas, at + 3) == (
            if within {
                to_u8(
                    alpha.samples@[(origin.1 + y) * canvas.0 + (origin.0 + x)],
                    alpha.bit_depth,
                )
            } else {
                pixels[at + 3]
            })
        }),
{
    lemma_row_major(x, y, size.0 as int, size.1 as int);
    let pixel = y * size.0 + x;
    assert((4 * pixel + 3) / 4 == pixel && (4 * pixel + 3) % 4 == 3);
    assert((4 * pixel + channel) % 4 == channel);
}

/// An image is stored in eight bits exactly where its bit depth is at most
/// eight, keeps its bit depth and its profile, and without transforms it has
/// the size of the decoded image and shows its pixels in order, row by row.
pub proof fn lemma_rgba_of_image<F: Fn(PreparedYcbcrToRgb, i32, i32, i32) -> (u16, u16, u16)>(
    image: YuvImage,
    kernel: F,
    bit_depth: u8,
    profile: Option<Vec<u8>>,
    result: DecodedRgbaImage,
    x: int,
    y: int,
)
    requires
        rgba_image_shows(image, Seq::empty(), kernel, bit_depth, profile, result),
        0 <= x < image.width,
        0 <= y < image.height,
    ensures
        result.width == image.width,
        result.height == image.height,
        result.source_bit_depth == bit_depth,
        result.icc_profile == profile,
        result.pixels is U8 <==> bit_depth <= 8,
        result.pixels matches DecodedRgbaPixels::U8(pixels) ==> pixels@.len() == 4 * (image.width
            * image.height) && image.shows::<u8, ScaleToU8, F>(
            kernel,
            (x, y),
            4,
            pixels@,
            4 * (y * image.width + x),
        ),
        result.pixels matches DecodedRgbaPixels::U16(pixels) ==> pixels@.len() == 4 * (image.width
            * image.height) && image.shows::<u16, ScaleToU16, F>(
            kernel,
            (x, y),
            4,
            pixels@,
            4 * (y * image.width + x),
        ),
{
    lemma_row_major(x, y, image.width as int, image.height as int);
    let none = Seq::<PrimaryItemTransformProperty>::empty();
    let k = y * image.width + x;
    assert(place_of(k, image.width as int) == (x, y));
    assert(sources(none, image.width, image.height, 0)((x, y)) == (x, y));
}

/// An uncompressed image is handed out with its own bit depth, its profile and,
/// without transforms, its own samples, each scaled from that bit depth.
pub proof fn lemma_rgba_of_uncompressed(
    decoded: &DecodedUncompressedImage,
    result: DecodedRgbaImage,
    x: int,
    y: int,
    channel: int,
)
    requires
        rgba_shows(decoded, Seq::empty(), result),
        decoded.rgba@.len() == 4 * (decoded.width * decoded.height),
        0 <= x < decoded.width,
        0 <= y < decoded.height,
        0 <= channel < 4,
    ensures
        result.width == decoded.width,
        result.height == decoded.height,
        result.source_bit_depth == decoded.bit_depth,
        result.icc_profile == decoded.icc_profile,
        result.pixels is U8 <==> decoded.bit_depth <= 8,
        ({
            let at = 4 * (y * decoded.width + x) + channel;
            match result.pixels {
                DecodedRgbaPixels::U8(pixels) => pixels@[at] == to_u8(
                    decoded.rgba@[at],
                    decoded.bit_depth,
                ),
                DecodedRgbaPixels::U16(pixels) => pixels@[at] == to_u16(
                    decoded.rgba@[at],
                    decoded.bit_depth,
                ),
            }
        }),
{
    lemma_row_major(x, y, decoded.width as int, decoded.height as int);
    let at = 4 * (y * decoded.width + x) + channel;
    assert(at < decoded.rgba@.len());
    match result.pixels {
        DecodedRgbaPixels::U8(pixels) => {
            lemma_transformed_sample(
                4,
                Seq::empty(),
                decoded.width,
                decoded.height,
                scaled_samples::<u8, ScaleToU8>(decoded.rgba@, decoded.bit_depth),
                (result.width, result.height, pixels@),
                (x, y),
                channel,
            );
        },
        DecodedRgbaPixels::U16(pixels) => {
            lemma_transformed_sample(
                4,
                Seq::empty(),
                decoded.width,
                decoded.height,
                scaled_samples::<u16, ScaleToU16>(decoded.rgba@, decoded.bit_depth),
                (result.width, result.height, pixels@),
                (x, y),
                channel,
            );
        },
    }
}

/// What an image with some metadata will be like: refused where it has more
/// pixels than allowed or its bit depths differ, and else of its own size and
/// the bit depth of its luma.
pub proof fn lemma_layout_of_metadata(
    metadata: DecodedHeicImageMetadata,
    guardrails: &DecodeGuardrails,
    profile: Option<Vec<u8>>,
)
    ensures
        ({
            let layout = metadata_layout(metadata, guardrails, Seq::empty(), profile);
            &&& layout is Ok <==> (guardrails.max_pixels is Some ==> metadata.width
                * metadata.height <= guardrails.max_pixels->0) && metadata.bit_depth_luma
                == metadata.bit_depth_chroma && 1 <= metadata.bit_depth_luma <= 16
            &&& layout matches Ok(layout) ==> layout.width == metadata.width && layout.height
                == metadata.height && layout.source_bit_depth == metadata.bit_depth_luma
                && layout.icc_profile == profile
        }),
{
}

/// The bit depth of an AVIF item is what the sequence header in its
/// configuration says. Only where there is none there, its payload is asked;
/// and where there is none either, that is the error.
pub proof fn lemma_depth_of_avif<
    H: Fn(&[u8]) -> Option<u8>,
    L: Fn() -> Result<Vec<u8>, DecodeAvifError>,
>(
    config: Seq<u8>,
    payload: Vec<u8>,
    header_depth: H,
    load_payload: L,
    depth: Result<u8, DecodeAvifError>,
    configured: Option<u8>,
    coded: Option<u8>,
)
    requires
        avif_depth(config, header_depth, load_payload, depth),
        forall|slice: &[u8], said: Option<u8>| #[trigger]
            header_depth.ensures((slice,), said) ==> (slice@ == config ==> said == configured) && (
            slice@ == payload@ && payload@ != config ==> said == coded),
        forall|loaded: Result<Vec<u8>, DecodeAvifError>| #[trigger]
            load_payload.ensures((), loaded) ==> loaded == Ok::<Vec<u8>, DecodeAvifError>(payload),
        payload@ != config,
    ensures
        configured matches Some(bits) ==> depth == Ok::<u8, DecodeAvifError>(bits),
        configured is None ==> (match coded {
            Some(bits) => depth == Ok::<u8, DecodeAvifError>(bits),
            None => depth == Err::<u8, DecodeAvifError>(DecodeAvifError::MissingSequenceHeader),
        }),
{
}

/// A tile without transforms stays as it is, a clean aperture crops it, and a
/// tile that is mirrored or turned is refused, unless the turn is a whole one.
pub proof fn lemma_transforms_of_tile(
    decoded: HeicView,
    transforms: Seq<PrimaryItemTransformProperty>,
)
    ensures
        tile_transformed(decoded, transforms, 0) == Ok::<HeicView, DecodeHeicError>(decoded),
        transforms.len() == 1 ==> (match transforms[0] {
            PrimaryItemTransformProperty::CleanAperture(clap) => tile_transformed(
                decoded,
                transforms,
                1,
            ) == crop_outcome(decoded, clap),
            PrimaryItemTransformProperty::Mirror(_) => tile_transformed(decoded, transforms, 1) is Err,
            PrimaryItemTransformProperty::Rotation(rotation) => {
                &&& rotation.rotation_ccw_degrees % 360 == 0 ==> tile_transformed(
                    decoded,
                    transforms,
                    1,
                ) == Ok::<HeicView, DecodeHeicError>(decoded)
                &&& rotation.rotation_ccw_degrees % 360 != 0 ==> tile_transformed(
                    decoded,
                    transforms,
                    1,
                ) is Err
            },
        }),
        forall|k: int|
            0 <= k < transforms.len() && #[trigger] transforms[k] is Mirror ==> tile_transformed(
                decoded,
                transforms,
                transforms.len(),
            ) is Err,
{
    reveal_with_fuel(tile_transformed, 2);
    assert forall|k: int| 0 <= k < transforms.len() && #[trigger] transforms[k] is Mirror implies
        tile_transformed(decoded, transforms, transforms.len()) is Err by {
        lemma_mirrored_tile(decoded, transforms, k, transforms.len());
    }
}

/// A tile that is mirrored is refused, whatever stands behind.
proof fn lemma_mirrored_tile(
    decoded: HeicView,
    transforms: Seq<PrimaryItemTransformProperty>,
    k: int,
    count: nat,
)
    requires
        0 <= k < count <= transforms.len(),
        transforms[k] is Mirror,
    ensures
        tile_transformed(decoded, transforms, count) is Err,
    decreases count,
{
    if k < count - 1 {
        lemma_mirrored_tile(decoded, transforms, k, (count - 1) as nat);
    }
}

/// Planes are cropped before the conversion only by what stands in front: where
/// the first transform turns or mirrors, or where there is none, they stay as
/// they are.
pub proof fn lemma_crops_in_front(
    decoded: HeicView,
    transforms: Seq<PrimaryItemTransformProperty>,
)
    requires
        transforms.len() > 0 ==> !(transforms[0] is CleanAperture),
    ensures
        leading_crops(decoded, transforms, 0) == Ok::<(HeicView, nat), DecodeHeicError>(
            (decoded, 0),
        ),
{
}

/// A file is made of an image of its own size and its own profile. Samples of
/// eight bits are handed on as they are. Of sixteen bits each colour is handed
/// on without repeated bits and each opacity as it is, the high byte first.
pub proof fn lemma_file_of_image(image: &DecodedRgbaImage)
    ensures
        exists|data: Seq<u8>, bits: u8, profile: Option<Seq<u8>>|
            {
                &&& image_file(image) == #[trigger] png_encoded(
                    image.width,
                    image.height,
                    bits,
                    profile,
                    data,
                )
                &&& profile is Some <==> image.icc_profile is Some
                &&& profile matches Some(bytes) ==> bytes == image.icc_profile->0@
                &&& match image.pixels {
                    DecodedRgbaPixels::U8(pixels) => bits == 8 && data == pixels@,
                    DecodedRgbaPixels::U16(pixels) => {
                        &&& bits == 16
                        &&& data.len() == 2 * pixels@.len()
                        &&& forall|k: int|
                            0 <= k < pixels@.len() ==> 256 * data[2 * k] + data[2 * k + 1] == (
                            if k % 4 == 3 {
                                #[trigger] pixels@[k]
                            } else {
                                unrepeated(pixels@[k], image.source_bit_depth)
                            })
                    },
                }
            },
{
    let profile = crate::png_file::image_profile(image);
    match image.pixels {
        DecodedRgbaPixels::U8(pixels) => {
            assert(image_file(image) == png_encoded(
                image.width,
                image.height,
                8,
                profile,
                pixels@,
            ));
        },
        DecodedRgbaPixels::U16(pixels) => {
            let samples = crate::png_file::file_samples(pixels@, image.source_bit_depth);
            let data = crate::png_file::be_bytes(samples);
            assert(image_file(image) == png_encoded(
                image.width,
                image.height,
                16,
                profile,
                data,
            ));
            assert forall|k: int| 0 <= k < pixels@.len() implies 256 * data[2 * k] + data[2 * k + 1]
                == (if k % 4 == 3 {
                #[trigger] pixels@[k]
            } else {
                unrepeated(pixels@[k], image.source_bit_depth)
            }) by {
                assert((2 * k) % 2 == 0 && (2 * k) / 2 == k && (2 * k + 1) % 2 == 1 && (2 * k + 1)
                    / 2 == k);
                assert(samples[k] == 256 * (samples[k] / 256) + samples[k] % 256);
            }
        },
    }
}

/// What can be the opacity of an image is coded as its codec says, lies in the
/// file itself, and has a property that marks it as opacity and the first one
/// that configures its decoder.
pub proof fn lemma_opacity_item(codec: AlphaCodec, graph: &ItemGraph, item_id: u32)
    ensures
        alpha_candidate(codec, graph, item_id) matches Some(candidate) ==> {
            let info = info_of(graph.infos@, item_id);
            let places = graph.properties_of(item_id);
            &&& info is Some
            &&& graph.infos@[info->0].item_id == item_id
            &&& graph.infos@[info->0].item_type is Some
            &&& codec.codes(graph.infos@[info->0].item_type->0)
            &&& candidate.location < graph.locations@.len()
            &&& graph.locations@[candidate.location as int].item_id == item_id
            &&& graph.locations@[candidate.location as int].data_reference_index == 0
            &&& places is Some
            &&& configuration_of(codec, graph.properties@, places->0) == Some(
                candidate.configuration,
            )
            &&& exists|k: int|
                0 <= k < places->0.len() && crate::items::is_alpha_property(
                    graph.properties@[#[trigger] places->0[k] as int],
                )
        },
{
    lemma_first_entry(graph.infos@, graph.locations@, item_id);
    assert(graph.locations.len() == graph.locations@.len());
}

/// The configuration of an item is the first of its properties that configures
/// a decoder of its coding, where there is one.
pub proof fn lemma_first_configuration(
    codec: AlphaCodec,
    properties: Seq<ItemProperty>,
    places: Seq<usize>,
)
    ensures
        match configuration_of(codec, properties, places) {
            Some(place) => exists|k: int|
                0 <= k < places.len() && #[trigger] places[k] == place && codec.configures(
                    properties[place as int],
                ) && forall|i: int|
                    0 <= i < k ==> !codec.configures(properties[#[trigger] places[i] as int]),
            None => forall|i: int|
                0 <= i < places.len() ==> !codec.configures(
                    properties[#[trigger] places[i] as int],
                ),
        },
    decreases places.len(),
{
    if places.len() > 0 {
        let fewer = places.drop_last();
        lemma_first_configuration(codec, properties, fewer);
        assert forall|i: int| 0 <= i < places.len() - 1 implies #[trigger] places[i] == fewer[i] by {}
        match configuration_of(codec, properties, fewer) {
            Some(place) => {
                let k = choose|k: int|
                    0 <= k < fewer.len() && #[trigger] fewer[k] == place && codec.configures(
                        properties[place as int],
                    ) && forall|i: int|
                        0 <= i < k ==> !codec.configures(properties[#[trigger] fewer[i] as int]);
                assert(places[k] == place);
                assert forall|i: int| 0 <= i < k implies !codec.configures(
                    properties[#[trigger] places[i] as int],
                ) by {
                    assert(fewer[i] == places[i]);
                }
            },
            None => {
                assert forall|i: int| 0 <= i < places.len() - 1 implies !codec.configures(
                    properties[#[trigger] places[i] as int],
                ) by {
                    assert(fewer[i] == places[i]);
                }
                assert(places[places.len() - 1] == places.last());
            },
        }
    }
}

/// Of several references those of the kind that is asked for, to the primary
/// item, give the items that they come from, in the order of the references.
pub proof fn lemma_items_in_order(
    codec: AlphaCodec,
    graph: &ItemGraph,
    references: Seq<ItemReference>,
    more: ItemReference,
)
    ensures
        alpha_candidates(codec, graph, Seq::empty()).len() == 0,
        exif_places(graph, Seq::empty()).len() == 0,
        alpha_candidates(codec, graph, references.push(more)) == alpha_candidates(
            codec,
            graph,
            references,
        ) + (if assists(more, graph.primary_item_id) && alpha_candidate(
            codec,
            graph,
            more.from_item_id,
        ) is Some {
            seq![alpha_candidate(codec, graph, more.from_item_id)->0]
        } else {
            Seq::empty()
        }),
        exif_places(graph, references.push(more)) == exif_places(graph, references) + (if describes(
            more,
            graph.primary_item_id,
        ) && exif_place(graph, more.from_item_id) is Some {
            seq![exif_place(graph, more.from_item_id)->0]
        } else {
            Seq::empty()
        }),
{
    assert(references.push(more).drop_last() =~= references);
    assert(alpha_candidates(codec, graph, references) + Seq::<AlphaCandidate>::empty()
        =~= alpha_candidates(codec, graph, references));
    assert(exif_places(graph, references) + Seq::<usize>::empty() =~= exif_places(
        graph,
        references,
    ));
}

} // verus!
