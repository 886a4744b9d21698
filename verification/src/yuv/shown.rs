//! What the outputs of one image have to do with each other.
#[allow(unused_imports)]
use super::image::YuvImage;
#[allow(unused_imports)]
use super::convert::owned_convert_error;
#[allow(unused_imports)]
use super::crop::{chroma_aligned, crop_outcome, leading_crops};
#[allow(unused_imports)]
use super::heic::heic_image;
#[allow(unused_imports)]
use super::output::{buffer_error, buffer_shows, heic_stage, storage_depth};
#[allow(unused_imports)]
use super::rgba::{
    converted_planes, lemma_leading_crops, plane_opacity, rgb_image_error, rgba_image_error,
    rgba_image_shows, shows_transformed,
};
#[allow(unused_imports)]
use super::whole::{lemma_whole_crops, planes_whole};
#[allow(unused_imports)]
use crate::errors::{DecodeError, DecodeHeicError, TransformGuardError};
#[allow(unused_imports)]
use crate::grid::canvas::{lemma_cell, pixel_shown, GridView};
#[allow(unused_imports)]
use crate::grid::image::{
    grid_opening, grid_shown, grid_view, rgb_grid_decoded, rgba_grid_decoded, HeicGrid,
};
#[allow(unused_imports)]
use crate::grid::layout::{HeicGridDescriptor, HeicGridTileReference};
#[allow(unused_imports)]
use crate::grid::tiles::{grid_opacity, tile_views, tiles_error};
#[allow(unused_imports)]
use crate::output::{SampleScale, ScaleToRgb8, ScaleToU16, ScaleToU8};
#[allow(unused_imports)]
use crate::rgba::{DecodedRgbImage, DecodedRgbaImage, DecodedRgbaPixels};
#[allow(unused_imports)]
use crate::transform::mapping::{lemma_source_place, PrimaryItemTransformProperty};
#[allow(unused_imports)]
use crate::transform::paste::own_place;
#[allow(unused_imports)]
use crate::transform::pixels::{
    index_of, lemma_index_of, lemma_place_of, pixel_at, place_of, sources, transformed,
};
#[allow(unused_imports)]
use crate::types::{DecodedHeicImage, HeicAuxiliaryAlphaPlane, HeicView};
#[allow(unused_imports)]
use crate::ycbcr::{PreparedYcbcrToRgb, PreparedYcbcrTransform};
use vstd::prelude::*;

verus! {

/// A pixel has one colour.
proof fn lemma_one_colour<F: Fn(PreparedYcbcrToRgb, i32, i32, i32) -> (u16, u16, u16)>(
    image: YuvImage,
    float_kernel: F,
    place: (int, int),
    one: (u16, u16, u16),
    other: (u16, u16, u16),
)
    requires
        image.settled(float_kernel),
        image.rgb_is(float_kernel, place, one),
        image.rgb_is(float_kernel, place, other),
    ensures
        one == other,
{
    let (cb, cr) = image.chroma_at(place);
    let luma = image.luma[index_of(place, image.width as int)];
    if !image.verbatim {
        match image.converter.transform {
            PreparedYcbcrTransform::IdentityFull => {},
            PreparedYcbcrTransform::MatrixFull { .. } => {},
            _ => {
                assert(float_kernel.ensures(
                    (image.converter, luma as i32, cb as i32, cr as i32),
                    one,
                ));
            },
        }
    }
}

/// The colours of a pixel that samples show.
proof fn lemma_shown_colour<
    T: Copy,
    S: SampleScale<T>,
    F: Fn(PreparedYcbcrToRgb, i32, i32, i32) -> (u16, u16, u16),
>(
    image: YuvImage,
    float_kernel: F,
    place: (int, int),
    channels: int,
    samples: Seq<T>,
    start: int,
) -> (rgb: (u16, u16, u16))
    requires
        image.shows::<T, S, F>(float_kernel, place, channels, samples, start),
    ensures
        image.rgb_is(float_kernel, place, rgb),
        samples[start] == S::scaled(rgb.0, image.converter.bit_depth),
        samples[start + 1] == S::scaled(rgb.1, image.converter.bit_depth),
        samples[start + 2] == S::scaled(rgb.2, image.converter.bit_depth),
{
    choose|rgb: (u16, u16, u16)|
        {
            &&& #[trigger] image.rgb_is(float_kernel, place, rgb)
            &&& samples[start] == S::scaled(rgb.0, image.converter.bit_depth)
            &&& samples[start + 1] == S::scaled(rgb.1, image.converter.bit_depth)
            &&& samples[start + 2] == S::scaled(rgb.2, image.converter.bit_depth)
        }
}

/// An image is shown in one way behind transforms: the samples of an RGBA
/// image and those of an RGBA buffer are the same.
pub proof fn lemma_one_picture<
    T: Copy,
    S: SampleScale<T>,
    F: Fn(PreparedYcbcrToRgb, i32, i32, i32) -> (u16, u16, u16),
>(
    image: YuvImage,
    transforms: Seq<PrimaryItemTransformProperty>,
    float_kernel: F,
    one: (u32, u32, Seq<T>),
    other: (u32, u32, Seq<T>),
)
    requires
        image.settled(float_kernel),
        shows_transformed::<T, S, F>(image, transforms, float_kernel, 4, one),
        shows_transformed::<T, S, F>(image, transforms, float_kernel, 4, other),
    ensures
        one == other,
{
    let width = one.0 as int;
    let count = one.0 * one.1;
    let from = sources(transforms, image.width, image.height, transforms.len());
    assert forall|i: int| 0 <= i < one.2.len() implies one.2[i] == other.2[i] by {
        let k = i / 4;
        assert(0 <= k < count);
        let place = from(place_of(k, width));
        let first = lemma_shown_colour::<T, S, F>(image, float_kernel, place, 4, one.2, 4 * k);
        let second = lemma_shown_colour::<T, S, F>(image, float_kernel, place, 4, other.2, 4 * k);
        lemma_one_colour(image, float_kernel, place, first, second);
        assert(image.shows::<T, S, F>(float_kernel, place, 4, one.2, 4 * k));
        assert(image.shows::<T, S, F>(float_kernel, place, 4, other.2, 4 * k));
        assert(i == 4 * k || i == 4 * k + 1 || i == 4 * k + 2 || i == 4 * k + 3);
    }
    assert(one.2 =~= other.2);
}

/// The RGB image of a deeper image is, sample by sample, the RGBA image of
/// sixteen bits, rounded to eight.
pub proof fn lemma_rgb_of_rgba16<F: Fn(PreparedYcbcrToRgb, i32, i32, i32) -> (u16, u16, u16)>(
    image: YuvImage,
    transforms: Seq<PrimaryItemTransformProperty>,
    float_kernel: F,
    rgb: (u32, u32, Seq<u8>),
    rgba: (u32, u32, Seq<u16>),
    pixel: int,
    channel: int,
)
    requires
        image.settled(float_kernel),
        image.converter.bit_depth > 8,
        shows_transformed::<u8, ScaleToRgb8, F>(image, transforms, float_kernel, 3, rgb),
        shows_transformed::<u16, ScaleToU16, F>(image, transforms, float_kernel, 4, rgba),
        0 <= pixel < rgb.0 * rgb.1,
        0 <= channel < 3,
    ensures
        (rgb.0, rgb.1) == (rgba.0, rgba.1),
        rgb.2[3 * pixel + channel] == (rgba.2[4 * pixel + channel] + 128) / 257,
{
    let from = sources(transforms, image.width, image.height, transforms.len());
    let place = from(place_of(pixel, rgb.0 as int));
    let first = lemma_shown_colour::<u8, ScaleToRgb8, F>(
        image,
        float_kernel,
        place,
        3,
        rgb.2,
        3 * pixel,
    );
    let second = lemma_shown_colour::<u16, ScaleToU16, F>(
        image,
        float_kernel,
        place,
        4,
        rgba.2,
        4 * pixel,
    );
    lemma_one_colour(image, float_kernel, place, first, second);
}

/// The RGB image of an image of eight bits or fewer has the colours of its
/// RGBA image.
pub proof fn lemma_rgb_of_rgba8<F: Fn(PreparedYcbcrToRgb, i32, i32, i32) -> (u16, u16, u16)>(
    image: YuvImage,
    transforms: Seq<PrimaryItemTransformProperty>,
    float_kernel: F,
    rgb: (u32, u32, Seq<u8>),
    rgba: (u32, u32, Seq<u8>),
    pixel: int,
    channel: int,
)
    requires
        image.settled(float_kernel),
        image.converter.bit_depth <= 8,
        shows_transformed::<u8, ScaleToRgb8, F>(image, transforms, float_kernel, 3, rgb),
        shows_transformed::<u8, ScaleToU8, F>(image, transforms, float_kernel, 4, rgba),
        0 <= pixel < rgb.0 * rgb.1,
        0 <= channel < 3,
    ensures
        (rgb.0, rgb.1) == (rgba.0, rgba.1),
        rgb.2[3 * pixel + channel] == rgba.2[4 * pixel + channel],
{
    let from = sources(transforms, image.width, image.height, transforms.len());
    let place = from(place_of(pixel, rgb.0 as int));
    let first = lemma_shown_colour::<u8, ScaleToRgb8, F>(
        image,
        float_kernel,
        place,
        3,
        rgb.2,
        3 * pixel,
    );
    let second = lemma_shown_colour::<u8, ScaleToU8, F>(
        image,
        float_kernel,
        place,
        4,
        rgba.2,
        4 * pixel,
    );
    lemma_one_colour(image, float_kernel, place, first, second);
}

/// Whether every pixel of a grid has one colour.
pub open spec fn grid_settled<F: Fn(PreparedYcbcrToRgb, i32, i32, i32) -> (u16, u16, u16)>(
    grid: GridView,
    float_kernel: F,
) -> bool {
    forall|place: (int, int)| (#[trigger] grid.image_at(place)).settled(float_kernel)
}

/// A grid is shown in one way behind transforms: the samples of an RGBA image
/// and those of an RGBA buffer are the same.
pub proof fn lemma_one_grid_picture<
    T: Copy,
    S: SampleScale<T>,
    F: Fn(PreparedYcbcrToRgb, i32, i32, i32) -> (u16, u16, u16),
>(
    grid: GridView,
    transforms: Seq<PrimaryItemTransformProperty>,
    alpha: Option<&HeicAuxiliaryAlphaPlane>,
    float_kernel: F,
    one: (u32, u32, Seq<T>),
    other: (u32, u32, Seq<T>),
)
    requires
        grid_settled(grid, float_kernel),
        grid_shown::<T, S, F>(grid, transforms, alpha, float_kernel, 4, one),
        grid_shown::<T, S, F>(grid, transforms, alpha, float_kernel, 4, other),
    ensures
        one == other,
{
    let width = one.0 as int;
    let from = sources(
        transforms,
        grid.descriptor.output_width,
        grid.descriptor.output_height,
        transforms.len(),
    );
    assert forall|i: int| 0 <= i < one.2.len() implies one.2[i] == other.2[i] by {
        let k = i / 4;
        assert(0 <= k < one.0 * one.1);
        let place = from(place_of(k, width));
        let image = grid.image_at(place);
        let within = grid.place_in(place);
        let depth = image.converter.bit_depth;
        let first = choose|rgb: (u16, u16, u16)|
            {
                &&& #[trigger] image.rgb_is(float_kernel, within, rgb)
                &&& one.2[4 * k] == S::scaled(rgb.0, depth)
                &&& one.2[4 * k + 1] == S::scaled(rgb.1, depth)
                &&& one.2[4 * k + 2] == S::scaled(rgb.2, depth)
            };
        let second = choose|rgb: (u16, u16, u16)|
            {
                &&& #[trigger] image.rgb_is(float_kernel, within, rgb)
                &&& other.2[4 * k] == S::scaled(rgb.0, depth)
                &&& other.2[4 * k + 1] == S::scaled(rgb.1, depth)
                &&& other.2[4 * k + 2] == S::scaled(rgb.2, depth)
            };
        lemma_one_colour(image, float_kernel, within, first, second);
        assert(i == 4 * k || i == 4 * k + 1 || i == 4 * k + 2 || i == 4 * k + 3);
    }
    assert(one.2 =~= other.2);
}

/// Whether an RGB image is the RGBA image without its opacity, its samples
/// rounded to eight bits where they have sixteen.
pub open spec fn rgb_of_rgba(rgb: &DecodedRgbImage, rgba: &DecodedRgbaImage) -> bool {
    let count = rgb.width * rgb.height;
    &&& (rgb.width, rgb.height) == (rgba.width, rgba.height)
    &&& rgb.source_bit_depth == rgba.source_bit_depth
    &&& rgb.icc_profile == rgba.icc_profile
    &&& rgb.pixels@.len() == 3 * count
    &&& match rgba.pixels {
        DecodedRgbaPixels::U8(samples) => {
            &&& samples@.len() == 4 * count
            &&& forall|pixel: int, channel: int|
                0 <= pixel < count && 0 <= channel < 3
                    ==> #[trigger] rgb.pixels@[3 * pixel + channel] == samples@[4 * pixel
                    + channel]
        },
        DecodedRgbaPixels::U16(samples) => {
            &&& samples@.len() == 4 * count
            &&& forall|pixel: int, channel: int|
                0 <= pixel < count && 0 <= channel < 3
                    ==> #[trigger] rgb.pixels@[3 * pixel + channel] == (samples@[4 * pixel
                    + channel] + 128) / 257
        },
    }
}

/// The RGB image of a decoded image is its RGBA image without the opacity,
/// whichever opacity that has.
pub proof fn lemma_rgb_of_rgba<F: Fn(PreparedYcbcrToRgb, i32, i32, i32) -> (u16, u16, u16)>(
    decoded: HeicView,
    transforms: Seq<PrimaryItemTransformProperty>,
    alpha: Option<&HeicAuxiliaryAlphaPlane>,
    float_kernel: F,
    icc_profile: Option<Vec<u8>>,
    rgb: &DecodedRgbImage,
    rgba: &DecodedRgbaImage,
)
    requires
        heic_image(decoded, None).settled(float_kernel),
        rgb.source_bit_depth == decoded.bit_depth_luma,
        rgb.icc_profile == icc_profile,
        shows_transformed::<u8, ScaleToRgb8, F>(
            heic_image(decoded, None),
            transforms,
            float_kernel,
            3,
            (rgb.width, rgb.height, rgb.pixels@),
        ),
        rgba_image_shows(
            heic_image(decoded, plane_opacity(alpha)),
            transforms,
            float_kernel,
            decoded.bit_depth_luma,
            icc_profile,
            *rgba,
        ),
    ensures
        rgb_of_rgba(rgb, rgba),
{
    let image = heic_image(decoded, plane_opacity(alpha));
    let opaque = heic_image(decoded, None);
    let shown = (rgb.width, rgb.height, rgb.pixels@);
    assert forall|k: int| 0 <= k < rgb.width * rgb.height implies image.shows::<u8, ScaleToRgb8, F>(
        float_kernel,
        sources(transforms, image.width, image.height, transforms.len())(
            #[trigger] place_of(k, rgb.width as int),
        ),
        3,
        rgb.pixels@,
        3 * k,
    ) by {
        let place = sources(transforms, image.width, image.height, transforms.len())(
            place_of(k, rgb.width as int),
        );
        let colour = lemma_shown_colour::<u8, ScaleToRgb8, F>(
            opaque,
            float_kernel,
            place,
            3,
            rgb.pixels@,
            3 * k,
        );
        assert(image.chroma_at(place) == opaque.chroma_at(place));
        assert(image.rgb_is(float_kernel, place, colour));
    }
    assert(shows_transformed::<u8, ScaleToRgb8, F>(image, transforms, float_kernel, 3, shown));
    match rgba.pixels {
        DecodedRgbaPixels::U8(samples) => {
            assert forall|pixel: int, channel: int|
                0 <= pixel < rgb.width * rgb.height && 0 <= channel < 3 implies
                #[trigger] rgb.pixels@[3 * pixel + channel] == samples@[4 * pixel + channel] by {
                lemma_rgb_of_rgba8(
                    image,
                    transforms,
                    float_kernel,
                    shown,
                    (rgba.width, rgba.height, samples@),
                    pixel,
                    channel,
                );
            }
        },
        DecodedRgbaPixels::U16(samples) => {
            assert forall|pixel: int, channel: int|
                0 <= pixel < rgb.width * rgb.height && 0 <= channel < 3 implies
                #[trigger] rgb.pixels@[3 * pixel + channel] == (samples@[4 * pixel + channel]
                + 128) / 257 by {
                lemma_rgb_of_rgba16(
                    image,
                    transforms,
                    float_kernel,
                    shown,
                    (rgba.width, rgba.height, samples@),
                    pixel,
                    channel,
                );
            }
        },
    }
}

/// Where an image has an RGBA image, it has an RGB image.
pub proof fn lemma_rgb_where_rgba(
    decoded: HeicView,
    transforms: Seq<PrimaryItemTransformProperty>,
)
    requires
        0 < decoded.width,
        0 < decoded.height,
        rgba_image_error(decoded, transforms, None) is None,
    ensures
        rgb_image_error(decoded, transforms) is None,
{
    let (planes, done) = leading_crops(decoded, transforms, 0)->Ok_0;
    lemma_crops_keep_pixels(decoded, transforms, 0);
    assert(planes.width * planes.height * 3 <= planes.width * planes.height * 4)
        by (nonlinear_arith);
}

/// Leading crops leave pixels where all transforms do.
proof fn lemma_crops_keep_pixels(
    decoded: HeicView,
    transforms: Seq<PrimaryItemTransformProperty>,
    start: nat,
)
    requires
        0 < decoded.width,
        0 < decoded.height,
    ensures
        leading_crops(decoded, transforms, start) matches Ok((planes, _)) ==> 0 < planes.width && 0
            < planes.height,
    decreases transforms.len() - start,
{
    if start < transforms.len() {
        if let PrimaryItemTransformProperty::CleanAperture(clap) = transforms[start as int] {
            if chroma_aligned(decoded, clap) && crop_outcome(decoded, clap) is Ok {
                lemma_crops_keep_pixels(
                    crop_outcome(decoded, clap)->Ok_0,
                    transforms,
                    start + 1,
                );
            }
        }
    }
}

/// Every tile that was pasted has the bit depth of the first.
proof fn lemma_tile_depths(
    descriptor: HeicGridDescriptor,
    reference: HeicGridTileReference,
    tiles: Seq<Result<DecodedHeicImage, DecodeHeicError>>,
    channels: int,
    label: &'static str,
    count: nat,
    k: int,
)
    requires
        0 <= k < count <= tiles.len(),
        tiles_error(descriptor, reference, tiles, channels, label, count) is None,
    ensures
        tiles[k] is Ok,
        tiles[k]->Ok_0@.bit_depth_luma == reference.bit_depth_luma,
    decreases count,
{
    if k < count - 1 {
        lemma_tile_depths(
            descriptor,
            reference,
            tiles,
            channels,
            label,
            (count - 1) as nat,
            k,
        );
    }
}

/// The colours of a pixel of a grid that samples show.
proof fn lemma_grid_colour<
    T: Copy,
    S: SampleScale<T>,
    F: Fn(PreparedYcbcrToRgb, i32, i32, i32) -> (u16, u16, u16),
>(
    image: YuvImage,
    float_kernel: F,
    place: (int, int),
    channels: int,
    samples: Seq<T>,
    start: int,
    opacity: T,
) -> (rgb: (u16, u16, u16))
    requires
        pixel_shown::<T, S, F>(image, float_kernel, place, channels, samples, start, opacity),
    ensures
        image.rgb_is(float_kernel, place, rgb),
        samples[start] == S::scaled(rgb.0, image.converter.bit_depth),
        samples[start + 1] == S::scaled(rgb.1, image.converter.bit_depth),
        samples[start + 2] == S::scaled(rgb.2, image.converter.bit_depth),
{
    choose|rgb: (u16, u16, u16)|
        {
            &&& #[trigger] image.rgb_is(float_kernel, place, rgb)
            &&& samples[start] == S::scaled(rgb.0, image.converter.bit_depth)
            &&& samples[start + 1] == S::scaled(rgb.1, image.converter.bit_depth)
            &&& samples[start + 2] == S::scaled(rgb.2, image.converter.bit_depth)
        }
}

/// The RGB image of a grid is its RGBA image without the opacity, whichever
/// opacity that has, where the tiles of both hold the same.
pub proof fn lemma_grid_rgb_of_rgba<F: Fn(PreparedYcbcrToRgb, i32, i32, i32) -> (u16, u16, u16)>(
    grid: HeicGrid,
    tiles: Seq<Result<DecodedHeicImage, DecodeHeicError>>,
    others: Seq<Result<DecodedHeicImage, DecodeHeicError>>,
    transforms: Seq<PrimaryItemTransformProperty>,
    alpha: Option<&HeicAuxiliaryAlphaPlane>,
    float_kernel: F,
    icc_profile: Option<Vec<u8>>,
    rgb: DecodedRgbImage,
    rgba: DecodedRgbaImage,
)
    requires
        grid_settled(grid_view(grid, tiles), float_kernel),
        tile_views(tiles) == tile_views(others),
        rgb_grid_decoded(
            grid,
            tiles,
            transforms,
            icc_profile,
            float_kernel,
            Ok::<DecodedRgbImage, DecodeError>(rgb),
        ),
        rgba_grid_decoded(
            grid,
            others,
            transforms,
            alpha,
            icc_profile,
            float_kernel,
            Ok::<DecodedRgbaImage, DecodeError>(rgba),
        ),
    ensures
        rgb_of_rgba(&rgb, &rgba),
{
    let view = grid_view(grid, tiles);
    let (reference, depth) = grid_opening(grid, tiles)->Ok_0;
    assert(0 < tiles.len());
    assert(tile_views(tiles)[0] == tiles[0]->Ok_0@);
    assert(tile_views(others)[0] == others[0]->Ok_0@);
    assert(grid_view(grid, others) == view);
    let width = grid.descriptor.output_width;
    let height = grid.descriptor.output_height;
    let from = sources(transforms, width, height, transforms.len());
    assert forall|place: (int, int)| 0 <= place.0 && 0 <= place.1 implies (
    #[trigger] view.image_at(place)).converter.bit_depth == depth by {
        let (column, row) = view.cell(place);
        let k = row * grid.descriptor.columns + column;
        lemma_cell(place.0, reference.tile_width as int, column);
        lemma_cell(place.1, reference.tile_height as int, row);
        assert(0 <= k) by (nonlinear_arith)
            requires
                0 <= row,
                0 <= column,
                k == row * grid.descriptor.columns + column,
        ;
        if view.covered(place, view.tiles.len() as int) {
            lemma_tile_depths(
                grid.descriptor,
                reference,
                tiles,
                3,
                "RGB",
                tiles.len(),
                k,
            );
        }
    }
    assert forall|pixel: int, channel: int|
        0 <= pixel < rgb.width * rgb.height && 0 <= channel < 3 implies (match rgba.pixels {
        DecodedRgbaPixels::U8(samples) => rgb.pixels@[3 * pixel + channel] == samples@[4 * pixel
            + channel],
        DecodedRgbaPixels::U16(samples) => #[trigger] rgb.pixels@[3 * pixel + channel] == (
        samples@[4 * pixel + channel] + 128) / 257,
    }) by {
        let place = from(place_of(pixel, rgb.width as int));
        let image = view.image_at(place);
        let within = view.place_in(place);
        lemma_place_of(pixel, rgb.width as int, rgb.height as int);
        lemma_source_place(
            transforms,
            width,
            height,
            transforms.len(),
            place_of(pixel, rgb.width as int),
        );
        assert(image.converter.bit_depth == depth);
        let first = lemma_grid_colour::<u8, ScaleToRgb8, F>(
            image,
            float_kernel,
            within,
            3,
            rgb.pixels@,
            3 * pixel,
            grid_opacity::<u8, ScaleToRgb8>(None, width)(place),
        );
        match rgba.pixels {
            DecodedRgbaPixels::U8(samples) => {
                let second = lemma_grid_colour::<u8, ScaleToU8, F>(
                    image,
                    float_kernel,
                    within,
                    4,
                    samples@,
                    4 * pixel,
                    grid_opacity::<u8, ScaleToU8>(alpha, width)(place),
                );
                lemma_one_colour(image, float_kernel, within, first, second);
            },
            DecodedRgbaPixels::U16(samples) => {
                let second = lemma_grid_colour::<u16, ScaleToU16, F>(
                    image,
                    float_kernel,
                    within,
                    4,
                    samples@,
                    4 * pixel,
                    grid_opacity::<u16, ScaleToU16>(alpha, width)(place),
                );
                lemma_one_colour(image, float_kernel, within, first, second);
            },
        }
        assert(channel == 0 || channel == 1 || channel == 2);
    }
}

/// A buffer of the size and the depth of an RGBA image holds its samples,
/// whatever it held before; another size is refused.
pub proof fn lemma_buffer_of_image<
    T: Copy,
    S: SampleScale<T>,
    F: Fn(PreparedYcbcrToRgb, i32, i32, i32) -> (u16, u16, u16),
>(
    decoded: HeicView,
    transforms: Seq<PrimaryItemTransformProperty>,
    alpha: Option<&HeicAuxiliaryAlphaPlane>,
    float_kernel: F,
    shown: (u32, u32, Seq<T>),
    actual: int,
    buffer: Seq<T>,
)
    requires
        planes_whole(decoded),
        0 < decoded.width,
        0 < decoded.height,
        heic_image(decoded, None).settled(float_kernel),
        rgba_image_error(decoded, transforms, alpha) is None,
        shows_transformed::<T, S, F>(
            heic_image(decoded, plane_opacity(alpha)),
            transforms,
            float_kernel,
            4,
            shown,
        ),
    ensures
        ({
            let failed = buffer_error(
                decoded,
                transforms,
                alpha,
                storage_depth(decoded.bit_depth_luma),
                actual,
            );
            if actual == 4 * (shown.0 * shown.1) {
                &&& failed is None
                &&& buffer_shows::<T, S, F>(
                    heic_image(decoded, plane_opacity(alpha)),
                    transforms,
                    float_kernel,
                    buffer,
                ) ==> buffer == shown.2
            } else {
                failed == Some(
                    DecodeError::TransformGuard(
                        TransformGuardError::RgbaSampleCountMismatch {
                            stage: heic_stage(),
                            actual: actual as usize,
                            expected: (shown.0 * shown.1 * 4) as usize,
                            width: shown.0,
                            height: shown.1,
                        },
                    ),
                )
            }
        }),
{
    let image = heic_image(decoded, plane_opacity(alpha));
    assert(shown.0 * shown.1 * 4 == 4 * (shown.0 * shown.1)) by (nonlinear_arith);
    let (planes, done) = converted_planes(decoded, transforms, alpha is Some)->Ok_0;
    assert(transforms.skip(0) =~= transforms);
    if alpha is None {
        lemma_leading_crops(decoded, transforms, 0, float_kernel, (0, 0), (0, 0, 0));
        lemma_whole_crops(decoded, transforms, 0);
    }
    lemma_source_place(
        transforms.skip(done as int),
        planes.width,
        planes.height,
        (transforms.len() - done) as nat,
        (0, 0),
    );
    assert(shown.0 * shown.1 * 4 <= planes.width * planes.height * 4) by (nonlinear_arith)
        requires
            shown.0 * shown.1 <= planes.width * planes.height,
    ;
    if actual == 4 * (shown.0 * shown.1) && buffer_shows::<T, S, F>(
        image,
        transforms,
        float_kernel,
        buffer,
    ) {
        lemma_one_picture::<T, S, F>(
            image,
            transforms,
            float_kernel,
            (shown.0, shown.1, buffer),
            shown,
        );
    }
}

/// What a decoded image shows behind its transforms is what converting it, and
/// then carrying out the transforms, gives: its RGBA image can be had, and is
/// that one, wherever its clean apertures begin.
pub proof fn lemma_converted_then_transformed<
    T: Copy,
    S: SampleScale<T>,
    F: Fn(PreparedYcbcrToRgb, i32, i32, i32) -> (u16, u16, u16),
>(
    decoded: HeicView,
    transforms: Seq<PrimaryItemTransformProperty>,
    float_kernel: F,
    pixels: Seq<T>,
    result: (u32, u32, Seq<T>),
)
    requires
        0 < decoded.width,
        0 < decoded.height,
        owned_convert_error(decoded, 4, "RGBA") is None,
        pixels.len() == 4 * (decoded.width * decoded.height),
        heic_image(decoded, None).shown_as::<T, S, F>(
            float_kernel,
            4,
            pixels,
            decoded.width as int,
            decoded.width * decoded.height,
            own_place(),
        ),
        transformed(
            4,
            transforms,
            decoded.width,
            decoded.height,
            pixels,
            result,
            transforms.len(),
        ),
    ensures
        rgba_image_error(decoded, transforms, None) is None,
        shows_transformed::<T, S, F>(
            heic_image(decoded, None),
            transforms,
            float_kernel,
            4,
            result,
        ),
        heic_image(decoded, None).settled(float_kernel) ==> forall|shown: (u32, u32, Seq<T>)|
            #[trigger] shows_transformed::<T, S, F>(
                heic_image(decoded, None),
                transforms,
                float_kernel,
                4,
                shown,
            ) ==> shown == result,
{
    let image = heic_image(decoded, None);
    let from = sources(transforms, decoded.width, decoded.height, transforms.len());
    let width = result.0 as int;
    assert(transforms.skip(0) =~= transforms);
    lemma_whole_crops(decoded, transforms, 0);
    let planes = leading_crops(decoded, transforms, 0)->Ok_0.0;
    assert(planes.width * planes.height * 4 <= decoded.width * decoded.height * 4)
        by (nonlinear_arith)
        requires
            planes.width * planes.height <= decoded.width * decoded.height,
    ;
    assert forall|k: int| 0 <= k < result.0 * result.1 implies image.shows::<T, S, F>(
        float_kernel,
        from(#[trigger] place_of(k, width)),
        4,
        result.2,
        4 * k,
    ) by {
        lemma_place_of(k, width, result.1 as int);
        lemma_source_place(
            transforms,
            decoded.width,
            decoded.height,
            transforms.len(),
            place_of(k, width),
        );
        let place = from(place_of(k, width));
        lemma_index_of(place, decoded.width as int, decoded.height as int);
        let source = index_of(place, decoded.width as int);
        assert(place_of(source, decoded.width as int) == place);
        assert(image.shows::<T, S, F>(float_kernel, place, 4, pixels, 4 * source));
        assert(pixel_at(result.2, 4, k) == pixel_at(pixels, 4, source));
        assert forall|c: int| 0 <= c < 4 implies #[trigger] result.2[4 * k + c] == pixels[4
            * source + c] by {
            assert(pixel_at(result.2, 4, k)[c] == result.2[4 * k + c]);
            assert(pixel_at(pixels, 4, source)[c] == pixels[4 * source + c]);
        }
        let colour = lemma_shown_colour::<T, S, F>(
            image,
            float_kernel,
            place,
            4,
            pixels,
            4 * source,
        );
        assert(result.2[4 * k + 0] == pixels[4 * source + 0]);
        assert(image.rgb_is(float_kernel, place, colour));
    }
    if image.settled(float_kernel) {
        assert forall|shown: (u32, u32, Seq<T>)|
            #[trigger] shows_transformed::<T, S, F>(
                image,
                transforms,
                float_kernel,
                4,
                shown,
            ) implies shown == result by {
            lemma_one_picture::<T, S, F>(image, transforms, float_kernel, shown, result);
        }
    }
}

} // verus!
