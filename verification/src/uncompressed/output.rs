//! RGBA images and buffers of uncompressed items.
use super::channels::{
    decode_primary_uncompressed_to_channels, decode_primary_uncompressed_to_image,
    DecodedUncompressedChannels, UncompressedItemData,
};
#[allow(unused_imports)]
use super::channels::{decoded_item, holds_pixels, pixel_of, ChannelImage, PixelColour};
use super::components::UncompressedPrimaryItemProperties;
#[allow(unused_imports)]
use super::compression::reports;
#[allow(unused_imports)]
use super::channel_map::output_depth_of_properties;
use crate::errors::{
    ContainerError, DecodeError, DecodeUncompressedError, InputFault, TransformGuardError, Wording,
};
#[allow(unused_imports)]
use super::reader::invalid;
use crate::guardrails::DecodeGuardrails;
#[allow(unused_imports)]
use crate::icc::profile_is;
use crate::output::{
    native_byte_order, ByteOrder, RgbaSampleOutput, SampleScale, ScaleToU16, ScaleToU8,
};
#[allow(unused_imports)]
use crate::output::{lemma_paired_length, lemma_same_pairs, machine_order, paired, unpaired};
#[allow(unused_imports)]
use super::samples::lemma_decoded_pixels;
use crate::rgba::{DecodedRgbaImage, DecodedRgbaPixels};
use crate::text::{Arg, Detail};
#[allow(unused_imports)]
use crate::transform::mapping::{lemma_source_place, transformed_size, transforms_wf};
use crate::transform::mapping::PrimaryItemTransformProperty;
use crate::transform::pixels::{apply_primary_item_transforms_rgba, checked_rgba_sample_count};
#[allow(unused_imports)]
use crate::transform::pixels::{
    index_of, lemma_index_of, lemma_place_of, pixel_at, place_of, sample_count, sources,
    transformed,
};
use crate::transform::plan::{plan_output, RgbaTransformPlan};
#[allow(unused_imports)]
use crate::transform::plan::{lemma_plan_places, output_error};
use crate::types::DecodedUncompressedImage;
use crate::ycbcr::PreparedYcbcrToRgb;
#[allow(unused_imports)]
use crate::ycbcr::{kernel_ready, settled, PreparedYcbcrTransform};
use crate::yuv::output::heic_storage_bit_depth;
#[allow(unused_imports)]
use crate::yuv::output::storage_depth;
use vstd::prelude::*;

verus! {

/// What reading the properties of an uncompressed primary item came to: there
/// is no such item where the primary item is of another type.
pub fn uncompressed_primary_item<T>(parsed: Result<T, ContainerError>) -> (result: Result<
    Option<T>,
    DecodeError,
>)
    ensures
        result == match parsed {
            Ok(properties) => Ok::<Option<T>, DecodeError>(Some(properties)),
            Err(ContainerError::UnexpectedPrimaryItemType { .. }) => Ok(None),
            Err(e) => Err(
                DecodeError::UncompressedDecode(DecodeUncompressedError::ParsePrimaryProperties(e)),
            ),
        },
{
    match parsed {
        Ok(properties) => Ok(Some(properties)),
        Err(ContainerError::UnexpectedPrimaryItemType { .. }) => Ok(None),
        Err(e) => Err(
            DecodeError::UncompressedDecode(DecodeUncompressedError::ParsePrimaryProperties(e)),
        ),
    }
}

/// Samples of some bit depth, scaled.
pub open spec fn scaled_samples<T: Copy, S: SampleScale<T>>(
    samples: Seq<u16>,
    bit_depth: u8,
) -> Seq<T> {
    Seq::new(samples.len(), |k: int| S::scaled(samples[k], bit_depth))
}

/// Scales samples.
fn scale_samples<T: Copy, S: SampleScale<T>>(samples: &Vec<u16>, bit_depth: u8) -> (scaled: Vec<T>)
    requires
        1 <= bit_depth <= 16,
    ensures
        scaled@ == scaled_samples::<T, S>(samples@, bit_depth),
{
    let mut scaled: Vec<T> = Vec::with_capacity(samples.len());
    let mut k: usize = 0;
    while k < samples.len()
        invariant
            k <= samples@.len(),
            1 <= bit_depth <= 16,
            scaled@.len() == k,
            forall|i: int|
                0 <= i < k ==> #[trigger] scaled@[i] == S::scaled(samples@[i], bit_depth),
        decreases samples@.len() - k,
    {
        scaled.push(S::scale(samples[k], bit_depth));
        k = k + 1;
    }
    assert(scaled@ =~= scaled_samples::<T, S>(samples@, bit_depth));
    scaled
}

/// Why an image cannot be had as RGBA, if it cannot.
pub open spec fn rgba_error(
    decoded: &DecodedUncompressedImage,
    transforms: Seq<PrimaryItemTransformProperty>,
) -> Option<DecodeError> {
    if decoded.bit_depth == 0 || decoded.bit_depth > 16 {
        Some(
            DecodeError::UncompressedDecode(
                invalid(
                    Detail::One(
                        "uncompressed output bit depth {} is outside supported range 1..=16",
                        Arg::Num(decoded.bit_depth as i128),
                    ),
                ),
            ),
        )
    } else {
        match sample_count(decoded.width, decoded.height, 4) {
            Err(e) => Some(DecodeError::TransformGuard(e)),
            Ok(expected) => if decoded.rgba@.len() != expected {
                Some(
                    DecodeError::TransformGuard(
                        TransformGuardError::RgbaSampleCountMismatch {
                            stage: "uncompressed RGBA input",
                            actual: decoded.rgba@.len() as usize,
                            expected: expected as usize,
                            width: decoded.width,
                            height: decoded.height,
                        },
                    ),
                )
            } else {
                match transformed_size(
                    transforms,
                    decoded.width,
                    decoded.height,
                    transforms.len(),
                ) {
                    Err(e) => Some(DecodeError::TransformGuard(e)),
                    Ok(_) => None,
                }
            },
        }
    }
}

/// Whether an RGBA image shows a decoded one behind transforms.
pub open spec fn rgba_shows(
    decoded: &DecodedUncompressedImage,
    transforms: Seq<PrimaryItemTransformProperty>,
    image: DecodedRgbaImage,
) -> bool {
    &&& image.source_bit_depth == decoded.bit_depth
    &&& image.icc_profile == decoded.icc_profile
    &&& match image.pixels {
        DecodedRgbaPixels::U8(pixels) => decoded.bit_depth <= 8 && transformed(
            4,
            transforms,
            decoded.width,
            decoded.height,
            scaled_samples::<u8, ScaleToU8>(decoded.rgba@, decoded.bit_depth),
            (image.width, image.height, pixels@),
            transforms.len(),
        ),
        DecodedRgbaPixels::U16(pixels) => decoded.bit_depth > 8 && transformed(
            4,
            transforms,
            decoded.width,
            decoded.height,
            scaled_samples::<u16, ScaleToU16>(decoded.rgba@, decoded.bit_depth),
            (image.width, image.height, pixels@),
            transforms.len(),
        ),
    }
}

/// The RGBA image of a decoded one, behind transforms.
pub fn decoded_uncompressed_to_rgba_image(
    decoded: DecodedUncompressedImage,
    transforms: &[PrimaryItemTransformProperty],
) -> (result: Result<DecodedRgbaImage, DecodeError>)
    requires
        transforms_wf(transforms@),
    ensures
        match rgba_error(&decoded, transforms@) {
            Some(e) => result == Err::<DecodedRgbaImage, DecodeError>(e),
            None => result is Ok && rgba_shows(&decoded, transforms@, result->Ok_0),
        },
{
    let width: u32 = decoded.width;
    let height: u32 = decoded.height;
    let bit_depth: u8 = decoded.bit_depth;
    if bit_depth == 0 || bit_depth > 16 {
        return Err(
            DecodeError::UncompressedDecode(
                DecodeUncompressedError::InvalidInput {
                    detail: InputFault::Template(
                        Detail::One(
                            "uncompressed output bit depth {} is outside supported range 1..=16",
                            Arg::Num(bit_depth as i128),
                        ),
                    ),
                },
            ),
        );
    }
    let expected: usize = match checked_rgba_sample_count(width, height) {
        Ok(expected) => expected,
        Err(e) => {
            return Err(DecodeError::TransformGuard(e));
        },
    };
    if decoded.rgba.len() != expected {
        return Err(
            DecodeError::TransformGuard(
                TransformGuardError::RgbaSampleCountMismatch {
                    stage: "uncompressed RGBA input",
                    actual: decoded.rgba.len(),
                    expected,
                    width,
                    height,
                },
            ),
        );
    }
    if bit_depth <= 8 {
        let rgba8: Vec<u8> = scale_samples::<u8, ScaleToU8>(&decoded.rgba, bit_depth);
        return match apply_primary_item_transforms_rgba(width, height, rgba8, transforms) {
            Err(e) => Err(DecodeError::TransformGuard(e)),
            Ok((width, height, pixels)) => Ok(
                DecodedRgbaImage {
                    width,
                    height,
                    source_bit_depth: bit_depth,
                    pixels: DecodedRgbaPixels::U8(pixels),
                    icc_profile: decoded.icc_profile,
                },
            ),
        };
    }
    let rgba16: Vec<u16> = if bit_depth == 16 {
        proof {
            assert(decoded.rgba@ =~= scaled_samples::<u16, ScaleToU16>(decoded.rgba@, 16));
        }
        decoded.rgba
    } else {
        scale_samples::<u16, ScaleToU16>(&decoded.rgba, bit_depth)
    };
    match apply_primary_item_transforms_rgba(width, height, rgba16, transforms) {
        Err(e) => Err(DecodeError::TransformGuard(e)),
        Ok((width, height, pixels)) => Ok(
            DecodedRgbaImage {
                width,
                height,
                source_bit_depth: bit_depth,
                pixels: DecodedRgbaPixels::U16(pixels),
                icc_profile: decoded.icc_profile,
            },
        ),
    }
}

/// The pixel of an image that a pixel of the result comes from.
pub open spec fn pixel_source(
    image: ChannelImage,
    transforms: Seq<PrimaryItemTransformProperty>,
    width: int,
    pixel: int,
) -> int {
    index_of(
        sources(transforms, image.width, image.height, transforms.len())(place_of(pixel, width)),
        image.width as int,
    )
}

/// The first of `count` pixels of the result that cannot be had: why.
pub open spec fn first_error(
    image: ChannelImage,
    transforms: Seq<PrimaryItemTransformProperty>,
    width: int,
    count: nat,
) -> Option<DecodeUncompressedError>
    decreases count,
{
    if count == 0 {
        None
    } else {
        match first_error(image, transforms, width, (count - 1) as nat) {
            Some(e) => Some(e),
            None => image.pixel_error(pixel_source(image, transforms, width, count - 1)),
        }
    }
}

/// An error that came first stays the first.
proof fn lemma_first_error(
    image: ChannelImage,
    transforms: Seq<PrimaryItemTransformProperty>,
    width: int,
    few: nat,
    many: nat,
)
    requires
        few <= many,
        first_error(image, transforms, width, few) is Some,
    ensures
        first_error(image, transforms, width, many) == first_error(image, transforms, width, few),
    decreases many,
{
    if few < many {
        lemma_first_error(image, transforms, width, few, (many - 1) as nat);
    }
}

/// The stage at which a buffer of another size than the image is refused.
pub open spec fn uncompressed_stage() -> &'static str {
    "uncompressed HEIF direct transformed image adapter output"
}

/// Why an image cannot be written into a buffer of samples, if that shows
/// before anything is written.
pub open spec fn buffer_refused(
    image: ChannelImage,
    transforms: Seq<PrimaryItemTransformProperty>,
    asked: u8,
    actual: int,
) -> Option<DecodeError> {
    let stored = storage_depth(image.output_bit_depth);
    if stored != asked {
        Some(
            DecodeError::Unsupported(
                Wording::Template(
                    Detail::Two(
                        "uncompressed HEIF storage is RGBA{}, not RGBA{}",
                        Arg::Num(stored as i128),
                        Arg::Num(asked as i128),
                    ),
                ),
            ),
        )
    } else {
        match output_error(transforms, image.width, image.height, actual, uncompressed_stage()) {
            Some(e) => Some(DecodeError::TransformGuard(e)),
            None => match transformed_size(
                transforms,
                image.width,
                image.height,
                transforms.len(),
            ) {
                Err(e) => Some(DecodeError::TransformGuard(e)),
                Ok(_) => None,
            },
        }
    }
}

/// Why an image cannot be written into a buffer of samples, if it cannot.
pub open spec fn buffer_error(
    image: ChannelImage,
    transforms: Seq<PrimaryItemTransformProperty>,
    asked: u8,
    actual: int,
) -> Option<DecodeError> {
    match buffer_refused(image, transforms, asked, actual) {
        Some(e) => Some(e),
        None => {
            let (width, height) = transformed_size(
                transforms,
                image.width,
                image.height,
                transforms.len(),
            )->Ok_0;
            match first_error(image, transforms, width as int, (width * height) as nat) {
                Some(e) => Some(DecodeError::UncompressedDecode(e)),
                None => None,
            }
        },
    }
}

/// Whether four samples are those of a pixel, scaled.
pub open spec fn holds_pixel<
    T: Copy,
    S: SampleScale<T>,
    F: Fn(PreparedYcbcrToRgb, i32, i32, i32) -> (u16, u16, u16),
>(image: ChannelImage, pixel: int, float_kernel: F, samples: Seq<T>) -> bool {
    exists|rgba: Seq<u16>|
        {
            &&& #[trigger] image.pixel_is(float_kernel, pixel, rgba)
            &&& samples == scaled_samples::<T, S>(rgba, image.output_bit_depth)
        }
}

/// Whether the first pixels of a buffer show an image behind transforms.
pub open spec fn shows_pixels<
    T: Copy,
    S: SampleScale<T>,
    F: Fn(PreparedYcbcrToRgb, i32, i32, i32) -> (u16, u16, u16),
>(
    image: ChannelImage,
    transforms: Seq<PrimaryItemTransformProperty>,
    width: int,
    float_kernel: F,
    samples: Seq<T>,
    count: int,
) -> bool {
    forall|k: int|
        0 <= k < count ==> holds_pixel::<T, S, F>(
            image,
            pixel_source(image, transforms, width, k),
            float_kernel,
            #[trigger] samples.subrange(4 * k, 4 * k + 4),
        )
}

/// Whether a buffer shows an image behind transforms.
pub open spec fn buffer_shows<
    T: Copy,
    S: SampleScale<T>,
    F: Fn(PreparedYcbcrToRgb, i32, i32, i32) -> (u16, u16, u16),
>(
    image: ChannelImage,
    transforms: Seq<PrimaryItemTransformProperty>,
    float_kernel: F,
    samples: Seq<T>,
) -> bool {
    match transformed_size(transforms, image.width, image.height, transforms.len()) {
        Err(_) => false,
        Ok((width, height)) => {
            &&& samples.len() == 4 * (width * height)
            &&& shows_pixels::<T, S, F>(
                image,
                transforms,
                width as int,
                float_kernel,
                samples,
                width * height,
            )
        },
    }
}

/// Writes the samples of a pixel, scaled.
fn write_pixel<T: Copy, S: SampleScale<T>, O: RgbaSampleOutput<T> + ?Sized>(
    out: &mut O,
    order: ByteOrder,
    k: usize,
    rgba: &[u16; 4],
    bit_depth: u8,
)
    requires
        1 <= bit_depth <= 16,
        4 * k + 4 <= old(out).samples(order).len() <= usize::MAX,
    ensures
        final(out).samples(order).len() == old(out).samples(order).len(),
        final(out).rest() == old(out).rest(),
        final(out).samples(order).subrange(4 * k as int, 4 * k + 4) == scaled_samples::<T, S>(
            rgba@,
            bit_depth,
        ),
        forall|i: int|
            0 <= i < k ==> #[trigger] final(out).samples(order).subrange(4 * i, 4 * i + 4) == old(
                out,
            ).samples(order).subrange(4 * i, 4 * i + 4),
        forall|i: int|
            4 * k + 4 <= i < old(out).samples(order).len() ==> #[trigger] final(out).samples(
                order,
            )[i] == old(out).samples(order)[i],
{
    let ghost before = out.samples(order);
    out.write_sample(order, 4 * k, S::scale(rgba[0], bit_depth));
    out.write_sample(order, 4 * k + 1, S::scale(rgba[1], bit_depth));
    out.write_sample(order, 4 * k + 2, S::scale(rgba[2], bit_depth));
    out.write_sample(order, 4 * k + 3, S::scale(rgba[3], bit_depth));
    proof {
        let after = out.samples(order);
        assert(after.subrange(4 * k as int, 4 * k + 4) =~= scaled_samples::<T, S>(
            rgba@,
            bit_depth,
        ));
        assert forall|i: int| 0 <= i < k implies #[trigger] after.subrange(4 * i, 4 * i + 4)
            == before.subrange(4 * i, 4 * i + 4) by {
            assert(after.subrange(4 * i, 4 * i + 4) =~= before.subrange(4 * i, 4 * i + 4));
        }
    }
}

/// Whether a buffer of `before` holds what was written into it up to the first
/// pixel that cannot be had, and beyond that what was there.
pub open spec fn buffer_begun<
    T: Copy,
    S: SampleScale<T>,
    F: Fn(PreparedYcbcrToRgb, i32, i32, i32) -> (u16, u16, u16),
>(
    image: ChannelImage,
    transforms: Seq<PrimaryItemTransformProperty>,
    float_kernel: F,
    before: Seq<T>,
    samples: Seq<T>,
) -> bool {
    let width = transformed_size(
        transforms,
        image.width,
        image.height,
        transforms.len(),
    )->Ok_0.0 as int;
    exists|k: nat|
        {
            &&& 4 * k < before.len()
            &&& #[trigger] first_error(image, transforms, width, k) is None
            &&& image.pixel_error(pixel_source(image, transforms, width, k as int)) is Some
            &&& shows_pixels::<T, S, F>(
                image,
                transforms,
                width,
                float_kernel,
                samples,
                k as int,
            )
            &&& forall|i: int| 4 * k <= i < before.len() ==> #[trigger] samples[i] == before[i]
        }
}

/// Writes an image behind transforms into a buffer. Where a pixel cannot be
/// had, those before it have been written.
pub fn uncompressed_channels_to_rgba_output<
    T: Copy,
    S: SampleScale<T>,
    O: RgbaSampleOutput<T> + ?Sized,
    F: Fn(PreparedYcbcrToRgb, i32, i32, i32) -> (u16, u16, u16),
>(
    decoded: &DecodedUncompressedChannels,
    transforms: &[PrimaryItemTransformProperty],
    out: &mut O,
    order: ByteOrder,
    storage_bit_depth: u8,
    float_kernel: &F,
) -> (result: Result<(), DecodeError>)
    requires
        decoded@.wf(),
        decoded@.pixels() <= usize::MAX,
        1 <= decoded.output_bit_depth <= 16,
        transforms_wf(transforms@),
        kernel_ready(*float_kernel),
    ensures
        final(out).samples(order).len() == old(out).samples(order).len(),
        final(out).rest() == old(out).rest(),
        buffer_refused(
            decoded@,
            transforms@,
            storage_bit_depth,
            old(out).samples(order).len() as int,
        ) is Some ==> forall|o: ByteOrder| #[trigger]
            final(out).samples(o) == old(out).samples(o),
        match buffer_error(
            decoded@,
            transforms@,
            storage_bit_depth,
            old(out).samples(order).len() as int,
        ) {
            Some(e) => {
                &&& result == Err::<(), DecodeError>(e)
                &&& buffer_refused(
                    decoded@,
                    transforms@,
                    storage_bit_depth,
                    old(out).samples(order).len() as int,
                ) is None ==> buffer_begun::<T, S, F>(
                    decoded@,
                    transforms@,
                    *float_kernel,
                    old(out).samples(order),
                    final(out).samples(order),
                )
            },
            None => result is Ok && buffer_shows::<T, S, F>(
                decoded@,
                transforms@,
                *float_kernel,
                final(out).samples(order),
            ),
        },
{
    let stored: u8 = heic_storage_bit_depth(decoded.output_bit_depth);
    if stored != storage_bit_depth {
        return Err(
            DecodeError::Unsupported(
                Wording::Template(
                    Detail::Two(
                        "uncompressed HEIF storage is RGBA{}, not RGBA{}",
                        Arg::Num(stored as i128),
                        Arg::Num(storage_bit_depth as i128),
                    ),
                ),
            ),
        );
    }
    let total: usize = out.sample_len();
    let plan: RgbaTransformPlan = match plan_output(
        decoded.width,
        decoded.height,
        transforms,
        total,
        "uncompressed HEIF direct transformed image adapter output",
    ) {
        Ok(plan) => plan,
        Err(e) => {
            return Err(DecodeError::TransformGuard(e));
        },
    };
    let pixels: usize = total / 4;
    let width: usize = plan.destination_width as usize;
    let source_width: usize = plan.source_width as usize;
    let ghost failing = buffer_error(decoded@, transforms@, storage_bit_depth, total as int);
    let mut k: usize = 0;
    while k < pixels
        invariant
            k <= pixels,
            decoded@.wf(),
            1 <= decoded.output_bit_depth <= 16,
            kernel_ready(*float_kernel),
            plan.wf(),
            plan.plans(transforms@, decoded.width, decoded.height),
            pixels == plan.destination_width * plan.destination_height,
            total == 4 * pixels,
            width == plan.destination_width,
            source_width == plan.source_width,
            decoded@.pixels() <= usize::MAX,
            out.samples(order).len() == total,
            out.rest() == old(out).rest(),
            total == old(out).samples(order).len(),
            forall|i: int|
                4 * k <= i < total ==> #[trigger] out.samples(order)[i] == old(out).samples(
                    order,
                )[i],
            failing == buffer_error(decoded@, transforms@, storage_bit_depth, total as int),
            buffer_refused(decoded@, transforms@, storage_bit_depth, total as int) is None,
            failing == (match first_error(decoded@, transforms@, width as int, pixels as nat) {
                Some(e) => Some(DecodeError::UncompressedDecode(e)),
                None => None,
            }),
            first_error(decoded@, transforms@, width as int, k as nat) is None,
            shows_pixels::<T, S, F>(
                decoded@,
                transforms@,
                width as int,
                *float_kernel,
                out.samples(order),
                k as int,
            ),
        decreases pixels - k,
    {
        proof {
            lemma_place_of(
                k as int,
                plan.destination_width as int,
                plan.destination_height as int,
            );
        }
        let x: usize = k % width;
        let y: usize = k / width;
        let (source_x, source_y): (usize, usize) = plan.source_pixel(x, y);
        proof {
            lemma_plan_places(
                &plan,
                transforms@,
                decoded.width,
                decoded.height,
                (x as int, y as int),
            );
            lemma_index_of(
                (source_x as int, source_y as int),
                plan.source_width as int,
                plan.source_height as int,
            );
            assert(0 <= source_y * source_width) by (nonlinear_arith);
        }
        let source: usize = source_y * source_width + source_x;
        assert(source as int == pixel_source(decoded@, transforms@, width as int, k as int));
        let rgba: [u16; 4] = match decoded.rgba_at(source, float_kernel) {
            Ok(rgba) => rgba,
            Err(e) => {
                proof {
                    lemma_first_error(
                        decoded@,
                        transforms@,
                        width as int,
                        (k + 1) as nat,
                        pixels as nat,
                    );
                }
                return Err(DecodeError::UncompressedDecode(e));
            },
        };
        let ghost before = out.samples(order);
        write_pixel::<T, S, O>(out, order, k, &rgba, decoded.output_bit_depth);
        proof {
            let after = out.samples(order);
            assert forall|i: int| 0 <= i < k + 1 implies holds_pixel::<T, S, F>(
                decoded@,
                pixel_source(decoded@, transforms@, width as int, i),
                *float_kernel,
                #[trigger] after.subrange(4 * i, 4 * i + 4),
            ) by {
                if i < k {
                    assert(after.subrange(4 * i, 4 * i + 4) == before.subrange(4 * i, 4 * i + 4));
                } else {
                    assert(decoded@.pixel_is(*float_kernel, source as int, rgba@));
                }
            }
        }
        k = k + 1;
    }
    Ok(())
}

/// Whether an image holds the pixels of decoded channels.
pub open spec fn image_of<F: Fn(PreparedYcbcrToRgb, i32, i32, i32) -> (u16, u16, u16)>(
    image: ChannelImage,
    float_kernel: F,
    decoded: &DecodedUncompressedImage,
) -> bool {
    &&& decoded.width == image.width
    &&& decoded.height == image.height
    &&& decoded.bit_depth == image.output_bit_depth
    &&& profile_is(decoded.icc_profile, image.icc)
    &&& holds_pixels(image, float_kernel, decoded.rgba@, image.pixels())
}

/// Decodes an uncompressed (`unci`) item into an RGBA image.
pub fn decode_uncompressed_heif_to_rgba<
    F: Fn(PreparedYcbcrToRgb, i32, i32, i32) -> (u16, u16, u16),
>(
    properties: &UncompressedPrimaryItemProperties,
    item: UncompressedItemData,
    guardrails: &DecodeGuardrails,
    transforms: &[PrimaryItemTransformProperty],
    float_kernel: &F,
) -> (result: Result<DecodedRgbaImage, DecodeError>)
    requires
        properties.wf(),
        transforms_wf(transforms@),
        kernel_ready(*float_kernel),
    ensures
        result is Ok ==> guardrails.pixel_error(properties.width, properties.height) is None,
        match decoded_item(properties, &item) {
            Err(why) => result matches Err(DecodeError::UncompressedDecode(e)) && reports(e, why),
            Ok(image) => match image.image_error() {
                Some(e) => result == Err::<DecodedRgbaImage, DecodeError>(
                    DecodeError::UncompressedDecode(e),
                ),
                None => match guardrails.pixel_error(properties.width, properties.height) {
                    Some(e) => result == Err::<DecodedRgbaImage, DecodeError>(e),
                    None => exists|decoded: DecodedUncompressedImage|
                        {
                            &&& #[trigger] image_of(image, *float_kernel, &decoded)
                            &&& match rgba_error(&decoded, transforms@) {
                                Some(e) => result == Err::<DecodedRgbaImage, DecodeError>(e),
                                None => result is Ok && rgba_shows(
                                    &decoded,
                                    transforms@,
                                    result->Ok_0,
                                ),
                            }
                        },
                },
            },
        },
{
    let decoded: DecodedUncompressedImage = match decode_primary_uncompressed_to_image(
        properties,
        item,
        float_kernel,
    ) {
        Ok(decoded) => decoded,
        Err(e) => {
            return Err(DecodeError::UncompressedDecode(e));
        },
    };
    assert(image_of(decoded_item(properties, &item)->Ok_0, *float_kernel, &decoded));
    guardrails.enforce_pixel_count(decoded.width, decoded.height)?;
    decoded_uncompressed_to_rgba_image(decoded, transforms)
}

/// A decoded item whose buffer is not refused is written.
proof fn lemma_item_written(
    properties: &UncompressedPrimaryItemProperties,
    item: &UncompressedItemData,
    transforms: Seq<PrimaryItemTransformProperty>,
    asked: u8,
    actual: int,
)
    requires
        properties.wf(),
        transforms_wf(transforms),
    ensures
        decoded_item(properties, item) matches Ok(image) ==> buffer_error(
            image,
            transforms,
            asked,
            actual,
        ) == buffer_refused(image, transforms, asked, actual),
{
    lemma_decoded_pixels(properties, item);
    if let Ok(image) = decoded_item(properties, item) {
        if buffer_refused(image, transforms, asked, actual) is None {
            let size = transformed_size(
                transforms,
                image.width,
                image.height,
                transforms.len(),
            )->Ok_0;
            vstd::arithmetic::mul::lemma_mul_nonnegative(size.0 as int, size.1 as int);
            lemma_no_first_error(image, transforms, size, (size.0 * size.1) as nat);
        }
    }
}

/// Decodes an uncompressed (`unci`) item into a buffer of eight-bit samples.
pub fn decode_uncompressed_heif_to_rgba8_slice<
    F: Fn(PreparedYcbcrToRgb, i32, i32, i32) -> (u16, u16, u16),
>(
    properties: &UncompressedPrimaryItemProperties,
    item: UncompressedItemData,
    guardrails: &DecodeGuardrails,
    transforms: &[PrimaryItemTransformProperty],
    out: &mut [u8],
    float_kernel: &F,
) -> (result: Result<(), DecodeError>)
    requires
        properties.wf(),
        transforms_wf(transforms@),
        kernel_ready(*float_kernel),
    ensures
        final(out)@.len() == old(out)@.len(),
        result is Err ==> final(out)@ == old(out)@,
        match guardrails.pixel_error(properties.width, properties.height) {
            Some(e) => result == Err::<(), DecodeError>(e),
            None => match decoded_item(properties, &item) {
                Err(why) => result matches Err(DecodeError::UncompressedDecode(e)) && reports(
                    e,
                    why,
                ),
                Ok(image) => match buffer_error(image, transforms@, 8, old(out)@.len() as int) {
                    Some(e) => result == Err::<(), DecodeError>(e),
                    None => result is Ok && buffer_shows::<u8, ScaleToU8, F>(
                        image,
                        transforms@,
                        *float_kernel,
                        final(out)@,
                    ),
                },
            },
        },
{
    guardrails.enforce_pixel_count(properties.width, properties.height)?;
    let decoded: DecodedUncompressedChannels = match decode_primary_uncompressed_to_channels(
        properties,
        item,
    ) {
        Ok(decoded) => decoded,
        Err(e) => {
            return Err(DecodeError::UncompressedDecode(e));
        },
    };
    proof {
        lemma_item_written(properties, &item, transforms@, 8, out@.len() as int);
    }
    uncompressed_channels_to_rgba_output::<u8, ScaleToU8, [u8], F>(
        &decoded,
        transforms,
        out,
        ByteOrder::LittleEndian,
        8,
        float_kernel,
    )
}

/// Decodes an uncompressed (`unci`) item into the bytes of sixteen-bit
/// samples, in the byte order of the machine.
pub fn decode_uncompressed_heif_to_rgba16_native_endian_bytes<
    F: Fn(PreparedYcbcrToRgb, i32, i32, i32) -> (u16, u16, u16),
>(
    properties: &UncompressedPrimaryItemProperties,
    item: UncompressedItemData,
    guardrails: &DecodeGuardrails,
    transforms: &[PrimaryItemTransformProperty],
    out: &mut [u8],
    float_kernel: &F,
) -> (result: Result<(), DecodeError>)
    requires
        properties.wf(),
        transforms_wf(transforms@),
        kernel_ready(*float_kernel),
    ensures
        final(out)@.len() == old(out)@.len(),
        unpaired(final(out)@) == unpaired(old(out)@),
        result is Err ==> final(out)@ == old(out)@,
        match guardrails.pixel_error(properties.width, properties.height) {
            Some(e) => result == Err::<(), DecodeError>(e),
            None => match decoded_item(properties, &item) {
                Err(why) => result matches Err(DecodeError::UncompressedDecode(e)) && reports(
                    e,
                    why,
                ),
                Ok(image) => match buffer_error(
                    image,
                    transforms@,
                    16,
                    old(out)@.len() as int / 2,
                ) {
                    Some(e) => result == Err::<(), DecodeError>(e),
                    None => result is Ok && buffer_shows::<u16, ScaleToU16, F>(
                        image,
                        transforms@,
                        *float_kernel,
                        paired(final(out)@, machine_order()),
                    ),
                },
            },
        },
{
    guardrails.enforce_pixel_count(properties.width, properties.height)?;
    let decoded: DecodedUncompressedChannels = match decode_primary_uncompressed_to_channels(
        properties,
        item,
    ) {
        Ok(decoded) => decoded,
        Err(e) => {
            return Err(DecodeError::UncompressedDecode(e));
        },
    };
    let order: ByteOrder = native_byte_order();
    let ghost before = out@;
    assert(paired(before, order).len() == before.len() as int / 2);
    let result = uncompressed_channels_to_rgba_output::<u16, ScaleToU16, [u8], F>(
        &decoded,
        transforms,
        out,
        order,
        16,
        float_kernel,
    );
    proof {
        assert(RgbaSampleOutput::<u16>::samples(out, order) == paired(out@, order));
        lemma_paired_length(before, order);
        lemma_paired_length(out@, order);
        if result is Err {
            lemma_item_written(properties, &item, transforms@, 16, before.len() as int / 2);
            lemma_same_pairs(before, out@, order);
        }
    }
    result
}

/// The bit depth that the properties of an item announce is that of its
/// decoded channels.
pub proof fn lemma_announced_depth(
    properties: &UncompressedPrimaryItemProperties,
    item: &UncompressedItemData,
)
    ensures
        decoded_item(properties, item) matches Ok(image) ==> {
            &&& output_depth_of_properties(properties) == Ok::<u8, DecodeUncompressedError>(
                image.output_bit_depth,
            )
            &&& image.width == properties.width
            &&& image.height == properties.height
        },
{
}

/// A pixel has one colour and one opacity.
proof fn lemma_one_pixel<F: Fn(PreparedYcbcrToRgb, i32, i32, i32) -> (u16, u16, u16)>(
    image: ChannelImage,
    float_kernel: F,
    pixel: int,
    one: Seq<u16>,
    other: Seq<u16>,
)
    requires
        image.converter matches Some(converter) ==> settled(converter, float_kernel),
        image.pixel_is(float_kernel, pixel, one),
        image.pixel_is(float_kernel, pixel, other),
    ensures
        one == other,
{
    if let Ok(PixelColour::Ycbcr(y, cb, cr)) = image.colour(pixel) {
        let converter = image.converter->0;
        match converter.transform {
            PreparedYcbcrTransform::IdentityFull => {},
            PreparedYcbcrTransform::MatrixFull { .. } => {},
            _ => {
                assert(float_kernel.ensures(
                    (converter, y as i32, cb as i32, cr as i32),
                    (one[0], one[1], one[2]),
                ));
                assert(float_kernel.ensures(
                    (converter, y as i32, cb as i32, cr as i32),
                    (other[0], other[1], other[2]),
                ));
            },
        }
    }
    assert(one =~= other);
}

/// An uncompressed item is shown in one way: what is written into a buffer is
/// what its RGBA image holds.
pub proof fn lemma_one_uncompressed_picture<
    T: Copy,
    S: SampleScale<T>,
    F: Fn(PreparedYcbcrToRgb, i32, i32, i32) -> (u16, u16, u16),
>(
    image: ChannelImage,
    transforms: Seq<PrimaryItemTransformProperty>,
    float_kernel: F,
    decoded: &DecodedUncompressedImage,
    shown: (u32, u32, Seq<T>),
    buffer: Seq<T>,
)
    requires
        image.converter matches Some(converter) ==> settled(converter, float_kernel),
        image_of(image, float_kernel, decoded),
        transformed(
            4,
            transforms,
            decoded.width,
            decoded.height,
            scaled_samples::<T, S>(decoded.rgba@, decoded.bit_depth),
            shown,
            transforms.len(),
        ),
        buffer_shows::<T, S, F>(image, transforms, float_kernel, buffer),
    ensures
        buffer == shown.2,
{
    let (width, height) = (shown.0 as int, shown.1 as int);
    let all = scaled_samples::<T, S>(decoded.rgba@, decoded.bit_depth);
    assert forall|i: int| 0 <= i < buffer.len() implies buffer[i] == shown.2[i] by {
        let k = i / 4;
        let place = place_of(k, width);
        lemma_place_of(k, width, height);
        lemma_source_place(transforms, image.width, image.height, transforms.len(), place);
        let from = sources(transforms, image.width, image.height, transforms.len())(place);
        lemma_index_of(from, image.width as int, image.height as int);
        let source = index_of(from, image.width as int);
        assert(source == pixel_source(image, transforms, width, k));
        assert(holds_pixel::<T, S, F>(
            image,
            source,
            float_kernel,
            buffer.subrange(4 * k, 4 * k + 4),
        ));
        let rgba = choose|rgba: Seq<u16>|
            {
                &&& #[trigger] image.pixel_is(float_kernel, source, rgba)
                &&& buffer.subrange(4 * k, 4 * k + 4) == scaled_samples::<T, S>(
                    rgba,
                    image.output_bit_depth,
                )
            };
        assert(image.pixel_is(float_kernel, source, pixel_of(decoded.rgba@, source)));
        lemma_one_pixel(image, float_kernel, source, rgba, pixel_of(decoded.rgba@, source));
        assert(pixel_at(shown.2, 4, k) == pixel_at(all, 4, source));
        assert(buffer.subrange(4 * k, 4 * k + 4)[i - 4 * k] == buffer[i]);
        assert(pixel_at(shown.2, 4, k)[i - 4 * k] == shown.2[i]);
        assert(pixel_at(all, 4, source)[i - 4 * k] == all[4 * source + (i - 4 * k)]);
    }
    assert(buffer =~= shown.2);
}

/// Where every pixel of an image can be had, each of them can.
proof fn lemma_pixels_had(image: ChannelImage, count: nat, pixel: int)
    requires
        image.first_pixel_error(count) is None,
        0 <= pixel < count,
    ensures
        image.pixel_error(pixel) is None,
    decreases count,
{
    if pixel < count - 1 {
        lemma_pixels_had(image, (count - 1) as nat, pixel);
    }
}

/// Where every pixel of an image can be had, they can behind transforms.
proof fn lemma_no_first_error(
    image: ChannelImage,
    transforms: Seq<PrimaryItemTransformProperty>,
    size: (u32, u32),
    count: nat,
)
    requires
        image.first_pixel_error(image.pixels() as nat) is None,
        transformed_size(transforms, image.width, image.height, transforms.len()) == Ok::<
            (u32, u32),
            TransformGuardError,
        >(size),
        count <= size.0 * size.1,
    ensures
        first_error(image, transforms, size.0 as int, count) is None,
    decreases count,
{
    if count > 0 {
        lemma_no_first_error(image, transforms, size, (count - 1) as nat);
        let place = place_of(count - 1, size.0 as int);
        lemma_place_of(count - 1, size.0 as int, size.1 as int);
        lemma_source_place(transforms, image.width, image.height, transforms.len(), place);
        let from = sources(transforms, image.width, image.height, transforms.len())(place);
        lemma_index_of(from, image.width as int, image.height as int);
        lemma_pixels_had(
            image,
            image.pixels() as nat,
            pixel_source(image, transforms, size.0 as int, count - 1),
        );
    }
}

/// A buffer of the size and the depth of the image is taken wherever the image
/// can be had and has pixels.
pub proof fn lemma_buffer_taken(
    image: ChannelImage,
    transforms: Seq<PrimaryItemTransformProperty>,
    size: (u32, u32),
)
    requires
        image.image_error() is None,
        0 < image.width,
        0 < image.height,
        transformed_size(transforms, image.width, image.height, transforms.len()) == Ok::<
            (u32, u32),
            TransformGuardError,
        >(size),
    ensures
        buffer_error(
            image,
            transforms,
            storage_depth(image.output_bit_depth),
            4 * (size.0 * size.1),
        ) is None,
{
    lemma_source_place(transforms, image.width, image.height, transforms.len(), (0, 0));
    lemma_no_first_error(image, transforms, size, (size.0 * size.1) as nat);
    assert(size.0 * size.1 * 4 == 4 * (size.0 * size.1)) by (nonlinear_arith);
}

} // verus!
