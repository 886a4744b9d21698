//! Decoded HEIC images as RGBA and RGB images.
use super::convert::{convert_heic_to_rgb8, convert_heic_to_rgba16, convert_heic_to_rgba8};
#[allow(unused_imports)]
use super::convert::owned_convert_error;
use super::crop::crop_heic_by_leading_chroma_aligned_clean_apertures;
#[allow(unused_imports)]
use super::crop::{chroma_aligned, crop_outcome, leading_crops, lemma_aligned_crop};
#[allow(unused_imports)]
use super::heic::{alpha_error, depth_error, heic_image};
use super::heic::{heic_bit_depth_for_png_conversion, validate_auxiliary_alpha_plane};
#[allow(unused_imports)]
use super::image::{Opacity, YuvImage};
use crate::errors::{invalid_frame, DecodeError, DecodeHeicError};
#[allow(unused_imports)]
use crate::errors::{bad_frame, first, TransformGuardError};
#[allow(unused_imports)]
use crate::output::ScaleToRgb8;
use crate::output::{SampleScale, ScaleToU16, ScaleToU8};
use crate::rgba::{DecodedRgbImage, DecodedRgbaImage, DecodedRgbaPixels};
use crate::text::{Arg, Detail};
use crate::transform::mapping::PrimaryItemTransformProperty;
#[allow(unused_imports)]
use crate::transform::mapping::{
    inside, lemma_first_transform, lemma_source_place, size_behind, source_place, transformed_size,
    transforms_wf,
};
#[allow(unused_imports)]
use crate::transform::paste::own_place;
use crate::transform::pixels::apply_primary_item_transforms_rgba;
#[allow(unused_imports)]
use crate::transform::pixels::{
    gathered, index_of, lemma_channel_bounds, lemma_index_of, lemma_place_of, pixel_at, place_of,
    sources, transformed,
};
use crate::transform::plan::apply_primary_item_transforms_rgb8;
use crate::types::{DecodedHeicImage, HeicAuxiliaryAlphaPlane};
#[allow(unused_imports)]
use crate::types::HeicView;
use crate::ycbcr::PreparedYcbcrToRgb;
#[allow(unused_imports)]
use crate::ycbcr::kernel_ready;
use vstd::prelude::*;

verus! {

/// An image that gathers the pixels of a converted image shows what that
/// image shows.
pub proof fn lemma_gathered_shown<
    T: Copy,
    S: SampleScale<T>,
    F: Fn(PreparedYcbcrToRgb, i32, i32, i32) -> (u16, u16, u16),
>(
    image: YuvImage,
    float_kernel: F,
    channels: int,
    pixels: Seq<T>,
    result: Seq<T>,
    size: (u32, u32),
    from: spec_fn((int, int)) -> (int, int),
)
    requires
        3 <= channels <= 4,
        pixels.len() == channels * (image.width * image.height),
        image.shown_as::<T, S, F>(
            float_kernel,
            channels,
            pixels,
            image.width as int,
            image.width * image.height,
            own_place(),
        ),
        gathered(
            channels,
            pixels,
            image.width as int,
            result,
            size.0 as int,
            size.0 * size.1,
            from,
        ),
        forall|place: (int, int)|
            inside(place, size.0, size.1) ==> inside(
                #[trigger] from(place),
                image.width,
                image.height,
            ),
    ensures
        image.shown_as::<T, S, F>(
            float_kernel,
            channels,
            result,
            size.0 as int,
            size.0 * size.1,
            from,
        ),
{
    let width = image.width as int;
    assert forall|k: int| 0 <= k < size.0 * size.1 implies image.shows::<T, S, F>(
        float_kernel,
        from(#[trigger] place_of(k, size.0 as int)),
        channels,
        result,
        channels * k,
    ) by {
        lemma_place_of(k, size.0 as int, size.1 as int);
        let place = from(place_of(k, size.0 as int));
        let j = index_of(place, width);
        lemma_index_of(place, width, image.height as int);
        assert(own_place()(place_of(j, width)) == place);
        assert(image.shows::<T, S, F>(float_kernel, place, channels, pixels, channels * j));
        lemma_channel_bounds(j, width * image.height, channels, pixels.len() as int);
        lemma_channel_bounds(k, size.0 * size.1, channels, result.len() as int);
        assert(pixel_at(result, channels, k) == pixel_at(pixels, channels, j));
        assert forall|c: int| 0 <= c < channels implies #[trigger] result[channels * k + c]
            == pixels[channels * j + c] by {
            assert(pixel_at(result, channels, k)[c] == result[channels * k + c]);
            assert(pixel_at(pixels, channels, j)[c] == pixels[channels * j + c]);
        }
        assert(result[channels * k + 0] == pixels[channels * j + 0]);
        assert(result[channels * k + 1] == pixels[channels * j + 1]);
        assert(result[channels * k + 2] == pixels[channels * j + 2]);
        let rgb = choose|rgb: (u16, u16, u16)|
            {
                &&& #[trigger] image.rgb_is(float_kernel, place, rgb)
                &&& pixels[channels * j] == S::scaled(rgb.0, image.converter.bit_depth)
                &&& pixels[channels * j + 1] == S::scaled(rgb.1, image.converter.bit_depth)
                &&& pixels[channels * j + 2] == S::scaled(rgb.2, image.converter.bit_depth)
            };
        assert(image.rgb_is(float_kernel, place, rgb));
        if channels == 4 {
            assert(result[channels * k + 3] == pixels[channels * j + 3]);
        }
    }
}

/// The opacity that an auxiliary plane gives to an image.
pub open spec fn plane_opacity(alpha: Option<&HeicAuxiliaryAlphaPlane>) -> Option<Opacity> {
    match alpha {
        None => None,
        Some(plane) => Some(
            Opacity { bit_depth: plane.bit_depth, samples: plane.samples@ },
        ),
    }
}

/// Why an opacity plane cannot be laid over an RGBA buffer, if it cannot.
pub open spec fn composition_error(
    alpha: &HeicAuxiliaryAlphaPlane,
    width: u32,
    height: u32,
    label: &'static str,
    actual: int,
) -> Option<DecodeHeicError> {
    first(
        alpha_error(alpha, width, height),
        if width * height * 4 > usize::MAX {
            Some(
                bad_frame(
                    Detail::Three(
                        "{} alpha composition sample-count overflow for {}x{}",
                        Arg::Word(label),
                        Arg::Num(width as i128),
                        Arg::Num(height as i128),
                    ),
                ),
            )
        } else if actual != width * height * 4 {
            Some(
                bad_frame(
                    Detail::Three(
                        "{} alpha composition input has {} samples, expected {}",
                        Arg::Word(label),
                        Arg::Num(actual as i128),
                        Arg::Num((width * height * 4) as i128),
                    ),
                ),
            )
        } else {
            None
        },
    )
}

/// Whether a buffer is another one with the opacity of each pixel replaced.
pub open spec fn composited<T: Copy, S: SampleScale<T>>(
    before: Seq<T>,
    after: Seq<T>,
    alpha: &HeicAuxiliaryAlphaPlane,
) -> bool {
    &&& after.len() == before.len()
    &&& forall|i: int|
        0 <= i < before.len() ==> #[trigger] after[i] == if i % 4 == 3 {
            S::scaled(alpha.samples@[i / 4], alpha.bit_depth)
        } else {
            before[i]
        }
}

/// Lays an opacity plane over an RGBA buffer.
pub(crate) fn apply_auxiliary_alpha<T: Copy, S: SampleScale<T>>(
    rgba: &mut [T],
    width: u32,
    height: u32,
    alpha: &HeicAuxiliaryAlphaPlane,
    label: &'static str,
) -> (result: Result<(), DecodeHeicError>)
    ensures
        match composition_error(alpha, width, height, label, old(rgba)@.len() as int) {
            Some(e) => result == Err::<(), DecodeHeicError>(e) && final(rgba)@ == old(rgba)@,
            None => result is Ok && composited::<T, S>(old(rgba)@, final(rgba)@, alpha),
        },
{
    let ghost before = rgba@;
    let pixels: usize = validate_auxiliary_alpha_plane(alpha, width, height)?;
    let expected: usize = match pixels.checked_mul(4) {
        Some(count) => count,
        None => {
            return invalid_frame(
                Detail::Three(
                    "{} alpha composition sample-count overflow for {}x{}",
                    Arg::Word(label),
                    Arg::Num(width as i128),
                    Arg::Num(height as i128),
                ),
            );
        },
    };
    if rgba.len() != expected {
        return invalid_frame(
            Detail::Three(
                "{} alpha composition input has {} samples, expected {}",
                Arg::Word(label),
                Arg::Num(rgba.len() as i128),
                Arg::Num(expected as i128),
            ),
        );
    }
    let mut k: usize = 0;
    while k < pixels
        invariant
            k <= pixels,
            pixels * 4 == expected,
            rgba@.len() == expected,
            before.len() == expected,
            alpha.samples@.len() == pixels,
            1 <= alpha.bit_depth <= 16,
            forall|i: int|
                0 <= i < before.len() ==> #[trigger] rgba@[i] == if i % 4 == 3 && i < 4 * k {
                    S::scaled(alpha.samples@[i / 4], alpha.bit_depth)
                } else {
                    before[i]
                },
        decreases pixels - k,
    {
        let sample: T = S::scale(alpha.samples[k], alpha.bit_depth);
        rgba[4 * k + 3] = sample;
        k = k + 1;
    }
    Ok(())
}

/// Lays an opacity plane over an RGBA buffer of eight bits.
pub fn apply_auxiliary_alpha_to_rgba8(
    rgba: &mut [u8],
    width: u32,
    height: u32,
    alpha: &HeicAuxiliaryAlphaPlane,
) -> (result: Result<(), DecodeHeicError>)
    ensures
        match composition_error(alpha, width, height, "RGBA8", old(rgba)@.len() as int) {
            Some(e) => result == Err::<(), DecodeHeicError>(e) && final(rgba)@ == old(rgba)@,
            None => result is Ok && composited::<u8, ScaleToU8>(old(rgba)@, final(rgba)@, alpha),
        },
{
    apply_auxiliary_alpha::<u8, ScaleToU8>(rgba, width, height, alpha, "RGBA8")
}

/// Lays an opacity plane over an RGBA buffer of sixteen bits.
pub fn apply_auxiliary_alpha_to_rgba16(
    rgba: &mut [u16],
    width: u32,
    height: u32,
    alpha: &HeicAuxiliaryAlphaPlane,
) -> (result: Result<(), DecodeHeicError>)
    ensures
        match composition_error(alpha, width, height, "RGBA16", old(rgba)@.len() as int) {
            Some(e) => result == Err::<(), DecodeHeicError>(e) && final(rgba)@ == old(rgba)@,
            None => result is Ok && composited::<u16, ScaleToU16>(
                old(rgba)@,
                final(rgba)@,
                alpha,
            ),
        },
{
    apply_auxiliary_alpha::<u16, ScaleToU16>(rgba, width, height, alpha, "RGBA16")
}

/// A converted image with an opacity plane laid over it shows the image with
/// that opacity.
pub proof fn lemma_composited_shown<
    T: Copy,
    S: SampleScale<T>,
    F: Fn(PreparedYcbcrToRgb, i32, i32, i32) -> (u16, u16, u16),
>(
    decoded: HeicView,
    alpha: &HeicAuxiliaryAlphaPlane,
    float_kernel: F,
    before: Seq<T>,
    after: Seq<T>,
)
    requires
        before.len() == 4 * (decoded.width * decoded.height),
        heic_image(decoded, None).shown_as::<T, S, F>(
            float_kernel,
            4,
            before,
            decoded.width as int,
            decoded.width * decoded.height,
            own_place(),
        ),
        composited::<T, S>(before, after, alpha),
    ensures
        heic_image(decoded, plane_opacity(Some(alpha))).shown_as::<T, S, F>(
            float_kernel,
            4,
            after,
            decoded.width as int,
            decoded.width * decoded.height,
            own_place(),
        ),
{
    let width = decoded.width as int;
    let bare = heic_image(decoded, None);
    let image = heic_image(decoded, plane_opacity(Some(alpha)));
    assert forall|k: int| 0 <= k < decoded.width * decoded.height implies image.shows::<T, S, F>(
        float_kernel,
        own_place()(#[trigger] place_of(k, width)),
        4,
        after,
        4 * k,
    ) by {
        let place = place_of(k, width);
        lemma_place_of(k, width, decoded.height as int);
        assert(own_place()(place) == place);
        assert(bare.shows::<T, S, F>(float_kernel, place, 4, before, 4 * k));
        let depth = image.converter.bit_depth;
        let rgb = choose|rgb: (u16, u16, u16)|
            {
                &&& #[trigger] bare.rgb_is(float_kernel, place, rgb)
                &&& before[4 * k] == S::scaled(rgb.0, depth)
                &&& before[4 * k + 1] == S::scaled(rgb.1, depth)
                &&& before[4 * k + 2] == S::scaled(rgb.2, depth)
            };
        assert(image.chroma_at(place) == bare.chroma_at(place));
        assert(image.rgb_is(float_kernel, place, rgb));
        assert(after[4 * k] == before[4 * k]);
        assert(after[4 * k + 1] == before[4 * k + 1]);
        assert(after[4 * k + 2] == before[4 * k + 2]);
        assert((4 * k + 3) / 4 == k);
        assert(after[4 * k + 3] == S::scaled(alpha.samples@[k], alpha.bit_depth));
    }
}

/// The image that is left when the leading clean apertures have cropped the
/// planes shows, behind the other transforms, what the whole image shows
/// behind all of them.
#[verifier::spinoff_prover]
#[verifier::rlimit(60)]
pub proof fn lemma_leading_crops<F: Fn(PreparedYcbcrToRgb, i32, i32, i32) -> (u16, u16, u16)>(
    decoded: HeicView,
    transforms: Seq<PrimaryItemTransformProperty>,
    start: nat,
    float_kernel: F,
    place: (int, int),
    rgb: (u16, u16, u16),
)
    requires
        start <= transforms.len(),
    ensures
        leading_crops(decoded, transforms, start) matches Ok((image, count)) ==> {
            let size = transformed_size(
                transforms.skip(start as int),
                decoded.width,
                decoded.height,
                (transforms.len() - start) as nat,
            );
            &&& start <= count <= transforms.len()
            &&& size == transformed_size(
                transforms.skip(count as int),
                image.width,
                image.height,
                (transforms.len() - count) as nat,
            )
            &&& heic_image(image, None).converter == heic_image(decoded, None).converter
            &&& image.bit_depth_luma == decoded.bit_depth_luma
            &&& image.bit_depth_chroma == decoded.bit_depth_chroma
            &&& size matches Ok((w, h)) ==> inside(place, w, h) ==> heic_image(
                image,
                None,
            ).rgb_is(
                float_kernel,
                source_place(
                    transforms.skip(count as int),
                    image.width,
                    image.height,
                    (transforms.len() - count) as nat,
                    place,
                ),
                rgb,
            ) == heic_image(decoded, None).rgb_is(
                float_kernel,
                source_place(
                    transforms.skip(start as int),
                    decoded.width,
                    decoded.height,
                    (transforms.len() - start) as nat,
                    place,
                ),
                rgb,
            )
        },
    decreases transforms.len() - start,
{
    if start < transforms.len() {
        match transforms[start as int] {
            PrimaryItemTransformProperty::CleanAperture(clap) => {
                if chroma_aligned(decoded, clap) && crop_outcome(decoded, clap) is Ok {
                    let next = crop_outcome(decoded, clap)->Ok_0;
                    let all = transforms.skip(start as int);
                    let left = (transforms.len() - start) as nat;
                    lemma_leading_crops(next, transforms, start + 1, float_kernel, place, rgb);
                    assert(all.skip(1) =~= transforms.skip(start as int + 1));
                    assert(all[0] == transforms[start as int]);
                    assert(size_behind(all[0], decoded.width, decoded.height) == Ok::<
                        (u32, u32),
                        TransformGuardError,
                    >((next.width, next.height)));
                    lemma_first_transform(all, decoded.width, decoded.height, left, place);
                    let middle = source_place(
                        all.skip(1),
                        next.width,
                        next.height,
                        (left - 1) as nat,
                        place,
                    );
                    lemma_source_place(
                        all.skip(1),
                        next.width,
                        next.height,
                        (left - 1) as nat,
                        place,
                    );
                    if inside(middle, next.width, next.height) {
                        lemma_aligned_crop(decoded, clap, float_kernel, middle, rgb);
                    }
                }
            },
            _ => {},
        }
    }
}

/// The planes that are converted, and how many transforms they already
/// carry out: without an opacity plane, the leading clean apertures.
pub open spec fn converted_planes(
    decoded: HeicView,
    transforms: Seq<PrimaryItemTransformProperty>,
    with_alpha: bool,
) -> Result<(HeicView, nat), DecodeHeicError> {
    if with_alpha {
        Ok((decoded, 0))
    } else {
        leading_crops(decoded, transforms, 0)
    }
}

/// Why an image cannot become an RGBA image, if it cannot.
pub open spec fn rgba_image_error(
    decoded: HeicView,
    transforms: Seq<PrimaryItemTransformProperty>,
    alpha: Option<&HeicAuxiliaryAlphaPlane>,
) -> Option<DecodeError> {
    match converted_planes(decoded, transforms, alpha is Some) {
        Err(e) => Some(DecodeError::HeicDecode(e)),
        Ok((planes, _)) => match first(
            depth_error(planes.bit_depth_luma, planes.bit_depth_chroma),
            first(
                owned_convert_error(planes, 4, "RGBA"),
                match alpha {
                    None => None,
                    Some(plane) => alpha_error(plane, decoded.width, decoded.height),
                },
            ),
        ) {
            Some(e) => Some(DecodeError::HeicDecode(e)),
            None => match transformed_size(
                transforms,
                decoded.width,
                decoded.height,
                transforms.len(),
            ) {
                Err(e) => Some(DecodeError::TransformGuard(e)),
                Ok(_) => None,
            },
        },
    }
}

/// Whether an image of some size shows a decoded image behind its transforms.
pub open spec fn shows_transformed<
    T: Copy,
    S: SampleScale<T>,
    F: Fn(PreparedYcbcrToRgb, i32, i32, i32) -> (u16, u16, u16),
>(
    image: YuvImage,
    transforms: Seq<PrimaryItemTransformProperty>,
    float_kernel: F,
    channels: int,
    result: (u32, u32, Seq<T>),
) -> bool {
    &&& transformed_size(transforms, image.width, image.height, transforms.len()) == Ok::<
        (u32, u32),
        TransformGuardError,
    >((result.0, result.1))
    &&& result.2.len() == channels * (result.0 * result.1)
    &&& image.shown_as::<T, S, F>(
        float_kernel,
        channels,
        result.2,
        result.0 as int,
        result.0 * result.1,
        sources(transforms, image.width, image.height, transforms.len()),
    )
}

/// Carries out the transforms that are left on a converted image.
proof fn lemma_finished<
    T: Copy,
    S: SampleScale<T>,
    F: Fn(PreparedYcbcrToRgb, i32, i32, i32) -> (u16, u16, u16),
>(
    decoded: HeicView,
    transforms: Seq<PrimaryItemTransformProperty>,
    alpha: Option<&HeicAuxiliaryAlphaPlane>,
    float_kernel: F,
    channels: int,
    pixels: Seq<T>,
    result: (u32, u32, Seq<T>),
)
    requires
        3 <= channels <= 4,
        converted_planes(decoded, transforms, alpha is Some) is Ok,
        ({
            let (planes, count) = converted_planes(decoded, transforms, alpha is Some)->Ok_0;
            &&& pixels.len() == channels * (planes.width * planes.height)
            &&& heic_image(planes, plane_opacity(alpha)).shown_as::<T, S, F>(
                float_kernel,
                channels,
                pixels,
                planes.width as int,
                planes.width * planes.height,
                own_place(),
            )
            &&& transformed(
                channels,
                transforms.skip(count as int),
                planes.width,
                planes.height,
                pixels,
                result,
                (transforms.len() - count) as nat,
            )
        }),
    ensures
        shows_transformed::<T, S, F>(
            heic_image(decoded, plane_opacity(alpha)),
            transforms,
            float_kernel,
            channels,
            result,
        ),
{
    let (planes, count) = converted_planes(decoded, transforms, alpha is Some)->Ok_0;
    let rest = transforms.skip(count as int);
    let left = (transforms.len() - count) as nat;
    let image = heic_image(planes, plane_opacity(alpha));
    let whole = heic_image(decoded, plane_opacity(alpha));
    let from = sources(rest, planes.width, planes.height, left);
    let all = sources(transforms, decoded.width, decoded.height, transforms.len());
    let size = (result.0, result.1);
    assert forall|place: (int, int)| inside(place, size.0, size.1) implies inside(
        #[trigger] from(place),
        planes.width,
        planes.height,
    ) by {
        lemma_source_place(rest, planes.width, planes.height, left, place);
    }
    lemma_gathered_shown::<T, S, F>(image, float_kernel, channels, pixels, result.2, size, from);
    assert(transforms.skip(0) =~= transforms);
    if alpha is Some {
        assert(rest =~= transforms);
    } else {
        lemma_leading_crops(decoded, transforms, 0, float_kernel, (0, 0), (0, 0, 0));
        assert forall|k: int| 0 <= k < size.0 * size.1 implies whole.shows::<T, S, F>(
            float_kernel,
            all(#[trigger] place_of(k, size.0 as int)),
            channels,
            result.2,
            channels * k,
        ) by {
            let place = place_of(k, size.0 as int);
            lemma_place_of(k, size.0 as int, size.1 as int);
            let depth = image.converter.bit_depth;
            assert(image.shows::<T, S, F>(
                float_kernel,
                from(place),
                channels,
                result.2,
                channels * k,
            ));
            let rgb = choose|rgb: (u16, u16, u16)|
                {
                    &&& #[trigger] image.rgb_is(float_kernel, from(place), rgb)
                    &&& result.2[channels * k] == S::scaled(rgb.0, depth)
                    &&& result.2[channels * k + 1] == S::scaled(rgb.1, depth)
                    &&& result.2[channels * k + 2] == S::scaled(rgb.2, depth)
                };
            lemma_leading_crops(decoded, transforms, 0, float_kernel, place, rgb);
            assert(whole.rgb_is(float_kernel, all(place), rgb));
        }
    }
}

/// Carries out the transforms that are left on a converted image, with its
/// opacity.
fn finish_rgba<
    T: Copy,
    S: SampleScale<T>,
    F: Fn(PreparedYcbcrToRgb, i32, i32, i32) -> (u16, u16, u16),
>(
    planes: &DecodedHeicImage,
    mut pixels: Vec<T>,
    alpha: Option<&HeicAuxiliaryAlphaPlane>,
    label: &'static str,
    transforms: &[PrimaryItemTransformProperty],
    done: usize,
    Ghost(decoded): Ghost<HeicView>,
    Ghost(float_kernel): Ghost<F>,
) -> (result: Result<(u32, u32, Vec<T>), DecodeError>)
    requires
        transforms_wf(transforms@),
        converted_planes(decoded, transforms@, alpha is Some) == Ok::<
            (HeicView, nat),
            DecodeHeicError,
        >((planes@, done as nat)),
        done <= transforms@.len(),
        pixels@.len() == planes.width * planes.height * 4,
        pixels@.len() <= usize::MAX,
        heic_image(planes@, None).shown_as::<T, S, F>(
            float_kernel,
            4,
            pixels@,
            planes.width as int,
            planes.width * planes.height,
            own_place(),
        ),
    ensures
        match alpha {
            Some(plane) => alpha_error(plane, planes.width, planes.height),
            None => None,
        } matches Some(e) ==> result == Err::<(u32, u32, Vec<T>), DecodeError>(
            DecodeError::HeicDecode(e),
        ),
        match alpha {
            Some(plane) => alpha_error(plane, planes.width, planes.height),
            None => None,
        } is None ==> match transformed_size(
            transforms@,
            decoded.width,
            decoded.height,
            transforms@.len(),
        ) {
            Err(e) => result == Err::<(u32, u32, Vec<T>), DecodeError>(
                DecodeError::TransformGuard(e),
            ),
            Ok(_) => result is Ok && shows_transformed::<T, S, F>(
                heic_image(decoded, plane_opacity(alpha)),
                transforms@,
                float_kernel,
                4,
                (result->Ok_0.0, result->Ok_0.1, result->Ok_0.2@),
            ),
        },
{
    if let Some(plane) = alpha {
        let ghost before = pixels@;
        match apply_auxiliary_alpha::<T, S>(
            pixels.as_mut_slice(),
            planes.width,
            planes.height,
            plane,
            label,
        ) {
            Err(e) => {
                return Err(DecodeError::HeicDecode(e));
            },
            Ok(()) => {},
        }
        proof {
            lemma_composited_shown::<T, S, F>(planes@, plane, float_kernel, before, pixels@);
        }
    }
    let ghost shown = pixels@;
    let rest: &[PrimaryItemTransformProperty] = vstd::slice::slice_subrange(
        transforms,
        done,
        transforms.len(),
    );
    proof {
        assert(rest@ =~= transforms@.skip(done as int));
        assert(transforms@.skip(0) =~= transforms@);
        if alpha is None {
            lemma_leading_crops(decoded, transforms@, 0, float_kernel, (0, 0), (0, 0, 0));
        }
    }
    match apply_primary_item_transforms_rgba(planes.width, planes.height, pixels, rest) {
        Err(e) => Err(DecodeError::TransformGuard(e)),
        Ok((width, height, transformed)) => {
            proof {
                lemma_finished::<T, S, F>(
                    decoded,
                    transforms@,
                    alpha,
                    float_kernel,
                    4,
                    shown,
                    (width, height, transformed@),
                );
            }
            Ok((width, height, transformed))
        },
    }
}

/// Crops the planes of an image by the transforms that the planes carry out.
fn crop_planes(
    decoded: DecodedHeicImage,
    transforms: &[PrimaryItemTransformProperty],
    with_alpha: bool,
) -> (result: Result<(DecodedHeicImage, usize), DecodeHeicError>)
    requires
        transforms_wf(transforms@),
    ensures
        match converted_planes(decoded@, transforms@, with_alpha) {
            Err(e) => result == Err::<(DecodedHeicImage, usize), DecodeHeicError>(e),
            Ok((planes, count)) => {
                &&& result is Ok
                &&& result->Ok_0.0@ == planes
                &&& result->Ok_0.1 == count
                &&& count <= transforms@.len()
            },
        },
{
    if with_alpha {
        Ok((decoded, 0))
    } else {
        crop_heic_by_leading_chroma_aligned_clean_apertures(decoded, transforms)
    }
}

/// Whether an RGBA image shows a decoded image behind its transforms.
pub open spec fn rgba_image_shows<F: Fn(PreparedYcbcrToRgb, i32, i32, i32) -> (u16, u16, u16)>(
    image: YuvImage,
    transforms: Seq<PrimaryItemTransformProperty>,
    float_kernel: F,
    bit_depth: u8,
    icc_profile: Option<Vec<u8>>,
    result: DecodedRgbaImage,
) -> bool {
    &&& result.source_bit_depth == bit_depth
    &&& result.icc_profile == icc_profile
    &&& match result.pixels {
        DecodedRgbaPixels::U8(pixels) => bit_depth <= 8 && shows_transformed::<u8, ScaleToU8, F>(
            image,
            transforms,
            float_kernel,
            4,
            (result.width, result.height, pixels@),
        ),
        DecodedRgbaPixels::U16(pixels) => bit_depth > 8 && shows_transformed::<
            u16,
            ScaleToU16,
            F,
        >(image, transforms, float_kernel, 4, (result.width, result.height, pixels@)),
    }
}

/// A decoded image with its transforms carried out.
pub fn decoded_heic_to_rgba_image<F: Fn(PreparedYcbcrToRgb, i32, i32, i32) -> (u16, u16, u16)>(
    decoded: DecodedHeicImage,
    transforms: &[PrimaryItemTransformProperty],
    auxiliary_alpha: Option<&HeicAuxiliaryAlphaPlane>,
    icc_profile: Option<Vec<u8>>,
    float_kernel: &F,
) -> (result: Result<DecodedRgbaImage, DecodeError>)
    requires
        transforms_wf(transforms@),
        kernel_ready(*float_kernel),
    ensures
        match rgba_image_error(decoded@, transforms@, auxiliary_alpha) {
            Some(e) => result == Err::<DecodedRgbaImage, DecodeError>(e),
            None => result is Ok && rgba_image_shows(
                heic_image(decoded@, plane_opacity(auxiliary_alpha)),
                transforms@,
                *float_kernel,
                decoded.bit_depth_luma,
                icc_profile,
                result->Ok_0,
            ),
        },
{
    let ghost whole = decoded@;
    let (planes, done): (DecodedHeicImage, usize) = match crop_planes(
        decoded,
        transforms,
        auxiliary_alpha.is_some(),
    ) {
        Err(e) => {
            return Err(DecodeError::HeicDecode(e));
        },
        Ok(cropped) => cropped,
    };
    proof {
        if auxiliary_alpha is None {
            lemma_leading_crops(whole, transforms@, 0, *float_kernel, (0, 0), (0, 0, 0));
        }
    }
    let source_bit_depth: u8 = match heic_bit_depth_for_png_conversion(&planes) {
        Err(e) => {
            return Err(DecodeError::HeicDecode(e));
        },
        Ok(depth) => depth,
    };
    if source_bit_depth <= 8 {
        let pixels: Vec<u8> = match convert_heic_to_rgba8(&planes, float_kernel) {
            Err(e) => {
                return Err(DecodeError::HeicDecode(e));
            },
            Ok(pixels) => pixels,
        };
        let (width, height, transformed): (u32, u32, Vec<u8>) = finish_rgba::<u8, ScaleToU8, F>(
            &planes,
            pixels,
            auxiliary_alpha,
            "RGBA8",
            transforms,
            done,
            Ghost(whole),
            Ghost(*float_kernel),
        )?;
        return Ok(
            DecodedRgbaImage {
                width,
                height,
                source_bit_depth,
                pixels: DecodedRgbaPixels::U8(transformed),
                icc_profile,
            },
        );
    }
    let pixels: Vec<u16> = match convert_heic_to_rgba16(&planes, float_kernel) {
        Err(e) => {
            return Err(DecodeError::HeicDecode(e));
        },
        Ok(pixels) => pixels,
    };
    let (width, height, transformed): (u32, u32, Vec<u16>) = finish_rgba::<u16, ScaleToU16, F>(
        &planes,
        pixels,
        auxiliary_alpha,
        "RGBA16",
        transforms,
        done,
        Ghost(whole),
        Ghost(*float_kernel),
    )?;
    Ok(
        DecodedRgbaImage {
            width,
            height,
            source_bit_depth,
            pixels: DecodedRgbaPixels::U16(transformed),
            icc_profile,
        },
    )
}

/// Why an image cannot become an RGB image, if it cannot.
pub open spec fn rgb_image_error(
    decoded: HeicView,
    transforms: Seq<PrimaryItemTransformProperty>,
) -> Option<DecodeError> {
    match leading_crops(decoded, transforms, 0) {
        Err(e) => Some(DecodeError::HeicDecode(e)),
        Ok((planes, _)) => match first(
            depth_error(planes.bit_depth_luma, planes.bit_depth_chroma),
            owned_convert_error(planes, 3, "RGB"),
        ) {
            Some(e) => Some(DecodeError::HeicDecode(e)),
            None => if planes.width == 0 || planes.height == 0 {
                Some(
                    DecodeError::TransformGuard(
                        TransformGuardError::EmptyImageGeometry {
                            width: planes.width,
                            height: planes.height,
                        },
                    ),
                )
            } else {
                match transformed_size(
                    transforms,
                    decoded.width,
                    decoded.height,
                    transforms.len(),
                ) {
                    Err(e) => Some(DecodeError::TransformGuard(e)),
                    Ok(_) => None,
                }
            },
        },
    }
}

/// A decoded image with its transforms carried out, without opacity.
pub fn decoded_heic_to_rgb8_image<F: Fn(PreparedYcbcrToRgb, i32, i32, i32) -> (u16, u16, u16)>(
    decoded: DecodedHeicImage,
    transforms: &[PrimaryItemTransformProperty],
    icc_profile: Option<Vec<u8>>,
    float_kernel: &F,
) -> (result: Result<DecodedRgbImage, DecodeError>)
    requires
        transforms_wf(transforms@),
        kernel_ready(*float_kernel),
    ensures
        match rgb_image_error(decoded@, transforms@) {
            Some(e) => result == Err::<DecodedRgbImage, DecodeError>(e),
            None => {
                &&& result is Ok
                &&& result->Ok_0.source_bit_depth == decoded.bit_depth_luma
                &&& result->Ok_0.icc_profile == icc_profile
                &&& shows_transformed::<u8, ScaleToRgb8, F>(
                    heic_image(decoded@, None),
                    transforms@,
                    *float_kernel,
                    3,
                    (result->Ok_0.width, result->Ok_0.height, result->Ok_0.pixels@),
                )
            },
        },
{
    let ghost whole = decoded@;
    let (planes, done): (DecodedHeicImage, usize) = match crop_planes(decoded, transforms, false) {
        Err(e) => {
            return Err(DecodeError::HeicDecode(e));
        },
        Ok(cropped) => cropped,
    };
    proof {
        lemma_leading_crops(whole, transforms@, 0, *float_kernel, (0, 0), (0, 0, 0));
        assert(transforms@.skip(0) =~= transforms@);
    }
    let source_bit_depth: u8 = match heic_bit_depth_for_png_conversion(&planes) {
        Err(e) => {
            return Err(DecodeError::HeicDecode(e));
        },
        Ok(depth) => depth,
    };
    let pixels: Vec<u8> = match convert_heic_to_rgb8(&planes, float_kernel) {
        Err(e) => {
            return Err(DecodeError::HeicDecode(e));
        },
        Ok(pixels) => pixels,
    };
    let ghost shown = pixels@;
    let rest: &[PrimaryItemTransformProperty] = vstd::slice::slice_subrange(
        transforms,
        done,
        transforms.len(),
    );
    assert(rest@ =~= transforms@.skip(done as int));
    let (width, height, pixels): (u32, u32, Vec<u8>) = apply_primary_item_transforms_rgb8(
        planes.width,
        planes.height,
        pixels,
        rest,
    )?;
    proof {
        lemma_finished::<u8, ScaleToRgb8, F>(
            whole,
            transforms@,
            None,
            *float_kernel,
            3,
            shown,
            (width, height, pixels@),
        );
    }
    Ok(DecodedRgbImage { width, height, source_bit_depth, pixels, icc_profile })
}

} // verus!
