//! Decoded HEIC images written straight into the buffer of a caller.
#[allow(unused_imports)]
use super::convert::lemma_shown_same;
#[allow(unused_imports)]
use super::heic::{alpha_error, chroma_error, depth_error, heic_image, luma_error, matrix_error};
use super::heic::{
    check_luma, heic_bit_depth_for_png_conversion, heic_transform, prepare_heic_planes,
    validate_auxiliary_alpha_plane,
};
#[allow(unused_imports)]
use super::image::YuvImage;
use super::image::{OpacityPlane, SampleSlice, YuvPlanes};
#[allow(unused_imports)]
use super::rgba::{plane_opacity, shows_transformed};
#[allow(unused_imports)]
use crate::errors::first;
use crate::errors::{DecodeError, DecodeHeicError, Wording};
#[allow(unused_imports)]
use crate::output::{lemma_paired_length, lemma_same_pairs, machine_order, paired, unpaired};
use crate::output::{
    native_byte_order, ByteOrder, RgbaSampleOutput, SampleScale, ScaleToU16, ScaleToU8,
};
use crate::text::{Arg, Detail};
use crate::transform::mapping::PrimaryItemTransformProperty;
#[allow(unused_imports)]
use crate::transform::mapping::{inside, transformed_size, transforms_wf};
#[allow(unused_imports)]
use crate::transform::pixels::sources;
#[allow(unused_imports)]
use crate::transform::plan::{lemma_plan_places, output_error};
use crate::transform::plan::{plan_output, RgbaTransformPlan};
use crate::types::{DecodedHeicImage, HeicAuxiliaryAlphaPlane};
#[allow(unused_imports)]
use crate::types::HeicView;
use crate::ycbcr::{PreparedYcbcrToRgb, YCbCrToRgbTransform};
#[allow(unused_imports)]
use crate::ycbcr::kernel_ready;
use vstd::prelude::*;

verus! {

/// The bit depth in which samples of some bit depth are stored.
pub open spec fn storage_depth(source_bit_depth: u8) -> u8 {
    if source_bit_depth <= 8 {
        8
    } else {
        16
    }
}

/// The bit depth in which samples of some bit depth are stored.
pub fn heic_storage_bit_depth(source_bit_depth: u8) -> (depth: u8)
    ensures
        depth == storage_depth(source_bit_depth),
{
    if source_bit_depth <= 8 {
        8
    } else {
        16
    }
}

/// The error for an image that is stored with another bit depth than the
/// buffer.
pub open spec fn storage_mismatch(stored: u8, asked: u8) -> DecodeError {
    DecodeError::Unsupported(
        Wording::Template(
            Detail::Two(
                "HEIC storage is RGBA{}, not RGBA{}",
                Arg::Num(stored as i128),
                Arg::Num(asked as i128),
            ),
        ),
    )
}

/// Whether a buffer shows an image behind its transforms.
pub open spec fn buffer_shows<
    T: Copy,
    S: SampleScale<T>,
    F: Fn(PreparedYcbcrToRgb, i32, i32, i32) -> (u16, u16, u16),
>(
    image: YuvImage,
    transforms: Seq<PrimaryItemTransformProperty>,
    float_kernel: F,
    samples: Seq<T>,
) -> bool {
    &&& transformed_size(transforms, image.width, image.height, transforms.len()) matches Ok(
        (width, height),
    )
    &&& shows_transformed::<T, S, F>(
        image,
        transforms,
        float_kernel,
        4,
        (width, height, samples),
    )
}

/// Writes an image behind a resolved plan into a buffer.
pub(crate) fn write_planned<
    T: Copy,
    S: SampleScale<T>,
    O: RgbaSampleOutput<T> + ?Sized,
    F: Fn(PreparedYcbcrToRgb, i32, i32, i32) -> (u16, u16, u16),
>(
    planes: &YuvPlanes<'_>,
    plan: &RgbaTransformPlan,
    Ghost(transforms): Ghost<Seq<PrimaryItemTransformProperty>>,
    float_kernel: &F,
    out: &mut O,
    order: ByteOrder,
)
    requires
        planes@.wf(),
        kernel_ready(*float_kernel),
        plan.wf(),
        plan.plans(transforms, planes.width, planes.height),
        old(out).samples(order).len() == 4 * (plan.destination_width * plan.destination_height),
        old(out).samples(order).len() <= usize::MAX,
    ensures
        final(out).samples(order).len() == old(out).samples(order).len(),
        final(out).rest() == old(out).rest(),
        buffer_shows::<T, S, F>(planes@, transforms, *float_kernel, final(out).samples(order)),
{
    planes.write_transformed::<T, S, O, F>(plan, float_kernel, 4, out, order);
    proof {
        let from = |place: (int, int)| plan.source_of(place);
        let all = sources(transforms, planes.width, planes.height, transforms.len());
        assert forall|place: (int, int)|
            inside(place, plan.destination_width, plan.destination_height) implies #[trigger] from(
            place,
        ) == all(place) by {
            lemma_plan_places(plan, transforms, planes.width, planes.height, place);
        }
        lemma_shown_same::<T, S, F>(
            planes@,
            *float_kernel,
            4,
            out.samples(order),
            (plan.destination_width, plan.destination_height),
            from,
            all,
        );
    }
}

/// The stage that a buffer of another size than the image is refused at.
pub open spec fn heic_stage() -> &'static str {
    "HEIC direct transformed image adapter output"
}

/// Why an image cannot be written into a buffer, if it cannot.
pub open spec fn buffer_error(
    decoded: HeicView,
    transforms: Seq<PrimaryItemTransformProperty>,
    alpha: Option<&HeicAuxiliaryAlphaPlane>,
    asked: u8,
    actual: int,
) -> Option<DecodeError> {
    match depth_error(decoded.bit_depth_luma, decoded.bit_depth_chroma) {
        Some(e) => Some(DecodeError::HeicDecode(e)),
        None => {
            let stored = storage_depth(decoded.bit_depth_luma);
            if stored != asked {
                Some(storage_mismatch(stored, asked))
            } else {
                match output_error(
                    transforms,
                    decoded.width,
                    decoded.height,
                    actual,
                    heic_stage(),
                ) {
                    Some(e) => Some(DecodeError::TransformGuard(e)),
                    None => match first(
                        matrix_error(decoded),
                        first(
                            luma_error(decoded),
                            first(
                                chroma_error(decoded),
                                match alpha {
                                    None => None,
                                    Some(plane) => alpha_error(
                                        plane,
                                        decoded.width,
                                        decoded.height,
                                    ),
                                },
                            ),
                        ),
                    ) {
                        Some(e) => Some(DecodeError::HeicDecode(e)),
                        None => None,
                    },
                }
            }
        },
    }
}

/// The planes of an image, with its opacity.
fn planes_with_alpha<'a>(
    decoded: &'a DecodedHeicImage,
    alpha: Option<&'a HeicAuxiliaryAlphaPlane>,
) -> (result: Result<YuvPlanes<'a>, DecodeHeicError>)
    requires
        depth_error(decoded.bit_depth_luma, decoded.bit_depth_chroma) is None,
    ensures
        match first(
            matrix_error(decoded@),
            first(
                luma_error(decoded@),
                first(
                    chroma_error(decoded@),
                    match alpha {
                        None => None,
                        Some(plane) => alpha_error(plane, decoded.width, decoded.height),
                    },
                ),
            ),
        ) {
            Some(e) => result == Err::<YuvPlanes<'a>, DecodeHeicError>(e),
            None => {
                &&& result is Ok
                &&& result->Ok_0@ == heic_image(decoded@, plane_opacity(alpha))
                &&& result->Ok_0@.wf()
            },
        },
{
    let transform: YCbCrToRgbTransform = heic_transform(decoded)?;
    check_luma(decoded)?;
    let bare: YuvPlanes<'a> = prepare_heic_planes(decoded, transform, true)?;
    match alpha {
        None => Ok(bare),
        Some(plane) => {
            validate_auxiliary_alpha_plane(plane, decoded.width, decoded.height)?;
            Ok(
                YuvPlanes {
                    opacity: Some(
                        OpacityPlane {
                            bit_depth: plane.bit_depth,
                            samples: SampleSlice::U16(plane.samples.as_slice()),
                        },
                    ),
                    ..bare
                },
            )
        },
    }
}

/// Writes a decoded image with its transforms carried out into a buffer of
/// some storage bit depth.
pub fn decoded_heic_to_rgba_output<
    T: Copy,
    S: SampleScale<T>,
    O: RgbaSampleOutput<T> + ?Sized,
    F: Fn(PreparedYcbcrToRgb, i32, i32, i32) -> (u16, u16, u16),
>(
    decoded: &DecodedHeicImage,
    transforms: &[PrimaryItemTransformProperty],
    auxiliary_alpha: Option<&HeicAuxiliaryAlphaPlane>,
    out: &mut O,
    order: ByteOrder,
    storage_bit_depth: u8,
    float_kernel: &F,
) -> (result: Result<(), DecodeError>)
    requires
        transforms_wf(transforms@),
        kernel_ready(*float_kernel),
    ensures
        final(out).samples(order).len() == old(out).samples(order).len(),
        final(out).rest() == old(out).rest(),
        match buffer_error(
            decoded@,
            transforms@,
            auxiliary_alpha,
            storage_bit_depth,
            old(out).samples(order).len() as int,
        ) {
            Some(e) => result == Err::<(), DecodeError>(e) && forall|o: ByteOrder| #[trigger]
                final(out).samples(o) == old(out).samples(o),
            None => result is Ok && buffer_shows::<T, S, F>(
                heic_image(decoded@, plane_opacity(auxiliary_alpha)),
                transforms@,
                *float_kernel,
                final(out).samples(order),
            ),
        },
{
    let source_bit_depth: u8 = match heic_bit_depth_for_png_conversion(decoded) {
        Err(e) => {
            return Err(DecodeError::HeicDecode(e));
        },
        Ok(depth) => depth,
    };
    let stored: u8 = heic_storage_bit_depth(source_bit_depth);
    if stored != storage_bit_depth {
        return Err(
            DecodeError::Unsupported(
                Wording::Template(
                    Detail::Two(
                        "HEIC storage is RGBA{}, not RGBA{}",
                        Arg::Num(stored as i128),
                        Arg::Num(storage_bit_depth as i128),
                    ),
                ),
            ),
        );
    }
    let actual: usize = out.sample_len();
    let plan: RgbaTransformPlan = match plan_output(
        decoded.width,
        decoded.height,
        transforms,
        actual,
        "HEIC direct transformed image adapter output",
    ) {
        Err(e) => {
            return Err(DecodeError::TransformGuard(e));
        },
        Ok(plan) => plan,
    };
    let planes: YuvPlanes<'_> = match planes_with_alpha(decoded, auxiliary_alpha) {
        Err(e) => {
            return Err(DecodeError::HeicDecode(e));
        },
        Ok(planes) => planes,
    };
    write_planned::<T, S, O, F>(&planes, &plan, Ghost(transforms@), float_kernel, out, order);
    Ok(())
}

/// Writes a decoded image with its transforms carried out into a buffer of
/// eight bits.
pub fn decoded_heic_to_rgba8_slice<F: Fn(PreparedYcbcrToRgb, i32, i32, i32) -> (u16, u16, u16)>(
    decoded: &DecodedHeicImage,
    transforms: &[PrimaryItemTransformProperty],
    auxiliary_alpha: Option<&HeicAuxiliaryAlphaPlane>,
    out: &mut [u8],
    float_kernel: &F,
) -> (result: Result<(), DecodeError>)
    requires
        transforms_wf(transforms@),
        kernel_ready(*float_kernel),
    ensures
        final(out)@.len() == old(out)@.len(),
        match buffer_error(
            decoded@,
            transforms@,
            auxiliary_alpha,
            8,
            old(out)@.len() as int,
        ) {
            Some(e) => result == Err::<(), DecodeError>(e) && final(out)@ == old(out)@,
            None => result is Ok && buffer_shows::<u8, ScaleToU8, F>(
                heic_image(decoded@, plane_opacity(auxiliary_alpha)),
                transforms@,
                *float_kernel,
                final(out)@,
            ),
        },
{
    decoded_heic_to_rgba_output::<u8, ScaleToU8, [u8], F>(
        decoded,
        transforms,
        auxiliary_alpha,
        out,
        ByteOrder::LittleEndian,
        8,
        float_kernel,
    )
}

/// Writes a decoded image with its transforms carried out into a buffer of
/// sixteen bits, each sample in the byte order of the machine.
pub fn decoded_heic_to_rgba16_native_endian_bytes<
    F: Fn(PreparedYcbcrToRgb, i32, i32, i32) -> (u16, u16, u16),
>(
    decoded: &DecodedHeicImage,
    transforms: &[PrimaryItemTransformProperty],
    auxiliary_alpha: Option<&HeicAuxiliaryAlphaPlane>,
    out: &mut [u8],
    float_kernel: &F,
) -> (result: Result<(), DecodeError>)
    requires
        transforms_wf(transforms@),
        kernel_ready(*float_kernel),
    ensures
        final(out)@.len() == old(out)@.len(),
        unpaired(final(out)@) == unpaired(old(out)@),
        result is Err ==> final(out)@ == old(out)@,
        match buffer_error(
            decoded@,
            transforms@,
            auxiliary_alpha,
            16,
            old(out)@.len() as int / 2,
        ) {
            Some(e) => result == Err::<(), DecodeError>(e),
            None => result is Ok && buffer_shows::<u16, ScaleToU16, F>(
                heic_image(decoded@, plane_opacity(auxiliary_alpha)),
                transforms@,
                *float_kernel,
                paired(final(out)@, machine_order()),
            ),
        },
{
    let order: ByteOrder = native_byte_order();
    let ghost before = out@;
    assert(paired(before, order).len() == before.len() as int / 2);
    let result = decoded_heic_to_rgba_output::<u16, ScaleToU16, [u8], F>(
        decoded,
        transforms,
        auxiliary_alpha,
        out,
        order,
        16,
        float_kernel,
    );
    proof {
        assert(RgbaSampleOutput::<u16>::samples(out, order) == paired(out@, order));
        lemma_paired_length(before, order);
        lemma_paired_length(out@, order);
        if result is Err {
            lemma_same_pairs(before, out@, order);
        }
    }
    result
}

} // verus!
