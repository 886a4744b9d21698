//! Conversion of HEIC images to interleaved pixels.
#[allow(unused_imports)]
use super::heic::{
    chroma_error, converted_image, count_error, depth_error, heic_image, luma_error, matrix_error,
};
use super::heic::{
    check_luma, heic_bit_depth_for_png_conversion, heic_sample_count, heic_transform,
    prepare_heic_planes,
};
#[allow(unused_imports)]
use super::image::YuvImage;
use super::image::YuvPlanes;
use crate::errors::{invalid_frame, DecodeHeicError};
#[allow(unused_imports)]
use crate::errors::{bad_frame, first};
use crate::output::{
    ByteOrder, RgbaSampleOutput, SampleScale, ScaleToRgb8, ScaleToU16, ScaleToU8,
};
use crate::text::{Arg, Detail};
#[allow(unused_imports)]
use crate::transform::mapping::inside;
#[allow(unused_imports)]
use crate::transform::paste::own_place;
#[allow(unused_imports)]
use crate::transform::pixels::{lemma_place_of, place_of};
use crate::transform::plan::RgbaTransformPlan;
use crate::types::DecodedHeicImage;
#[allow(unused_imports)]
use crate::types::HeicView;
use crate::ycbcr::{PreparedYcbcrToRgb, YCbCrToRgbTransform};
#[allow(unused_imports)]
use crate::ycbcr::kernel_ready;
use vstd::prelude::*;

verus! {

/// Why the samples of the converted image cannot be counted, if they cannot.
pub open spec fn output_len_error(
    width: u32,
    height: u32,
    channels: int,
    label: &'static str,
) -> Option<DecodeHeicError> {
    first(
        count_error(width as int, height as int, "Y"),
        if width * height * channels > usize::MAX {
            Some(
                bad_frame(
                    Detail::Three(
                        "{} output sample count overflow for {}x{}",
                        Arg::Word(label),
                        Arg::Num(width as i128),
                        Arg::Num(height as i128),
                    ),
                ),
            )
        } else {
            None
        },
    )
}

/// The number of samples of the converted image.
pub fn checked_heic_interleaved_output_len(
    decoded: &DecodedHeicImage,
    channels: usize,
    label: &'static str,
) -> (result: Result<usize, DecodeHeicError>)
    ensures
        match output_len_error(decoded.width, decoded.height, channels as int, label) {
            Some(e) => result == Err::<usize, DecodeHeicError>(e),
            None => result is Ok && result->Ok_0 == decoded.width * decoded.height * channels,
        },
{
    let pixels: usize = heic_sample_count(decoded.width, decoded.height, "Y")?;
    proof {
        assert(0 <= pixels * channels) by (nonlinear_arith);
    }
    match pixels.checked_mul(channels) {
        Some(count) => Ok(count),
        None => invalid_frame(
            Detail::Three(
                "{} output sample count overflow for {}x{}",
                Arg::Word(label),
                Arg::Num(decoded.width as i128),
                Arg::Num(decoded.height as i128),
            ),
        ),
    }
}

/// The error for a buffer of another size than the converted image needs.
pub open spec fn output_mismatch(
    width: u32,
    height: u32,
    channels: int,
    label: &'static str,
    actual: int,
) -> Option<DecodeHeicError> {
    if actual != width * height * channels {
        Some(
            bad_frame(
                Detail::Three(
                    "{} output has {} samples, expected {}",
                    Arg::Word(label),
                    Arg::Num(actual as i128),
                    Arg::Num((width * height * channels) as i128),
                ),
            ),
        )
    } else {
        None
    }
}

/// Why an image cannot be converted into a buffer, if it cannot.
pub open spec fn convert_error(
    decoded: HeicView,
    channels: int,
    overflow_label: &'static str,
    label: &'static str,
    actual: int,
) -> Option<DecodeHeicError> {
    first(
        matrix_error(decoded),
        first(
            depth_error(decoded.bit_depth_luma, decoded.bit_depth_chroma),
            first(
                luma_error(decoded),
                first(
                    output_len_error(decoded.width, decoded.height, channels, overflow_label),
                    first(
                        output_mismatch(decoded.width, decoded.height, channels, label, actual),
                        chroma_error(decoded),
                    ),
                ),
            ),
        ),
    )
}

/// Why an image cannot be converted into a buffer of its own, if it cannot.
pub open spec fn owned_convert_error(
    decoded: HeicView,
    channels: int,
    overflow_label: &'static str,
) -> Option<DecodeHeicError> {
    first(
        output_len_error(decoded.width, decoded.height, channels, overflow_label),
        first(
            matrix_error(decoded),
            first(
                depth_error(decoded.bit_depth_luma, decoded.bit_depth_chroma),
                first(luma_error(decoded), chroma_error(decoded)),
            ),
        ),
    )
}

/// The plan that leaves an image as it is.
pub(crate) fn identity_plan(width: u32, height: u32) -> (plan: RgbaTransformPlan)
    ensures
        plan.wf(),
        plan.source_width == width,
        plan.source_height == height,
        plan.destination_width == width,
        plan.destination_height == height,
        plan.steps@.len() == 0,
{
    RgbaTransformPlan {
        source_width: width,
        source_height: height,
        destination_width: width,
        destination_height: height,
        steps: Vec::new(),
    }
}

/// Images that take their pixels from the same places show the same.
pub proof fn lemma_shown_same<
    T: Copy,
    S: SampleScale<T>,
    F: Fn(PreparedYcbcrToRgb, i32, i32, i32) -> (u16, u16, u16),
>(
    image: YuvImage,
    float_kernel: F,
    channels: int,
    samples: Seq<T>,
    size: (u32, u32),
    from: spec_fn((int, int)) -> (int, int),
    other: spec_fn((int, int)) -> (int, int),
)
    requires
        image.shown_as::<T, S, F>(
            float_kernel,
            channels,
            samples,
            size.0 as int,
            size.0 * size.1,
            from,
        ),
        forall|place: (int, int)|
            inside(place, size.0, size.1) ==> #[trigger] from(place) == other(place),
    ensures
        image.shown_as::<T, S, F>(
            float_kernel,
            channels,
            samples,
            size.0 as int,
            size.0 * size.1,
            other,
        ),
{
    assert forall|k: int| 0 <= k < size.0 * size.1 implies image.shows::<T, S, F>(
        float_kernel,
        other(#[trigger] place_of(k, size.0 as int)),
        channels,
        samples,
        channels * k,
    ) by {
        lemma_place_of(k, size.0 as int, size.1 as int);
        assert(from(place_of(k, size.0 as int)) == other(place_of(k, size.0 as int)));
    }
}

/// Writes an image as it is into a buffer.
pub(crate) fn write_upright<
    T: Copy,
    S: SampleScale<T>,
    O: RgbaSampleOutput<T> + ?Sized,
    F: Fn(PreparedYcbcrToRgb, i32, i32, i32) -> (u16, u16, u16),
>(planes: &YuvPlanes<'_>, float_kernel: &F, channels: usize, out: &mut O, order: ByteOrder)
    requires
        planes@.wf(),
        kernel_ready(*float_kernel),
        3 <= channels <= 4,
        old(out).samples(order).len() == channels * (planes.width * planes.height),
        old(out).samples(order).len() <= usize::MAX,
    ensures
        final(out).samples(order).len() == old(out).samples(order).len(),
        final(out).rest() == old(out).rest(),
        planes@.shown_as::<T, S, F>(
            *float_kernel,
            channels as int,
            final(out).samples(order),
            planes.width as int,
            planes.width * planes.height,
            own_place(),
        ),
{
    let plan: RgbaTransformPlan = identity_plan(planes.width, planes.height);
    planes.write_transformed::<T, S, O, F>(&plan, float_kernel, channels, out, order);
    proof {
        lemma_shown_same::<T, S, F>(
            planes@,
            *float_kernel,
            channels as int,
            out.samples(order),
            (planes.width, planes.height),
            |place: (int, int)| plan.source_of(place),
            own_place(),
        );
    }
}

/// Converts an image into a buffer. Luma of eight bits without chroma is copied
/// as it is where `copies_grey` says so.
pub fn convert_heic_into<
    T: Copy,
    S: SampleScale<T>,
    O: RgbaSampleOutput<T> + ?Sized,
    F: Fn(PreparedYcbcrToRgb, i32, i32, i32) -> (u16, u16, u16),
>(
    decoded: &DecodedHeicImage,
    channels: usize,
    copies_grey: bool,
    overflow_label: &'static str,
    label: &'static str,
    out: &mut O,
    order: ByteOrder,
    float_kernel: &F,
) -> (result: Result<(), DecodeHeicError>)
    requires
        3 <= channels <= 4,
        kernel_ready(*float_kernel),
    ensures
        final(out).samples(order).len() == old(out).samples(order).len(),
        final(out).rest() == old(out).rest(),
        match convert_error(
            decoded@,
            channels as int,
            overflow_label,
            label,
            old(out).samples(order).len() as int,
        ) {
            Some(e) => result == Err::<(), DecodeHeicError>(e) && forall|o: ByteOrder| #[trigger]
                final(out).samples(o) == old(out).samples(o),
            None => result is Ok && converted_image(decoded@, copies_grey).shown_as::<T, S, F>(
                *float_kernel,
                channels as int,
                final(out).samples(order),
                decoded.width as int,
                decoded.width * decoded.height,
                own_place(),
            ),
        },
{
    let transform: YCbCrToRgbTransform = heic_transform(decoded)?;
    heic_bit_depth_for_png_conversion(decoded)?;
    check_luma(decoded)?;
    let output_len: usize = checked_heic_interleaved_output_len(decoded, channels, overflow_label)?;
    let actual: usize = out.sample_len();
    if actual != output_len {
        return invalid_frame(
            Detail::Three(
                "{} output has {} samples, expected {}",
                Arg::Word(label),
                Arg::Num(actual as i128),
                Arg::Num(output_len as i128),
            ),
        );
    }
    let planes: YuvPlanes<'_> = prepare_heic_planes(decoded, transform, copies_grey)?;
    proof {
        assert(decoded.width * decoded.height * channels == channels * (decoded.width
            * decoded.height)) by (nonlinear_arith);
    }
    write_upright::<T, S, O, F>(&planes, float_kernel, channels, out, order);
    Ok(())
}

/// Converts an image into a buffer of samples of eight bits, with or without
/// opacity.
pub fn convert_heic_to_interleaved_rgb8_slice<
    S: SampleScale<u8>,
    F: Fn(PreparedYcbcrToRgb, i32, i32, i32) -> (u16, u16, u16),
>(
    decoded: &DecodedHeicImage,
    channels: usize,
    out: &mut [u8],
    output_label: &'static str,
    float_kernel: &F,
) -> (result: Result<(), DecodeHeicError>)
    requires
        3 <= channels <= 4,
        kernel_ready(*float_kernel),
    ensures
        final(out)@.len() == old(out)@.len(),
        match convert_error(
            decoded@,
            channels as int,
            output_label,
            output_label,
            old(out)@.len() as int,
        ) {
            Some(e) => result == Err::<(), DecodeHeicError>(e) && final(out)@ == old(out)@,
            None => result is Ok && heic_image(decoded@, None).shown_as::<u8, S, F>(
                *float_kernel,
                channels as int,
                final(out)@,
                decoded.width as int,
                decoded.width * decoded.height,
                own_place(),
            ),
        },
{
    convert_heic_into::<u8, S, [u8], F>(
        decoded,
        channels,
        true,
        output_label,
        output_label,
        out,
        ByteOrder::LittleEndian,
        float_kernel,
    )
}

/// Converts an image into a buffer of samples of sixteen bits. Grey is converted
/// like any other colour.
pub fn convert_heic_to_rgba16_slice<
    F: Fn(PreparedYcbcrToRgb, i32, i32, i32) -> (u16, u16, u16),
>(decoded: &DecodedHeicImage, out: &mut [u16], float_kernel: &F) -> (result: Result<
    (),
    DecodeHeicError,
>)
    requires
        kernel_ready(*float_kernel),
    ensures
        final(out)@.len() == old(out)@.len(),
        match convert_error(decoded@, 4, "RGBA", "RGBA16", old(out)@.len() as int) {
            Some(e) => result == Err::<(), DecodeHeicError>(e) && final(out)@ == old(out)@,
            None => result is Ok && converted_image(decoded@, false).shown_as::<u16, ScaleToU16, F>(
                *float_kernel,
                4,
                final(out)@,
                decoded.width as int,
                decoded.width * decoded.height,
                own_place(),
            ),
        },
{
    convert_heic_into::<u16, ScaleToU16, [u16], F>(
        decoded,
        4,
        false,
        "RGBA",
        "RGBA16",
        out,
        ByteOrder::LittleEndian,
        float_kernel,
    )
}

/// Converts an image into a buffer of its own. Luma of eight bits without chroma
/// is copied as it is where `copies_grey` says so.
pub fn convert_heic_owned<
    T: Copy,
    S: SampleScale<T>,
    F: Fn(PreparedYcbcrToRgb, i32, i32, i32) -> (u16, u16, u16),
>(
    decoded: &DecodedHeicImage,
    channels: usize,
    copies_grey: bool,
    overflow_label: &'static str,
    label: &'static str,
    float_kernel: &F,
) -> (result: Result<Vec<T>, DecodeHeicError>)
    requires
        3 <= channels <= 4,
        kernel_ready(*float_kernel),
    ensures
        match owned_convert_error(decoded@, channels as int, overflow_label) {
            Some(e) => result == Err::<Vec<T>, DecodeHeicError>(e),
            None => {
                &&& result is Ok
                &&& result->Ok_0@.len() == decoded.width * decoded.height * channels
                &&& converted_image(decoded@, copies_grey).shown_as::<T, S, F>(
                    *float_kernel,
                    channels as int,
                    result->Ok_0@,
                    decoded.width as int,
                    decoded.width * decoded.height,
                    own_place(),
                )
            },
        },
{
    let output_len: usize = checked_heic_interleaved_output_len(
        decoded,
        channels,
        overflow_label,
    )?;
    let mut out: Vec<T> = vec![S::opaque(); output_len];
    convert_heic_into::<T, S, [T], F>(
        decoded,
        channels,
        copies_grey,
        overflow_label,
        label,
        out.as_mut_slice(),
        ByteOrder::LittleEndian,
        float_kernel,
    )?;
    Ok(out)
}

/// Converts an image to samples of eight bits.
pub fn convert_heic_to_rgba8<F: Fn(PreparedYcbcrToRgb, i32, i32, i32) -> (u16, u16, u16)>(
    decoded: &DecodedHeicImage,
    float_kernel: &F,
) -> (result: Result<Vec<u8>, DecodeHeicError>)
    requires
        kernel_ready(*float_kernel),
    ensures
        match owned_convert_error(decoded@, 4, "RGBA") {
            Some(e) => result == Err::<Vec<u8>, DecodeHeicError>(e),
            None => {
                &&& result is Ok
                &&& result->Ok_0@.len() == decoded.width * decoded.height * 4
                &&& heic_image(decoded@, None).shown_as::<u8, ScaleToU8, F>(
                    *float_kernel,
                    4,
                    result->Ok_0@,
                    decoded.width as int,
                    decoded.width * decoded.height,
                    own_place(),
                )
            },
        },
{
    convert_heic_owned::<u8, ScaleToU8, F>(decoded, 4, true, "RGBA", "RGBA8", float_kernel)
}

/// Converts an image to samples of sixteen bits. Grey is converted like any other
/// colour.
pub fn convert_heic_to_rgba16<F: Fn(PreparedYcbcrToRgb, i32, i32, i32) -> (u16, u16, u16)>(
    decoded: &DecodedHeicImage,
    float_kernel: &F,
) -> (result: Result<Vec<u16>, DecodeHeicError>)
    requires
        kernel_ready(*float_kernel),
    ensures
        match owned_convert_error(decoded@, 4, "RGBA") {
            Some(e) => result == Err::<Vec<u16>, DecodeHeicError>(e),
            None => {
                &&& result is Ok
                &&& result->Ok_0@.len() == decoded.width * decoded.height * 4
                &&& converted_image(decoded@, false).shown_as::<u16, ScaleToU16, F>(
                    *float_kernel,
                    4,
                    result->Ok_0@,
                    decoded.width as int,
                    decoded.width * decoded.height,
                    own_place(),
                )
            },
        },
{
    convert_heic_owned::<u16, ScaleToU16, F>(decoded, 4, false, "RGBA", "RGBA16", float_kernel)
}

/// Converts an image to samples of eight bits without opacity.
pub fn convert_heic_to_rgb8<F: Fn(PreparedYcbcrToRgb, i32, i32, i32) -> (u16, u16, u16)>(
    decoded: &DecodedHeicImage,
    float_kernel: &F,
) -> (result: Result<Vec<u8>, DecodeHeicError>)
    requires
        kernel_ready(*float_kernel),
    ensures
        match owned_convert_error(decoded@, 3, "RGB") {
            Some(e) => result == Err::<Vec<u8>, DecodeHeicError>(e),
            None => {
                &&& result is Ok
                &&& result->Ok_0@.len() == decoded.width * decoded.height * 3
                &&& heic_image(decoded@, None).shown_as::<u8, ScaleToRgb8, F>(
                    *float_kernel,
                    3,
                    result->Ok_0@,
                    decoded.width as int,
                    decoded.width * decoded.height,
                    own_place(),
                )
            },
        },
{
    convert_heic_owned::<u8, ScaleToRgb8, F>(decoded, 3, true, "RGB", "RGB8", float_kernel)
}

} // verus!
