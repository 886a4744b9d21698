//! What the operations give, whatever they are called with: each law speaks of
//! the arguments of a call and of what it returned.
#[allow(unused_imports)]
use crate::av1::{after_picture_request, coded_bit_depth, ensure_dav1d_ok, PictureStep};
#[allow(unused_imports)]
use crate::avif::av1_stream;
#[allow(unused_imports)]
use crate::decode::{require_rgb8_family, require_whole_rgba16_samples};
#[allow(unused_imports)]
use crate::errors::{
    DecodeAvifError, DecodeError, DecodeHeicError, DecodeUncompressedError, TransformGuardError,
};
#[allow(unused_imports)]
use crate::family::{path_extension_is_heif, path_extension_is_heif_family, HeifInputFamily};
#[allow(unused_imports)]
use crate::fourcc::{four_cc_eq, FourCc};
#[allow(unused_imports)]
use crate::grid::layout::{validate_decoded_heic_grid_first_tile, HeicGridDescriptor};
#[allow(unused_imports)]
use crate::guardrails::{DecodeGuardrails, TempFileSpoolOptions};
#[allow(unused_imports)]
use crate::hevc::frame::{heic_frame_to_internal_image, HeicFrame};
#[allow(unused_imports)]
use crate::hevc::sps::validate_decoded_heic_geometry_against_ispe;
#[allow(unused_imports)]
use crate::items::{lower, same_letters};
use crate::laws::apertures::lemma_aperture_is_centred;
use crate::laws::components::lemma_channel_of_type;
use crate::laws::frames::{lemma_metadata_of_frame, lemma_planes_of_frame};
use crate::laws::grids::lemma_first_tile_size;
#[allow(unused_imports)]
use crate::png_file::png_outcome;
#[allow(unused_imports)]
use crate::rgba::{DecodedRgbaImage, DecodedRgbaPixels, ExifOrientationHint};
#[allow(unused_imports)]
use crate::transform::aperture::{
    clean_aperture_crop_bounds, CleanApertureCropBounds, ImageCleanApertureProperty,
};
#[allow(unused_imports)]
use crate::transform::mapping::{
    is_identity_rotation, transforms_include_orientation, PrimaryItemTransformProperty,
};
#[allow(unused_imports)]
use crate::types::{
    DecodedHeicImage, DecodedHeicImageMetadata, PrimaryItemColorProperties, YCbCrRange,
};
#[allow(unused_imports)]
use crate::uncompressed::components::{
    uncompressed_role_from_component_type, UncompressedChannelRole,
};
#[allow(unused_imports)]
use crate::ycbcr::ycbcr_range_override_from_primary_colr;
use vstd::prelude::*;

verus! {

/// The first tile of a grid is accepted where equal tiles of its size cover the
/// image. It is refused exactly where it is empty, or where even tiles that are
/// one column wider, or one row higher, would not reach past the image.
pub proof fn lemma_first_tile_call(
    descriptor: HeicGridDescriptor,
    tile: DecodedHeicImage,
    result: Result<(), DecodeHeicError>,
)
    requires
        descriptor.rows > 0,
        descriptor.columns > 0,
        call_ensures(validate_decoded_heic_grid_first_tile, (&descriptor, &tile), result),
    ensures
        tile.width > 0 && tile.height > 0 && descriptor.columns * tile.width
            >= descriptor.output_width && descriptor.rows * tile.height >= descriptor.output_height
            ==> result is Ok,
        result is Err <==> tile.width == 0 || tile.height == 0 || descriptor.columns * (tile.width
            + 1) <= descriptor.output_width || descriptor.rows * (tile.height + 1)
            <= descriptor.output_height,
{
    lemma_first_tile_size(descriptor, tile@);
}

/// An nclx profile that says something decides on the range: full exactly where
/// its flag is set. Without one there is nothing to go by.
pub proof fn lemma_range_call(colr: PrimaryItemColorProperties, range: Option<YCbCrRange>)
    requires
        call_ensures(ycbcr_range_override_from_primary_colr, (&colr,), range),
    ensures
        range is None <==> colr.nclx is None || colr.nclx->0.is_undefined,
        range matches Some(kind) ==> (kind is Full <==> colr.nclx->0.full_range_flag),
{
}

/// The component types 0 to 7 are monochrome, luma, Cb, Cr, red, green, blue
/// and alpha, type 12 is padding, and there is no other.
pub proof fn lemma_component_type_call(
    component_type: u16,
    role: Result<UncompressedChannelRole, DecodeUncompressedError>,
)
    requires
        call_ensures(uncompressed_role_from_component_type, (component_type,), role),
    ensures
        role is Ok <==> component_type <= 7 || component_type == 12,
        role matches Ok(own) ==> {
            &&& own is Monochrome <==> component_type == 0
            &&& own is Luma <==> component_type == 1
            &&& own is ChromaBlue <==> component_type == 2
            &&& own is ChromaRed <==> component_type == 3
            &&& own is Red <==> component_type == 4
            &&& own is Green <==> component_type == 5
            &&& own is Blue <==> component_type == 6
            &&& own is Alpha <==> component_type == 7
            &&& own is Padded <==> component_type == 12
        },
{
    lemma_channel_of_type(component_type);
}

/// A frame becomes an image of its visible size, with the bit depth of the
/// frame for luma and chroma. Where nothing is cut off and nothing stands
/// between the rows, the planes of the image are those of the frame: Y as Y, Cb
/// as U and Cr as V.
pub proof fn lemma_frame_call(
    frame: HeicFrame,
    chroma: (int, int),
    result: Result<DecodedHeicImage, DecodeHeicError>,
)
    requires
        call_ensures(heic_frame_to_internal_image, (frame,), result),
    ensures
        result matches Ok(image) ==> {
            &&& image.width == frame.cropped_width
            &&& image.height == frame.cropped_height
            &&& image.bit_depth_luma == frame.bit_depth
            &&& image.bit_depth_chroma == frame.bit_depth
            &&& image.ycbcr_range is Full <==> frame.full_range
            &&& image.ycbcr_matrix.matrix_coefficients == frame.matrix_coeffs
            &&& image.ycbcr_matrix.colour_primaries == frame.colour_primaries
        },
        result is Ok && frame.crop_left == 0 && frame.crop_top == 0 && (frame.chroma_format == 1
            && chroma.0 == (frame.cropped_width + 1) / 2 && chroma.1 == (frame.cropped_height + 1)
            / 2 || frame.chroma_format == 2 && chroma.0 == (frame.cropped_width + 1) / 2 && chroma.1
            == frame.cropped_height || frame.chroma_format == 3 && chroma.0 == frame.cropped_width
            && chroma.1 == frame.cropped_height) && frame.y_stride == frame.cropped_width
            && frame.c_stride == chroma.0 && frame.y_plane@.len() == frame.cropped_width
            * frame.cropped_height && frame.cb_plane@.len() == chroma.0 * chroma.1
            && frame.cr_plane@.len() == chroma.0 * chroma.1 ==> {
            let image = result->Ok_0;
            &&& image.y_plane.samples@ == frame.y_plane@
            &&& image.u_plane is Some && image.u_plane->0.samples@ == frame.cb_plane@
            &&& image.v_plane is Some && image.v_plane->0.samples@ == frame.cr_plane@
        },
{
    if let Ok(image) = result {
        lemma_metadata_of_frame(frame);
        if frame.crop_left == 0 && frame.crop_top == 0 && (frame.chroma_format == 1 && chroma.0 == (
        frame.cropped_width + 1) / 2 && chroma.1 == (frame.cropped_height + 1) / 2
            || frame.chroma_format == 2 && chroma.0 == (frame.cropped_width + 1) / 2 && chroma.1
            == frame.cropped_height || frame.chroma_format == 3 && chroma.0 == frame.cropped_width
            && chroma.1 == frame.cropped_height) && frame.y_stride == frame.cropped_width
            && frame.c_stride == chroma.0 && frame.y_plane@.len() == frame.cropped_width
            * frame.cropped_height && frame.cb_plane@.len() == chroma.0 * chroma.1
            && frame.cr_plane@.len() == chroma.0 * chroma.1 {
            lemma_planes_of_frame(frame, chroma);
        }
    }
}

/// A clean aperture of whole columns and rows that lies within the image is
/// kept as it is. Its centre is the centre of the image moved by the offsets:
/// to the right and down where they are positive.
pub proof fn lemma_aperture_call(
    width: u32,
    height: u32,
    clap: ImageCleanApertureProperty,
    shown: (int, int),
    offset: (int, int),
    result: Result<CleanApertureCropBounds, TransformGuardError>,
)
    requires
        clap.wf(),
        call_ensures(clean_aperture_crop_bounds, (width, height, clap), result),
        clap.clean_aperture_width_num == shown.0 * clap.clean_aperture_width_den,
        clap.clean_aperture_height_num == shown.1 * clap.clean_aperture_height_den,
        clap.horizontal_offset_num == offset.0 * clap.horizontal_offset_den,
        clap.vertical_offset_num == offset.1 * clap.vertical_offset_den,
        shown.0 > 0,
        shown.1 > 0,
        (width - shown.0) % 2 == 0,
        (height - shown.1) % 2 == 0,
        0 <= 2 * offset.0 + width - shown.0 <= 2 * (width - shown.0),
        0 <= 2 * offset.1 + height - shown.1 <= 2 * (height - shown.1),
    ensures
        result matches Ok(crop) && crop.width == shown.0 && crop.height == shown.1 && crop.left
            + crop.right == width - 1 + 2 * offset.0 && crop.top + crop.bottom == height - 1 + 2
            * offset.1 && crop.right - crop.left == shown.0 - 1 && crop.bottom - crop.top == shown.1
            - 1,
{
    lemma_aperture_is_centred(width, height, clap, shown, offset);
}

/// The decoder succeeded exactly where its code is 0; else the error names the
/// stage and the code.
pub proof fn lemma_decoder_call(
    stage: &'static str,
    code: i32,
    result: Result<(), DecodeAvifError>,
)
    requires
        call_ensures(ensure_dav1d_ok, (stage, code), result),
    ensures
        result is Ok <==> code == 0,
        result matches Err(e) ==> (e matches DecodeAvifError::DecoderApi { stage: at, code: said }
            && at == stage && said == code),
{
}

/// A picture is taken where the decoder has one. It is asked again only where it
/// says so, and fifteen times at most. Any other code is an error.
pub proof fn lemma_picture_call(
    attempt: u32,
    code: i32,
    try_again: i32,
    step: Result<PictureStep, DecodeAvifError>,
)
    requires
        call_ensures(after_picture_request, (attempt, code, try_again), step),
    ensures
        step matches Ok(PictureStep::Take) <==> code == 0,
        step matches Ok(PictureStep::AskAgain) ==> code == try_again && attempt + 1
            < 16,
        step matches Err(DecodeAvifError::DecoderApi { code: said, .. }) ==> said == code && code
            != try_again,
        step matches Err(DecodeAvifError::DecoderNoFrameOutput) ==> attempt + 1
            >= 16,
{
}

/// A sequence header codes the bit depths 8, 10 and 12, in that order.
pub proof fn lemma_coded_depth_call(first: u8, second: u8, bits: (u8, u8))
    requires
        call_ensures(coded_bit_depth, (first,), bits.0),
        call_ensures(coded_bit_depth, (second,), bits.1),
    ensures
        bits.0 == 8 || bits.0 == 10 || bits.0 == 12,
        first <= second ==> bits.0 <= bits.1,
        first < second <= 2 ==> bits.1 - bits.0 == 2 * (second - first),
{
}

/// The stream of an item begins with its configuration, and its payload
/// follows.
pub proof fn lemma_stream_call(config: &[u8], payload: &[u8], stream: Vec<u8>)
    requires
        call_ensures(av1_stream, (config, payload), stream),
    ensures
        stream@.len() == config@.len() + payload@.len(),
        stream@.take(config@.len() as int) == config@,
        stream@.skip(config@.len() as int) == payload@,
{
    assert(stream@.take(config@.len() as int) =~= config@);
    assert(stream@.skip(config@.len() as int) =~= payload@);
}

/// Samples of sixteen bits fill whole pairs of bytes, and RGB is given of HEIF
/// images.
pub proof fn lemma_demands(
    bytes: usize,
    family: HeifInputFamily,
    whole: Result<(), DecodeError>,
    rgb: Result<(), DecodeError>,
)
    requires
        call_ensures(require_whole_rgba16_samples, (bytes,), whole),
        call_ensures(require_rgb8_family, (family,), rgb),
    ensures
        whole is Ok <==> bytes as int == 2 * (bytes as int / 2),
        rgb is Ok <==> family is Heif,
        whole matches Err(e) ==> e is Unsupported,
        rgb matches Err(e) ==> e is Unsupported,
{
}

/// An image has the size that its file announces; a refusal says what was
/// announced as expected and what was decoded as the actual.
pub proof fn lemma_size_call(
    metadata: DecodedHeicImageMetadata,
    width: u32,
    height: u32,
    result: Result<(), DecodeHeicError>,
)
    requires
        call_ensures(
            validate_decoded_heic_geometry_against_ispe,
            (&metadata, width, height),
            result,
        ),
    ensures
        result is Ok <==> metadata.width == width && metadata.height == height,
        result matches Err(e) ==> (e matches DecodeHeicError::DecodedGeometryMismatch {
            expected_width,
            expected_height,
            actual_width,
            actual_height,
        } && expected_width == width && expected_height == height && actual_width == metadata.width
            && actual_height == metadata.height),
{
}

/// A turn by whole turns leaves an image as it is: two turns of which one does
/// do so together exactly where the other does too.
pub proof fn lemma_whole_turns(one: u16, other: u16, both: u16, whole: (bool, bool, bool))
    requires
        call_ensures(is_identity_rotation, (one,), whole.0),
        call_ensures(is_identity_rotation, (other,), whole.1),
        call_ensures(is_identity_rotation, (both,), whole.2),
        both == one + other,
    ensures
        one == 0 || one == 360 ==> whole.0,
        0 < one < 360 ==> !whole.0,
        whole.0 ==> whole.2 == whole.1,
{
}

/// Transforms change the orientation where one of them turns or mirrors; clean
/// apertures alone do not.
pub proof fn lemma_orientation_call(transforms: &[PrimaryItemTransformProperty], found: bool)
    requires
        call_ensures(transforms_include_orientation, (transforms,), found),
    ensures
        (forall|k: int|
            0 <= k < transforms@.len() ==> (#[trigger] transforms@[k]) is CleanAperture) ==> !found,
        forall|k: int|
            0 <= k < transforms@.len() && ((#[trigger] transforms@[k]) is Rotation
                || transforms@[k] is Mirror) ==> found,
{
}

/// Two codes are the same where their four bytes are.
pub proof fn lemma_codes_call(left: FourCc, right: FourCc, same: bool)
    requires
        call_ensures(four_cc_eq, (left, right), same),
    ensures
        same <==> left@ == right@,
{
}

/// A file that was made is handed on as it is; a failure becomes an error with
/// its text.
pub proof fn lemma_png_call(encoded: Result<Vec<u8>, String>, result: Result<Vec<u8>, DecodeError>)
    requires
        call_ensures(png_outcome, (encoded,), result),
    ensures
        encoded matches Ok(file) ==> (result matches Ok(own) && own == file),
        encoded matches Err(text) ==> (result matches Err(DecodeError::PngEncoding(said)) && said
            == text),
{
}

/// An image hands out its samples in the width in which it stores them, and in
/// no other; what it lends is what it gives away.
pub proof fn lemma_samples_call(
    image: DecodedRgbaImage,
    depth: u8,
    lent: (Option<&[u8]>, Option<&[u16]>),
    given: (Option<Vec<u8>>, Option<Vec<u16>>),
)
    requires
        call_ensures(DecodedRgbaImage::storage_bit_depth, (&image,), depth),
        call_ensures(DecodedRgbaImage::as_rgba8, (&image,), lent.0),
        call_ensures(DecodedRgbaImage::as_rgba16, (&image,), lent.1),
        call_ensures(DecodedRgbaImage::into_rgba8, (image,), given.0),
        call_ensures(DecodedRgbaImage::into_rgba16, (image,), given.1),
    ensures
        depth == 8 || depth == 16,
        depth == 8 <==> lent.0 is Some,
        depth == 8 <==> given.0 is Some,
        depth == 16 <==> lent.1 is Some,
        depth == 16 <==> given.1 is Some,
        lent.0 matches Some(samples) ==> image.pixels is U8 && samples@ == given.0->0@ && samples@
            == image.pixels->U8_0@,
        lent.1 matches Some(samples) ==> image.pixels is U16 && samples@ == given.1->0@ && samples@
            == image.pixels->U16_0@,
{
}

/// What an image hands out of its samples is what the samples hand out
/// themselves.
pub proof fn lemma_pixels_call(
    pixels: DecodedRgbaPixels,
    depth: u8,
    lent: (Option<&[u8]>, Option<&[u16]>),
    given: (Option<Vec<u8>>, Option<Vec<u16>>),
)
    requires
        call_ensures(DecodedRgbaPixels::storage_bit_depth, (&pixels,), depth),
        call_ensures(DecodedRgbaPixels::as_rgba8, (&pixels,), lent.0),
        call_ensures(DecodedRgbaPixels::as_rgba16, (&pixels,), lent.1),
        call_ensures(DecodedRgbaPixels::into_rgba8, (pixels,), given.0),
        call_ensures(DecodedRgbaPixels::into_rgba16, (pixels,), given.1),
    ensures
        depth == 8 || depth == 16,
        depth == 8 <==> lent.0 is Some,
        depth == 8 <==> given.0 is Some,
        depth == 16 <==> lent.1 is Some,
        depth == 16 <==> given.1 is Some,
        lent.0 matches Some(samples) ==> pixels is U8 && samples@ == given.0->0@ && samples@
            == pixels->U8_0@,
        lent.1 matches Some(samples) ==> pixels is U16 && samples@ == given.1->0@ && samples@
            == pixels->U16_0@,
{
}

/// The orientation to apply is the one of the file, where it asks for a change
/// and the file does not turn or mirror the image itself; and there is one
/// exactly where one should be applied.
pub proof fn lemma_hint_call(hint: ExifOrientationHint, applies: bool, orientation: Option<u8>)
    requires
        call_ensures(ExifOrientationHint::should_apply_exif_orientation, (hint,), applies),
        call_ensures(ExifOrientationHint::orientation_to_apply, (hint,), orientation),
    ensures
        applies <==> orientation is Some,
        orientation matches Some(value) ==> hint.exif_orientation == Some(value) && 2 <= value <= 8
            && !hint.primary_item_has_orientation_transform,
        hint.exif_orientation matches Some(value) && 2 <= value <= 8
            && !hint.primary_item_has_orientation_transform ==> applies,
{
}

/// An input is accepted up to its limit of bytes and an image up to its limit
/// of pixels, the limits themselves included; without a limit everything is.
pub proof fn lemma_limits_call(
    limits: DecodeGuardrails,
    bytes: u64,
    width: u32,
    height: u32,
    input: Result<(), DecodeError>,
    image: Result<(), DecodeError>,
)
    requires
        call_ensures(DecodeGuardrails::enforce_input_bytes, (&limits, bytes), input),
        call_ensures(DecodeGuardrails::enforce_pixel_count, (&limits, width, height), image),
    ensures
        input is Ok <==> limits.max_input_bytes is None || bytes <= limits.max_input_bytes->0,
        image is Ok <==> limits.max_pixels is None || width * height <= limits.max_pixels->0,
        input matches Err(e) ==> e is Guardrail,
        image matches Err(e) ==> e is Guardrail,
{
}

/// What is spooled is limited as the limits say, in the directory that they
/// name.
pub proof fn lemma_spool_call(limits: DecodeGuardrails, options: TempFileSpoolOptions)
    requires
        call_ensures(DecodeGuardrails::temp_spool_options, (&limits,), options),
    ensures
        options.max_spool_bytes == limits.max_temp_spool_bytes,
        options.spool_directory is Some <==> limits.temp_spool_directory is Some,
        options.spool_directory matches Some(own) ==> own@ == limits.temp_spool_directory->0@,
{
}

/// The extensions of HEIF files are among those of the whole family, and none
/// of them is that of AVIF.
pub proof fn lemma_extension_call(extension: &[u8], heif: bool, family: bool)
    requires
        call_ensures(path_extension_is_heif, (Some(extension),), heif),
        call_ensures(path_extension_is_heif_family, (Some(extension),), family),
    ensures
        heif ==> family,
        family && !heif <==> same_letters(
            extension@,
            seq!['a' as u8, 'v' as u8, 'i' as u8, 'f' as u8],
        ),
        heif <==> same_letters(extension@, seq!['h' as u8, 'e' as u8, 'i' as u8, 'c' as u8])
            || same_letters(extension@, seq!['h' as u8, 'e' as u8, 'i' as u8, 'f' as u8])
            || same_letters(extension@, seq!['h' as u8, 'i' as u8, 'f' as u8]),
{
    if same_letters(extension@, seq!['a' as u8, 'v' as u8, 'i' as u8, 'f' as u8]) {
        assert(lower(extension@[0]) == lower('a' as u8));
        assert(lower('a' as u8) == 97 && lower('h' as u8) == 104);
        let h = seq!['h' as u8, 'e' as u8, 'i' as u8, 'c' as u8];
        let g = seq!['h' as u8, 'e' as u8, 'i' as u8, 'f' as u8];
        assert(lower(h[0]) == 104 && lower(g[0]) == 104);
    }
}

} // verus!
