//! What becomes of a decoded frame.
#[allow(unused_imports)]
use crate::hevc::frame::{HeicFrame, PlanePart};
#[allow(unused_imports)]
use crate::hevc::sps::array_type_layout;
use crate::laws::places::lemma_row_major;
#[allow(unused_imports)]
use crate::yuv::crop::rows_error;
#[allow(unused_imports)]
use crate::yuv::image::chroma_size;
use vstd::prelude::*;

verus! {

/// The visible part of a plane holds, in column `x` of row `y`, the sample
/// that stands `left` columns further right and `top` rows further down, at
/// `stride` samples to a row.
proof fn lemma_part(part: PlanePart, samples: Seq<u16>, x: int, y: int)
    requires
        0 <= x < part.width,
        0 <= y < part.height,
    ensures
        part.of(samples).samples.len() == part.width * part.height,
        part.of(samples).samples[y * part.width + x] == samples[(part.top + y) * part.stride
            + part.left + x],
{
    lemma_row_major(x, y, part.width, part.height);
}

/// A part that begins where the plane does, and whose rows follow each other
/// without a gap, is the plane.
proof fn lemma_whole_part(part: PlanePart, samples: Seq<u16>)
    requires
        part.left == 0,
        part.top == 0,
        part.width > 0,
        part.height >= 0,
        part.stride == part.width,
        samples.len() == part.width * part.height,
    ensures
        part.of(samples).samples == samples,
{
    let kept = part.of(samples).samples;
    assert forall|k: int| 0 <= k < kept.len() implies kept[k] == samples[k] by {
        crate::transform::pixels::lemma_place_of(k, part.width, part.height);
    }
    assert(kept =~= samples);
}

/// The pixel in column `x` and row `y` of a frame's image has the luma sample
/// of the frame that many columns and rows from where the visible part begins.
pub proof fn lemma_luma_of_frame(frame: HeicFrame, x: int, y: int)
    requires
        frame.error() is None,
        0 <= x < frame.cropped_width,
        0 <= y < frame.cropped_height,
    ensures
        frame.image().width == frame.cropped_width,
        frame.image().height == frame.cropped_height,
        frame.image().y_plane.width == frame.cropped_width,
        frame.image().y_plane.height == frame.cropped_height,
        frame.image().y_plane.samples[y * frame.cropped_width + x] == frame.y_plane@[(
        frame.crop_top + y) * frame.y_stride + frame.crop_left + x],
{
    lemma_part(frame.luma_part(), frame.y_plane@, x, y);
}

/// The number of chroma samples of `size` columns or rows.
proof fn lemma_shared(size: int, shared: int, place: int)
    requires
        size > 0,
        1 <= shared <= 2,
    ensures
        chroma_size(size, shared) == if shared == 2 {
            (size + 1) / 2
        } else {
            size
        },
        shared * chroma_size(size, shared) - size == size % shared,
        0 <= shared * place < size ==> 0 <= place < chroma_size(size, shared),
{
    if shared == 1 {
        assert(chroma_size(size, 1) == size);
    } else {
        assert(chroma_size(size, 2) == (size + 1) / 2);
    }
}

/// The U plane of a frame's image is taken from the Cb plane of the frame and
/// the V plane from its Cr plane. The sample in column `x` and row `y` of
/// either stands that many chroma samples from where the visible part begins:
/// from half its first column where two columns share a sample (chroma formats
/// 1 and 2), and from half its first row where two rows do (format 1).
pub proof fn lemma_chroma_of_frame(frame: HeicFrame, across: int, down: int, x: int, y: int)
    requires
        frame.error() is None,
        frame.chroma_format == 1 && across == 2 && down == 2 || frame.chroma_format == 2 && across
            == 2 && down == 1 || frame.chroma_format == 3 && across == 1 && down == 1,
        0 <= across * x < frame.cropped_width,
        0 <= down * y < frame.cropped_height,
    ensures
        frame.image().u_plane matches Some(u) && frame.image().v_plane matches Some(v) && across
            * u.width - frame.cropped_width == frame.cropped_width as int % across && down
            * u.height - frame.cropped_height == frame.cropped_height as int % down && v.width
            == u.width && v.height == u.height && x < u.width && y < u.height
            && u.samples[y * u.width + x] == frame.cb_plane@[(frame.crop_top as int / down + y)
            * frame.c_stride + frame.crop_left as int / across + x] && v.samples[y * v.width + x]
            == frame.cr_plane@[(frame.crop_top as int / down + y) * frame.c_stride
            + frame.crop_left as int / across + x],
{
    let layout = frame.image().layout;
    let part = frame.chroma_part(layout);
    lemma_shared(frame.cropped_width as int, across, x);
    lemma_shared(frame.cropped_height as int, down, y);
    lemma_part(part, frame.cb_plane@, x, y);
    lemma_part(part, frame.cr_plane@, x, y);
}

/// Where nothing of a frame with chroma is cut off and nothing stands between
/// its rows, the planes of its image are the planes of the frame: Y, Cb as U,
/// Cr as V.
pub proof fn lemma_planes_of_frame(frame: HeicFrame, chroma: (int, int))
    requires
        frame.error() is None,
        frame.crop_left == 0,
        frame.crop_top == 0,
        frame.chroma_format == 1 && chroma.0 == (frame.cropped_width + 1) / 2 && chroma.1
            == (frame.cropped_height + 1) / 2 || frame.chroma_format == 2 && chroma.0 == (
        frame.cropped_width + 1) / 2 && chroma.1 == frame.cropped_height
            || frame.chroma_format == 3 && chroma.0 == frame.cropped_width && chroma.1
            == frame.cropped_height,
        frame.y_stride == frame.cropped_width,
        frame.c_stride == chroma.0,
        frame.y_plane@.len() == frame.cropped_width * frame.cropped_height,
        frame.cb_plane@.len() == chroma.0 * chroma.1,
        frame.cr_plane@.len() == chroma.0 * chroma.1,
    ensures
        frame.image().y_plane.samples == frame.y_plane@,
        frame.image().u_plane matches Some(u) && u.samples == frame.cb_plane@ && u.width
            == chroma.0 && u.height == chroma.1,
        frame.image().v_plane matches Some(v) && v.samples == frame.cr_plane@ && v.width
            == chroma.0 && v.height == chroma.1,
{
    let layout = frame.image().layout;
    lemma_shared(frame.cropped_width as int, 1, 0);
    lemma_shared(frame.cropped_width as int, 2, 0);
    lemma_shared(frame.cropped_height as int, 1, 0);
    lemma_shared(frame.cropped_height as int, 2, 0);
    lemma_whole_part(frame.luma_part(), frame.y_plane@);
    lemma_whole_part(frame.chroma_part(layout), frame.cb_plane@);
    lemma_whole_part(frame.chroma_part(layout), frame.cr_plane@);
}

/// What a frame says of its samples is said of its image: the one bit depth of
/// luma and chroma, full range where the flag is set and limited range where
/// it is not, the two colour codes, and the layout: monochrome for chroma
/// format 0, then 4:2:0, 4:2:2 and 4:4:4. A monochrome image has no chroma.
pub proof fn lemma_metadata_of_frame(frame: HeicFrame)
    requires
        frame.error() is None,
    ensures
        frame.chroma_format <= 3,
        frame.image().bit_depth_luma == frame.bit_depth,
        frame.image().bit_depth_chroma == frame.bit_depth,
        frame.image().ycbcr_range is Full <==> frame.full_range,
        frame.image().ycbcr_matrix.matrix_coefficients == frame.matrix_coeffs,
        frame.image().ycbcr_matrix.colour_primaries == frame.colour_primaries,
        frame.image().layout is Yuv400 <==> frame.chroma_format == 0,
        frame.image().layout is Yuv420 <==> frame.chroma_format == 1,
        frame.image().layout is Yuv422 <==> frame.chroma_format == 2,
        frame.image().layout is Yuv444 <==> frame.chroma_format == 3,
        frame.image().u_plane is None <==> frame.chroma_format == 0,
        frame.image().v_plane is None <==> frame.chroma_format == 0,
{
}

/// A part that lies within the rows of a plane can be had of it.
proof fn lemma_part_fits(part: PlanePart, available: int, plane: &'static str)
    requires
        0 <= part.left,
        0 <= part.top,
        0 < part.width,
        0 < part.height,
        part.left + part.width <= part.stride <= usize::MAX,
        (part.top + part.height) * part.stride <= available <= usize::MAX,
    ensures
        part.error(available, plane) is None,
{
    let (top, height, stride) = (part.top, part.height, part.stride);
    assert(part.width * height <= stride * height) by (nonlinear_arith)
        requires
            part.width <= stride,
            0 <= height,
    ;
    assert(stride * height <= (top + height) * stride) by (nonlinear_arith)
        requires
            0 <= top,
            0 <= stride,
    ;
    lemma_rows_fit(part, available, plane, height as nat);
}

/// The rows of a part that lies within the rows of a plane can be had.
proof fn lemma_rows_fit(part: PlanePart, available: int, plane: &'static str, count: nat)
    requires
        0 <= part.left,
        0 <= part.top,
        0 < part.width,
        count <= part.height,
        part.left + part.width <= part.stride,
        (part.top + part.height) * part.stride <= available <= usize::MAX,
    ensures
        rows_error(available, part.stride, part.left, part.top, part.width, plane, count) is None,
    decreases count,
{
    if count > 0 {
        lemma_rows_fit(part, available, plane, (count - 1) as nat);
        let (top, height, stride) = (part.top, part.height, part.stride);
        let row = count - 1;
        assert((top + row) * stride + stride <= (top + height) * stride) by (nonlinear_arith)
            requires
                row + 1 <= height,
                0 <= stride,
        ;
        assert(top + row <= (top + row) * stride) by (nonlinear_arith)
            requires
                0 <= top + row,
                1 <= stride,
        ;
    }
}

/// A frame that is not empty, of one of the chroma formats 0 to 3, is an image
/// where its visible part lies within the rows of its planes and begins and
/// ends at chroma samples. An empty frame, another format and a visible part
/// that cuts through a chroma sample are refused.
pub proof fn lemma_frame_accepted(frame: HeicFrame, shared: (int, int))
    requires
        shared.0 == (if frame.chroma_format == 1 || frame.chroma_format == 2 {
            2int
        } else {
            1int
        }),
        shared.1 == (if frame.chroma_format == 1 {
            2int
        } else {
            1int
        }),
    ensures
        frame.error() is None ==> frame.cropped_width > 0 && frame.cropped_height > 0
            && frame.chroma_format <= 3,
        frame.error() is None && frame.chroma_format > 0 ==> frame.crop_left as int % shared.0 == 0
            && frame.crop_right as int % shared.0 == 0 && frame.crop_top as int % shared.1 == 0
            && frame.crop_bottom as int % shared.1 == 0,
        ({
            let chroma_bottom = frame.crop_top as int / shared.1 + (frame.cropped_height + shared.1
                - 1) / shared.1;
            let chroma_right = frame.crop_left as int / shared.0 + (frame.cropped_width + shared.0
                - 1) / shared.0;
            &&& frame.cropped_width > 0
            &&& frame.cropped_height > 0
            &&& frame.chroma_format <= 3
            &&& frame.crop_left + frame.cropped_width <= frame.y_stride
            &&& (frame.crop_top + frame.cropped_height) * frame.y_stride <= frame.y_plane@.len()
            &&& frame.chroma_format > 0 ==> {
                &&& frame.crop_left as int % shared.0 == 0
                &&& frame.crop_right as int % shared.0 == 0
                &&& frame.crop_top as int % shared.1 == 0
                &&& frame.crop_bottom as int % shared.1 == 0
                &&& chroma_right <= frame.c_stride
                &&& chroma_bottom * frame.c_stride <= frame.cb_plane@.len()
                &&& chroma_bottom * frame.c_stride <= frame.cr_plane@.len()
            }
        }) ==> frame.error() is None,
{
    assert(frame.y_plane.len() == frame.y_plane@.len());
    assert(frame.cb_plane.len() == frame.cb_plane@.len());
    assert(frame.cr_plane.len() == frame.cr_plane@.len());
    let (w, h) = (frame.cropped_width as int, frame.cropped_height as int);
    assert(chroma_size(w, 2) == (w + 1) / 2 && chroma_size(h, 2) == (h + 1) / 2);
    assert(chroma_size(w, 1) == w && chroma_size(h, 1) == h);
    if w > 0 && h > 0 && frame.chroma_format <= 3 && frame.crop_left + w <= frame.y_stride && (
    frame.crop_top + h) * frame.y_stride <= frame.y_plane@.len() {
        lemma_part_fits(frame.luma_part(), frame.y_plane@.len() as int, "Y");
        if frame.chroma_format > 0 {
            let part = frame.chroma_part(array_type_layout(frame.chroma_format)->0);
            if part.left + part.width <= part.stride {
                if (part.top + part.height) * part.stride <= frame.cb_plane@.len() {
                    lemma_part_fits(part, frame.cb_plane@.len() as int, "U");
                }
                if (part.top + part.height) * part.stride <= frame.cr_plane@.len() {
                    lemma_part_fits(part, frame.cr_plane@.len() as int, "V");
                }
            }
        }
    }
}

} // verus!
