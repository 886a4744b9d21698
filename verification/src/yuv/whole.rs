//! Images whose planes hold a sample for every pixel.
#[allow(unused_imports)]
use super::crop::{
    chroma_aligned, crop_error, crop_outcome, cropped, extract_error, keeps_all, leading_crops,
    row_error, rows_error,
};
#[allow(unused_imports)]
use super::heic::{chroma_dimensions, chroma_error, luma_error, shared_chroma};
#[allow(unused_imports)]
use super::image::chroma_size;
#[allow(unused_imports)]
use crate::transform::aperture::{crop_bounds, ImageCleanApertureProperty};
#[allow(unused_imports)]
use crate::transform::mapping::{
    lemma_first_transform, size_behind, transformed_size, PrimaryItemTransformProperty,
};
#[allow(unused_imports)]
use crate::types::HeicView;
use vstd::prelude::*;

verus! {

/// Whether the planes of an image have its size, and as many samples as they
/// say.
pub open spec fn planes_whole(decoded: HeicView) -> bool {
    luma_error(decoded) is None && chroma_error(decoded) is None
}

/// Rows that lie within a plane can be had.
proof fn lemma_rows_had(
    stride: int,
    rows: int,
    left: int,
    top: int,
    width: int,
    plane: &'static str,
    count: nat,
)
    requires
        0 <= left,
        0 <= width,
        left + width <= stride,
        0 <= top,
        top + count <= rows,
        rows <= u32::MAX,
        stride * rows <= usize::MAX,
    ensures
        rows_error(stride * rows, stride, left, top, width, plane, count) is None,
    decreases count,
{
    if count > 0 {
        lemma_rows_had(stride, rows, left, top, width, plane, (count - 1) as nat);
        let row = count - 1;
        assert(0 <= (top + row) * stride && (top + row) * stride + stride <= stride * rows)
            by (nonlinear_arith)
            requires
                0 <= top + row,
                top + row + 1 <= rows,
                0 <= stride,
        ;
        assert(row_error(stride * rows, stride, left, top, width, plane, row) is None);
    }
}

/// A crop that lies within a plane can be had, and has no more samples.
proof fn lemma_extracted(
    stride: int,
    rows: int,
    left: int,
    top: int,
    width: int,
    height: int,
    plane: &'static str,
)
    requires
        0 <= left,
        0 <= width,
        left + width <= stride <= u32::MAX,
        0 <= top,
        0 <= height,
        top + height <= rows <= u32::MAX,
        stride * rows <= usize::MAX,
    ensures
        extract_error(stride * rows, stride, left, top, width, height, plane) is None,
        0 <= width * height <= stride * rows,
{
    assert(0 <= width * height <= stride * rows) by (nonlinear_arith)
        requires
            0 <= width <= stride,
            0 <= height <= rows,
    ;
    lemma_rows_had(stride, rows, left, top, width, plane, height as nat);
}

/// The chroma samples of a crop that begins where a chroma sample begins lie
/// within the chroma plane.
proof fn lemma_chroma_within(start: int, size: int, whole: int, shared: int)
    requires
        1 <= shared <= 2,
        0 <= start,
        0 <= size,
        start + size <= whole,
        start % shared == 0,
    ensures
        0 <= start / shared,
        0 <= chroma_size(size, shared) <= size,
        start / shared + chroma_size(size, shared) <= chroma_size(whole, shared) <= whole,
{
    if shared == 1 {
        assert(start / 1 == start && size / 1 == size && whole / 1 == whole);
    }
}

/// A crop of whole planes that begins where a chroma sample begins can be had,
/// and leaves whole planes.
proof fn lemma_whole_crop(decoded: HeicView, clap: ImageCleanApertureProperty)
    requires
        planes_whole(decoded),
        crop_bounds(decoded.width, decoded.height, clap) is Ok,
        chroma_aligned(decoded, clap),
    ensures
        crop_outcome(decoded, clap) matches Ok(image) && {
            &&& planes_whole(image)
            &&& 0 < image.width
            &&& 0 < image.height
            &&& image.width * image.height <= decoded.width * decoded.height
            &&& image.ycbcr_matrix == decoded.ycbcr_matrix
            &&& image.bit_depth_luma == decoded.bit_depth_luma
            &&& image.bit_depth_chroma == decoded.bit_depth_chroma
        },
{
    let crop = crop_bounds(decoded.width, decoded.height, clap)->Ok_0;
    let (across, down) = shared_chroma(decoded.layout);
    let (width, height) = (decoded.width as int, decoded.height as int);
    let (left, top) = (crop.left as int, crop.top as int);
    let (wide, high) = (crop.width as int, crop.height as int);
    assert(0 <= left && 0 < wide && left + wide <= width);
    assert(0 <= top && 0 < high && top + high <= height);
    if !keeps_all(decoded, crop) {
        lemma_extracted(width, height, left, top, wide, high, "grid tile Y");
        assert(left % across == 0 && top % down == 0);
        lemma_chroma_within(left, wide, width, across);
        lemma_chroma_within(top, high, height, down);
        let chroma = chroma_dimensions(decoded.width, decoded.height, decoded.layout);
        if !(decoded.layout is Yuv400) {
            lemma_extracted(
                chroma.0,
                chroma.1,
                left / across,
                top / down,
                chroma_size(wide, across),
                chroma_size(high, down),
                "grid tile U",
            );
            lemma_extracted(
                chroma.0,
                chroma.1,
                left / across,
                top / down,
                chroma_size(wide, across),
                chroma_size(high, down),
                "grid tile V",
            );
        }
        assert(crop_error(decoded, clap) is None);
        assert(planes_whole(cropped(decoded, crop)));
    }
}

/// The leading crops of whole planes can be had where their transforms can,
/// and leave whole planes.
pub proof fn lemma_whole_crops(
    decoded: HeicView,
    transforms: Seq<PrimaryItemTransformProperty>,
    start: nat,
)
    requires
        planes_whole(decoded),
        0 < decoded.width,
        0 < decoded.height,
        start <= transforms.len(),
        transformed_size(
            transforms.skip(start as int),
            decoded.width,
            decoded.height,
            (transforms.len() - start) as nat,
        ) is Ok,
    ensures
        leading_crops(decoded, transforms, start) matches Ok((image, _)) && {
            &&& planes_whole(image)
            &&& 0 < image.width
            &&& 0 < image.height
            &&& image.width * image.height <= decoded.width * decoded.height
            &&& image.ycbcr_matrix == decoded.ycbcr_matrix
            &&& image.bit_depth_luma == decoded.bit_depth_luma
            &&& image.bit_depth_chroma == decoded.bit_depth_chroma
        },
    decreases transforms.len() - start,
{
    if start < transforms.len() {
        if let PrimaryItemTransformProperty::CleanAperture(clap) = transforms[start as int] {
            if chroma_aligned(decoded, clap) {
                let all = transforms.skip(start as int);
                let left = (transforms.len() - start) as nat;
                assert(all[0] == transforms[start as int]);
                assert(all.skip(1) =~= transforms.skip(start as int + 1));
                if size_behind(all[0], decoded.width, decoded.height) is Err {
                    lemma_first_fails(all, decoded.width, decoded.height, left);
                }
                lemma_first_transform(all, decoded.width, decoded.height, left, (0, 0));
                lemma_whole_crop(decoded, clap);
                let next = crop_outcome(decoded, clap)->Ok_0;
                assert(size_behind(all[0], decoded.width, decoded.height) == Ok::<
                    (u32, u32),
                    crate::errors::TransformGuardError,
                >((next.width, next.height)));
                lemma_whole_crops(next, transforms, start + 1);
            }
        }
    }
}

/// Where the first transform fails, all of them do.
proof fn lemma_first_fails(
    transforms: Seq<PrimaryItemTransformProperty>,
    width: u32,
    height: u32,
    count: nat,
)
    requires
        1 <= count <= transforms.len(),
        size_behind(transforms[0], width, height) is Err,
    ensures
        transformed_size(transforms, width, height, count) is Err,
    decreases count,
{
    if count > 1 {
        lemma_first_fails(transforms, width, height, (count - 1) as nat);
    } else {
        reveal_with_fuel(transformed_size, 2);
    }
}

} // verus!
