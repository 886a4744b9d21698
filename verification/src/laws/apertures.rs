//! Which part of an image a clean aperture keeps.
#[allow(unused_imports)]
use crate::transform::aperture::{
    clap_left, clap_top, crop_bounds, far_edge, near_edge_den, near_edge_num, rounded, truncated,
    ImageCleanApertureProperty,
};
use vstd::prelude::*;

verus! {

/// `whole` and a part, over `den`, is `whole` where neither is below zero.
proof fn lemma_quotient(whole: int, part: int, num: int, den: int)
    requires
        den > 0,
        0 <= part < den,
        whole >= 0,
        num == whole * den + part,
    ensures
        truncated(num, den) == whole,
{
    assert(num >= 0) by (nonlinear_arith)
        requires
            den > 0,
            0 <= part,
            whole >= 0,
            num == whole * den + part,
    ;
    vstd::arithmetic::div_mod::lemma_fundamental_div_mod_converse(num, den, whole, part);
}

/// A whole number over and over `den` is that number, also below zero.
proof fn lemma_whole_quotient(whole: int, num: int, den: int)
    requires
        den > 0,
        num == whole * den,
    ensures
        truncated(num, den) == whole,
{
    if whole >= 0 {
        lemma_quotient(whole, 0, num, den);
    } else {
        assert(-num == (-whole) * den && num < 0) by (nonlinear_arith)
            requires
                den > 0,
                whole < 0,
                num == whole * den,
        ;
        vstd::arithmetic::div_mod::lemma_fundamental_div_mod_converse(-num, den, -whole, 0);
    }
}

/// The first column or row that is shown, where the numbers are whole, in
/// halves: `2 * offset + size - shown`.
proof fn lemma_near_edge(
    offset: int,
    offset_den: int,
    shown: int,
    shown_den: int,
    size: int,
)
    requires
        offset_den > 0,
        shown_den > 0,
    ensures
        ({
            let num = near_edge_num(
                offset * offset_den,
                offset_den,
                shown * shown_den,
                shown_den,
                size,
            );
            let den = near_edge_den(offset_den, shown_den);
            let halves = 2 * offset + size - shown;
            &&& den > 0
            &&& den % 2 == 0
            &&& num == halves * (den / 2)
            &&& halves % 2 == 0 ==> truncated(num, den) == halves / 2
            &&& halves % 2 == 1 && halves >= 0 ==> truncated(num, den) == (halves - 1) / 2
            &&& halves % 2 == 0 && halves >= 0 ==> rounded(num, den) == halves / 2
            &&& halves % 2 == 1 && halves >= 0 ==> rounded(num, den) == (halves + 1) / 2
        }),
{
    let num = near_edge_num(offset * offset_den, offset_den, shown * shown_den, shown_den, size);
    let den = near_edge_den(offset_den, shown_den);
    let halves = 2 * offset + size - shown;
    let half = (2 * offset_den) * shown_den;
    assert(half > 0) by (nonlinear_arith)
        requires
            offset_den > 0,
            shown_den > 0,
            half == (2 * offset_den) * shown_den,
    ;
    assert(den == 2 * half) by (nonlinear_arith)
        requires
            den == (2 * offset_den) * (2 * shown_den),
            half == (2 * offset_den) * shown_den,
    ;
    assert(num == halves * half) by (nonlinear_arith)
        requires
            num == (2 * (offset * offset_den) + (size - 1) * offset_den) * (2 * shown_den) - (shown
                * shown_den - shown_den) * (2 * offset_den),
            halves == 2 * offset + size - shown,
            half == (2 * offset_den) * shown_den,
    ;
    let whole = halves / 2;
    if halves % 2 == 0 {
        assert(num == whole * den) by (nonlinear_arith)
            requires
                num == halves * half,
                den == 2 * half,
                halves == 2 * whole,
        ;
        lemma_whole_quotient(whole, num, den);
        if halves >= 0 {
            lemma_quotient(whole, half, num + half, den);
        }
    } else {
        assert(num == whole * den + half) by (nonlinear_arith)
            requires
                num == halves * half,
                den == 2 * half,
                halves == 2 * whole + 1,
        ;
        if halves >= 0 {
            lemma_quotient(whole, half, num, den);
            assert(num + half == (whole + 1) * den) by (nonlinear_arith)
                requires
                    num == whole * den + half,
                    den == 2 * half,
            ;
            lemma_whole_quotient(whole + 1, num + half, den);
        }
    }
}

/// The last column or row that is shown of a whole number of them.
proof fn lemma_far_edge(near: int, shown: int, shown_den: int)
    requires
        shown_den > 0,
    ensures
        near + shown >= 1 ==> far_edge(near, shown * shown_den, shown_den) == near + shown - 1,
        near + shown < 1 ==> far_edge(near, shown * shown_den, shown_den) < 1,
{
    let num = shown * shown_den - shown_den + near * shown_den;
    assert(num == (near + shown - 1) * shown_den) by (nonlinear_arith)
        requires
            num == shown * shown_den - shown_den + near * shown_den,
    ;
    if near + shown >= 1 {
        lemma_quotient(near + shown - 1, shown_den / 2, num + shown_den / 2, shown_den);
    } else {
        let low = num + shown_den / 2;
        assert(low < shown_den) by (nonlinear_arith)
            requires
                num == (near + shown - 1) * shown_den,
                near + shown < 1,
                shown_den > 0,
                low == num + shown_den / 2,
        ;
        if low >= 0 {
            vstd::arithmetic::div_mod::lemma_basic_div(low, shown_den);
        } else {
            vstd::arithmetic::div_mod::lemma_div_pos_is_pos(-low, shown_den);
        }
    }
}

/// An aperture of a whole number of columns and rows, moved from the centre by
/// whole numbers, that lies within the image and leaves as much on one side as
/// on the other when it is not moved: it is kept as it is, and its centre is
/// the centre of the image moved by the offsets, so that the first and the
/// last kept column add up to those of the image and twice the offset, and the
/// rows likewise.
pub proof fn lemma_aperture_is_centred(
    width: u32,
    height: u32,
    clap: ImageCleanApertureProperty,
    shown: (int, int),
    offset: (int, int),
)
    requires
        clap.wf(),
        clap.clean_aperture_width_num == shown.0 * clap.clean_aperture_width_den,
        clap.clean_aperture_height_num == shown.1 * clap.clean_aperture_height_den,
        clap.horizontal_offset_num == offset.0 * clap.horizontal_offset_den,
        clap.vertical_offset_num == offset.1 * clap.vertical_offset_den,
        shown.0 > 0,
        shown.1 > 0,
        (width - shown.0) % 2 == 0,
        (height - shown.1) % 2 == 0,
        0 <= 2 * offset.0 + width - shown.0 <= 2 * (width - shown.0),
        0 <= 2 * offset.1 + height - shown.1 <= 2 * (height - shown.1),
    ensures
        crop_bounds(width, height, clap) matches Ok(crop) && crop.width == shown.0 && crop.height
            == shown.1 && crop.right - crop.left + 1 == shown.0 && crop.bottom - crop.top + 1
            == shown.1 && crop.left + crop.right == width - 1 + 2 * offset.0 && crop.top
            + crop.bottom == height - 1 + 2 * offset.1,
{
    lemma_near_edge(
        offset.0,
        clap.horizontal_offset_den as int,
        shown.0,
        clap.clean_aperture_width_den as int,
        width as int,
    );
    lemma_near_edge(
        offset.1,
        clap.vertical_offset_den as int,
        shown.1,
        clap.clean_aperture_height_den as int,
        height as int,
    );
    lemma_far_edge(
        clap_left(clap, width as int),
        shown.0,
        clap.clean_aperture_width_den as int,
    );
    lemma_far_edge(
        clap_top(clap, height as int),
        shown.1,
        clap.clean_aperture_height_den as int,
    );
}

/// Where an odd number of columns is cut, one more is cut on the right than on
/// the left; where an odd number of rows is cut, one more is cut at the top
/// than at the bottom.
pub proof fn lemma_aperture_off_centre(
    width: u32,
    height: u32,
    clap: ImageCleanApertureProperty,
    shown: (int, int),
    offset: (int, int),
)
    requires
        clap.wf(),
        clap.clean_aperture_width_num == shown.0 * clap.clean_aperture_width_den,
        clap.clean_aperture_height_num == shown.1 * clap.clean_aperture_height_den,
        clap.horizontal_offset_num == offset.0 * clap.horizontal_offset_den,
        clap.vertical_offset_num == offset.1 * clap.vertical_offset_den,
        shown.0 > 0,
        shown.1 > 0,
        (width - shown.0) % 2 == 1,
        (height - shown.1) % 2 == 1,
        0 < 2 * offset.0 + width - shown.0 < 2 * (width - shown.0),
        0 < 2 * offset.1 + height - shown.1 < 2 * (height - shown.1),
    ensures
        crop_bounds(width, height, clap) matches Ok(crop) && crop.width == shown.0 && crop.height
            == shown.1 && crop.left + crop.right == width - 2 + 2 * offset.0 && crop.top
            + crop.bottom == height + 2 * offset.1,
{
    lemma_near_edge(
        offset.0,
        clap.horizontal_offset_den as int,
        shown.0,
        clap.clean_aperture_width_den as int,
        width as int,
    );
    lemma_near_edge(
        offset.1,
        clap.vertical_offset_den as int,
        shown.1,
        clap.clean_aperture_height_den as int,
        height as int,
    );
    lemma_far_edge(
        clap_left(clap, width as int),
        shown.0,
        clap.clean_aperture_width_den as int,
    );
    lemma_far_edge(
        clap_top(clap, height as int),
        shown.1,
        clap.clean_aperture_height_den as int,
    );
}

/// Of an aperture that sticks out of the image, what lies within is kept: a
/// column is kept exactly where it is no further from the moved centre than
/// half the width of the aperture. Where no column is, the aperture is refused.
/// This is said of an aperture whose last column is not left of the image.
pub proof fn lemma_aperture_sticks_out(
    width: u32,
    height: u32,
    clap: ImageCleanApertureProperty,
    shown: (int, int),
    offset: (int, int),
    x: int,
)
    requires
        clap.wf(),
        clap.clean_aperture_width_num == shown.0 * clap.clean_aperture_width_den,
        clap.clean_aperture_height_num == shown.1 * clap.clean_aperture_height_den,
        clap.horizontal_offset_num == offset.0 * clap.horizontal_offset_den,
        clap.vertical_offset_num == offset.1 * clap.vertical_offset_den,
        shown.0 > 0,
        shown.1 > 0,
        (width - shown.0) % 2 == 0,
        (height - shown.1) % 2 == 0,
        0 <= 2 * offset.1 + height - shown.1 <= 2 * (height - shown.1),
        2 * offset.0 + width + shown.0 >= 2,
        0 <= x < width,
    ensures
        match crop_bounds(width, height, clap) {
            Ok(crop) => crop.left <= x <= crop.right <==> -(shown.0 - 1) <= 2 * x - (width - 1) - 2
                * offset.0 <= shown.0 - 1,
            Err(_) => !(-(shown.0 - 1) <= 2 * x - (width - 1) - 2 * offset.0 <= shown.0 - 1),
        },
{
    lemma_near_edge(
        offset.0,
        clap.horizontal_offset_den as int,
        shown.0,
        clap.clean_aperture_width_den as int,
        width as int,
    );
    lemma_near_edge(
        offset.1,
        clap.vertical_offset_den as int,
        shown.1,
        clap.clean_aperture_height_den as int,
        height as int,
    );
    lemma_far_edge(
        clap_left(clap, width as int),
        shown.0,
        clap.clean_aperture_width_den as int,
    );
    lemma_far_edge(
        clap_top(clap, height as int),
        shown.1,
        clap.clean_aperture_height_den as int,
    );
}

/// An image without a column or without a row has no aperture, and what an
/// aperture keeps lies within the image.
pub proof fn lemma_aperture_within(width: u32, height: u32, clap: ImageCleanApertureProperty)
    requires
        clap.wf(),
    ensures
        match crop_bounds(width, height, clap) {
            Ok(crop) => 0 <= crop.left <= crop.right < width && 0 <= crop.top <= crop.bottom
                < height,
            Err(_) => true,
        },
        width == 0 || height == 0 ==> crop_bounds(width, height, clap) is Err,
{
}

} // verus!
