//! The clean aperture: the part of an image that is shown.
use crate::errors::TransformGuardError;
use vstd::prelude::*;

verus! {

/// The `clap` property: the size of the part that is shown, and how far its
/// centre lies from that of the image.
#[derive(Clone, Copy, Debug, PartialEq, Eq, Structural)]
pub struct ImageCleanApertureProperty {
    pub clean_aperture_width_num: u32,
    pub clean_aperture_width_den: u32,
    pub clean_aperture_height_num: u32,
    pub clean_aperture_height_den: u32,
    pub horizontal_offset_num: i32,
    pub horizontal_offset_den: u32,
    pub vertical_offset_num: i32,
    pub vertical_offset_den: u32,
}

impl ImageCleanApertureProperty {
    /// No denominator is zero.
    pub open spec fn wf(self) -> bool {
        &&& self.clean_aperture_width_den > 0
        &&& self.clean_aperture_height_den > 0
        &&& self.horizontal_offset_den > 0
        &&& self.vertical_offset_den > 0
    }
}

/// `num / den` without its fraction.
pub open spec fn truncated(num: int, den: int) -> int {
    if num >= 0 {
        num / den
    } else {
        -((-num) / den)
    }
}

/// `num / den`, with half the divisor added before the fraction goes.
pub open spec fn rounded(num: int, den: int) -> int {
    truncated(num + den / 2, den)
}

/// The numerator, over `near_edge_den`, of the first column or row that is
/// shown of `size`: `offset + (size - 1) / 2 - (shown - 1) / 2`.
pub open spec fn near_edge_num(
    offset_num: int,
    offset_den: int,
    shown_num: int,
    shown_den: int,
    size: int,
) -> int {
    (2 * offset_num + (size - 1) * offset_den) * (2 * shown_den) - (shown_num - shown_den) * (2
        * offset_den)
}

/// The denominator of `near_edge_num`.
pub open spec fn near_edge_den(offset_den: int, shown_den: int) -> int {
    (2 * offset_den) * (2 * shown_den)
}

/// The last column or row that is shown: `near + shown - 1`.
pub open spec fn far_edge(near: int, shown_num: int, shown_den: int) -> int {
    rounded(shown_num - shown_den + near * shown_den, shown_den)
}

/// The first column that is shown.
pub open spec fn clap_left(clap: ImageCleanApertureProperty, width: int) -> int {
    truncated(
        near_edge_num(
            clap.horizontal_offset_num as int,
            clap.horizontal_offset_den as int,
            clap.clean_aperture_width_num as int,
            clap.clean_aperture_width_den as int,
            width,
        ),
        near_edge_den(clap.horizontal_offset_den as int, clap.clean_aperture_width_den as int),
    )
}

/// The last column that is shown.
pub open spec fn clap_right(clap: ImageCleanApertureProperty, width: int) -> int {
    far_edge(
        clap_left(clap, width),
        clap.clean_aperture_width_num as int,
        clap.clean_aperture_width_den as int,
    )
}

/// The first row that is shown.
pub open spec fn clap_top(clap: ImageCleanApertureProperty, height: int) -> int {
    rounded(
        near_edge_num(
            clap.vertical_offset_num as int,
            clap.vertical_offset_den as int,
            clap.clean_aperture_height_num as int,
            clap.clean_aperture_height_den as int,
            height,
        ),
        near_edge_den(clap.vertical_offset_den as int, clap.clean_aperture_height_den as int),
    )
}

/// The last row that is shown.
pub open spec fn clap_bottom(clap: ImageCleanApertureProperty, height: int) -> int {
    far_edge(
        clap_top(clap, height),
        clap.clean_aperture_height_num as int,
        clap.clean_aperture_height_den as int,
    )
}

/// The columns and rows that a crop keeps.
#[derive(Clone, Copy, Debug, PartialEq, Eq, Structural)]
pub struct CleanApertureCropBounds {
    pub left: i128,
    pub right: i128,
    pub top: i128,
    pub bottom: i128,
    pub width: u32,
    pub height: u32,
}

impl CleanApertureCropBounds {
    /// The crop lies within an image of this size and is not empty.
    pub open spec fn within(self, width: u32, height: u32) -> bool {
        &&& 0 <= self.left <= self.right < width
        &&& 0 <= self.top <= self.bottom < height
        &&& self.width == self.right - self.left + 1
        &&& self.height == self.bottom - self.top + 1
    }
}

/// The columns and rows that a clean aperture keeps of an image: those that
/// are shown and that the image has.
pub open spec fn crop_bounds(width: u32, height: u32, clap: ImageCleanApertureProperty) -> Result<
    CleanApertureCropBounds,
    TransformGuardError,
> {
    if width == 0 || height == 0 {
        Err(TransformGuardError::EmptyImageGeometry { width, height })
    } else {
        let left = if clap_left(clap, width as int) < 0 {
            0
        } else {
            clap_left(clap, width as int)
        };
        let top = if clap_top(clap, height as int) < 0 {
            0
        } else {
            clap_top(clap, height as int)
        };
        let right = if clap_right(clap, width as int) > width - 1 {
            width - 1
        } else {
            clap_right(clap, width as int)
        };
        let bottom = if clap_bottom(clap, height as int) > height - 1 {
            height - 1
        } else {
            clap_bottom(clap, height as int)
        };
        if left > right || top > bottom {
            Err(
                TransformGuardError::InvalidCleanApertureBounds {
                    width,
                    height,
                    left: left as i128,
                    right: right as i128,
                    top: top as i128,
                    bottom: bottom as i128,
                },
            )
        } else {
            Ok(
                CleanApertureCropBounds {
                    left: left as i128,
                    right: right as i128,
                    top: top as i128,
                    bottom: bottom as i128,
                    width: (right - left + 1) as u32,
                    height: (bottom - top + 1) as u32,
                },
            )
        }
    }
}

/// Divides, without the fraction.
fn truncated_quotient(num: i128, den: i128) -> (quotient: i128)
    requires
        den > 0,
        num > i128::MIN,
    ensures
        quotient == truncated(num as int, den as int),
{
    proof {
        if num >= 0 {
            vstd::arithmetic::div_mod::lemma_div_nonincreasing(num as int, den as int);
            vstd::arithmetic::div_mod::lemma_div_pos_is_pos(num as int, den as int);
        } else {
            vstd::arithmetic::div_mod::lemma_div_nonincreasing(-num as int, den as int);
            vstd::arithmetic::div_mod::lemma_div_pos_is_pos(-num as int, den as int);
        }
    }
    if num >= 0 {
        num / den
    } else {
        -((-num) / den)
    }
}

/// The numbers of a near edge stay within bounds.
proof fn lemma_near_edge_bounds(
    offset_num: int,
    offset_den: int,
    shown_num: int,
    shown_den: int,
    size: int,
)
    requires
        -0x8000_0000 <= offset_num < 0x8000_0000,
        0 < offset_den < 0x1_0000_0000,
        0 <= shown_num < 0x1_0000_0000,
        0 < shown_den < 0x1_0000_0000,
        0 <= size < 0x1_0000_0000,
    ensures
        0 <= (size - 1) * offset_den + offset_den < 0x1_0000_0000_0000_0000,
        -0x2_0000_0000_0000_0000 < 2 * offset_num + (size - 1) * offset_den
            < 0x2_0000_0000_0000_0000,
        0 < near_edge_den(offset_den, shown_den) < 0x10_0000_0000_0000_0000,
        -0x2_0000_0000 * near_edge_den(offset_den, shown_den) < near_edge_num(
            offset_num,
            offset_den,
            shown_num,
            shown_den,
            size,
        ) < 0x2_0000_0000 * near_edge_den(offset_den, shown_den),
{
    assert(0 <= size * offset_den <= 0xffff_ffff * 0xffff_ffff) by (nonlinear_arith)
        requires
            0 < offset_den < 0x1_0000_0000,
            0 <= size < 0x1_0000_0000,
    ;
    assert((size - 1) * offset_den == size * offset_den - offset_den) by (nonlinear_arith);
    let den = near_edge_den(offset_den, shown_den);
    assert(0 < den < 0x10_0000_0000_0000_0000) by (nonlinear_arith)
        requires
            den == (2 * offset_den) * (2 * shown_den),
            0 < offset_den < 0x1_0000_0000,
            0 < shown_den < 0x1_0000_0000,
    ;
    let first = (2 * offset_num + (size - 1) * offset_den) * (2 * shown_den);
    let second = (shown_num - shown_den) * (2 * offset_den);
    assert(-0x1_0000_0000 * den <= first <= 0x1_0000_0000 * den) by {
        let n = 2 * offset_num + (size - 1) * offset_den;
        assert(-0x1_0000_0000 * (2 * offset_den) <= n <= 0x1_0000_0000 * (2 * offset_den)) by (nonlinear_arith)
            requires
                n == 2 * offset_num + (size - 1) * offset_den,
                -0x8000_0000 <= offset_num < 0x8000_0000,
                0 < offset_den < 0x1_0000_0000,
                0 <= size < 0x1_0000_0000,
        ;
        assert(-0x1_0000_0000 * den <= first <= 0x1_0000_0000 * den) by (nonlinear_arith)
            requires
                -0x1_0000_0000 * (2 * offset_den) <= n <= 0x1_0000_0000 * (2 * offset_den),
                first == n * (2 * shown_den),
                den == (2 * offset_den) * (2 * shown_den),
                0 < shown_den,
                0 < offset_den,
        ;
    }
    assert(-0x8000_0000 * den < second < 0x8000_0000 * den) by {
        let n = shown_num - shown_den;
        assert(-0x8000_0000 * (2 * shown_den) < n < 0x8000_0000 * (2 * shown_den)) by (nonlinear_arith)
            requires
                n == shown_num - shown_den,
                0 <= shown_num < 0x1_0000_0000,
                0 < shown_den < 0x1_0000_0000,
        ;
        assert(-0x8000_0000 * den < second < 0x8000_0000 * den) by (nonlinear_arith)
            requires
                -0x8000_0000 * (2 * shown_den) < n < 0x8000_0000 * (2 * shown_den),
                second == n * (2 * offset_den),
                den == (2 * offset_den) * (2 * shown_den),
                0 < offset_den,
                0 < shown_den,
        ;
    }
}

/// A quotient is smaller than what its numerator is a multiple of.
proof fn lemma_truncated_bound(num: int, den: int, bound: int)
    requires
        den > 0,
        bound >= 0,
        -bound * den <= num <= bound * den,
    ensures
        -bound <= truncated(num, den) <= bound,
{
    let magnitude = if num >= 0 {
        num
    } else {
        -num
    };
    assert(magnitude <= bound * den) by (nonlinear_arith)
        requires
            magnitude == num || magnitude == -num,
            -bound * den <= num <= bound * den,
    ;
    vstd::arithmetic::div_mod::lemma_fundamental_div_mod(magnitude, den);
    vstd::arithmetic::div_mod::lemma_div_pos_is_pos(magnitude, den);
    assert(magnitude / den <= bound) by (nonlinear_arith)
        requires
            magnitude == den * (magnitude / den) + magnitude % den,
            magnitude % den >= 0,
            magnitude <= bound * den,
            den > 0,
    ;
}

/// The first column or row that is shown, truncated or rounded.
fn near_edge(
    offset_num: i32,
    offset_den: u32,
    shown_num: u32,
    shown_den: u32,
    size: u32,
    round: bool,
) -> (edge: i128)
    requires
        offset_den > 0,
        shown_den > 0,
    ensures
        edge == (if round {
            rounded(
                near_edge_num(
                    offset_num as int,
                    offset_den as int,
                    shown_num as int,
                    shown_den as int,
                    size as int,
                ),
                near_edge_den(offset_den as int, shown_den as int),
            )
        } else {
            truncated(
                near_edge_num(
                    offset_num as int,
                    offset_den as int,
                    shown_num as int,
                    shown_den as int,
                    size as int,
                ),
                near_edge_den(offset_den as int, shown_den as int),
            )
        }),
        -0x4_0000_0000 <= edge <= 0x4_0000_0000,
{
    proof {
        lemma_near_edge_bounds(
            offset_num as int,
            offset_den as int,
            shown_num as int,
            shown_den as int,
            size as int,
        );
    }
    let ghost num_spec = near_edge_num(
        offset_num as int,
        offset_den as int,
        shown_num as int,
        shown_den as int,
        size as int,
    );
    let ghost den_spec = near_edge_den(offset_den as int, shown_den as int);
    let two_offset_den: i128 = 2 * (offset_den as i128);
    let two_shown_den: i128 = 2 * (shown_den as i128);
    let centre: i128 = 2 * (offset_num as i128) + ((size as i128) - 1) * (offset_den as i128);
    let less: i128 = (shown_num as i128) - (shown_den as i128);
    proof {
        assert(-0x20_0000_0000_0000_0000_0000_0000 < centre * two_shown_den
            < 0x20_0000_0000_0000_0000_0000_0000) by (nonlinear_arith)
            requires
                -0x2_0000_0000_0000_0000 < centre < 0x2_0000_0000_0000_0000,
                0 < two_shown_den < 0x2_0000_0000,
        ;
        assert(-0x20_0000_0000_0000_0000_0000_0000 < less * two_offset_den
            < 0x20_0000_0000_0000_0000_0000_0000) by (nonlinear_arith)
            requires
                -0x2_0000_0000 < less < 0x2_0000_0000,
                0 < two_offset_den < 0x2_0000_0000,
        ;
        assert(num_spec == centre * two_shown_den - less * two_offset_den);
        assert(den_spec == two_offset_den * two_shown_den);
    }
    let num: i128 = centre * two_shown_den - less * two_offset_den;
    let den: i128 = two_offset_den * two_shown_den;
    proof {
        lemma_truncated_bound(num as int, den as int, 0x2_0000_0000);
        assert(-0x4_0000_0000 * den <= num + den as int / 2 <= 0x4_0000_0000 * den)
            by (nonlinear_arith)
            requires
                den > 0,
                -0x2_0000_0000 * den < num < 0x2_0000_0000 * den,
        ;
        lemma_truncated_bound(num + den as int / 2, den as int, 0x4_0000_0000);
    }
    if round {
        truncated_quotient(num + den / 2, den)
    } else {
        truncated_quotient(num, den)
    }
}

/// The last column or row that is shown.
fn far_edge_from(near: i128, shown_num: u32, shown_den: u32) -> (edge: i128)
    requires
        shown_den > 0,
        -0x4_0000_0000 <= near <= 0x4_0000_0000,
    ensures
        edge == far_edge(near as int, shown_num as int, shown_den as int),
        -0x8_0000_0000 <= edge <= 0x8_0000_0000,
{
    let den: i128 = shown_den as i128;
    proof {
        assert(-0x4_0000_0000 * den <= near * den <= 0x4_0000_0000 * den) by (nonlinear_arith)
            requires
                den > 0,
                -0x4_0000_0000 <= near <= 0x4_0000_0000,
        ;
        assert(0x4_0000_0000 * den <= 0x4_0000_0000 * 0x1_0000_0000);
    }
    let num: i128 = (shown_num as i128) - den + near * den;
    proof {
        assert(-0x8_0000_0000 * den <= num + den as int / 2 <= 0x8_0000_0000 * den)
            by (nonlinear_arith)
            requires
                den > 0,
                0 <= shown_num < 0x1_0000_0000,
                num == shown_num - den + near * den,
                -0x4_0000_0000 * den <= near * den <= 0x4_0000_0000 * den,
        ;
        lemma_truncated_bound(num + den as int / 2, den as int, 0x8_0000_0000);
    }
    truncated_quotient(num + den / 2, den)
}

/// The first column that is shown.
pub fn clap_left_rounded(clean_aperture: ImageCleanApertureProperty, image_width: u32) -> (left:
    i128)
    requires
        clean_aperture.wf(),
    ensures
        left == clap_left(clean_aperture, image_width as int),
        -0x4_0000_0000 <= left <= 0x4_0000_0000,
{
    near_edge(
        clean_aperture.horizontal_offset_num,
        clean_aperture.horizontal_offset_den,
        clean_aperture.clean_aperture_width_num,
        clean_aperture.clean_aperture_width_den,
        image_width,
        false,
    )
}

/// The last column that is shown.
pub fn clap_right_rounded(clean_aperture: ImageCleanApertureProperty, image_width: u32) -> (right:
    i128)
    requires
        clean_aperture.wf(),
    ensures
        right == clap_right(clean_aperture, image_width as int),
        -0x8_0000_0000 <= right <= 0x8_0000_0000,
{
    far_edge_from(
        clap_left_rounded(clean_aperture, image_width),
        clean_aperture.clean_aperture_width_num,
        clean_aperture.clean_aperture_width_den,
    )
}

/// The first row that is shown.
pub fn clap_top_rounded(clean_aperture: ImageCleanApertureProperty, image_height: u32) -> (top:
    i128)
    requires
        clean_aperture.wf(),
    ensures
        top == clap_top(clean_aperture, image_height as int),
        -0x4_0000_0000 <= top <= 0x4_0000_0000,
{
    near_edge(
        clean_aperture.vertical_offset_num,
        clean_aperture.vertical_offset_den,
        clean_aperture.clean_aperture_height_num,
        clean_aperture.clean_aperture_height_den,
        image_height,
        true,
    )
}

/// The last row that is shown.
pub fn clap_bottom_rounded(
    clean_aperture: ImageCleanApertureProperty,
    image_height: u32,
) -> (bottom: i128)
    requires
        clean_aperture.wf(),
    ensures
        bottom == clap_bottom(clean_aperture, image_height as int),
        -0x8_0000_0000 <= bottom <= 0x8_0000_0000,
{
    far_edge_from(
        clap_top_rounded(clean_aperture, image_height),
        clean_aperture.clean_aperture_height_num,
        clean_aperture.clean_aperture_height_den,
    )
}

/// The columns and rows that a clean aperture keeps of an image.
pub fn clean_aperture_crop_bounds(
    width: u32,
    height: u32,
    clean_aperture: ImageCleanApertureProperty,
) -> (result: Result<CleanApertureCropBounds, TransformGuardError>)
    requires
        clean_aperture.wf(),
    ensures
        result == crop_bounds(width, height, clean_aperture),
        result matches Ok(crop) ==> crop.within(width, height),
{
    if width == 0 || height == 0 {
        return Err(TransformGuardError::EmptyImageGeometry { width, height });
    }
    let mut left: i128 = clap_left_rounded(clean_aperture, width);
    let mut right: i128 = clap_right_rounded(clean_aperture, width);
    let mut top: i128 = clap_top_rounded(clean_aperture, height);
    let mut bottom: i128 = clap_bottom_rounded(clean_aperture, height);
    if left < 0 {
        left = 0;
    }
    if top < 0 {
        top = 0;
    }
    let max_x: i128 = width as i128 - 1;
    let max_y: i128 = height as i128 - 1;
    if right > max_x {
        right = max_x;
    }
    if bottom > max_y {
        bottom = max_y;
    }
    if left > right || top > bottom {
        return Err(
            TransformGuardError::InvalidCleanApertureBounds {
                width,
                height,
                left,
                right,
                top,
                bottom,
            },
        );
    }
    Ok(
        CleanApertureCropBounds {
            left,
            right,
            top,
            bottom,
            width: (right - left + 1) as u32,
            height: (bottom - top + 1) as u32,
        },
    )
}

} // verus!
