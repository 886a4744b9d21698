//! How samples become colours.
#[allow(unused_imports)]
use crate::types::{PrimaryItemColorProperties, YCbCrMatrixCoefficients, YCbCrRange};
#[allow(unused_imports)]
use crate::ycbcr::{
    coefficients_of, converts, lemma_coefficients, matrix_of, matrix_override, prepared, range_of,
    range_override, transform_of, PreparedYcbcrToRgb, PreparedYcbcrTransform, YCbCrToRgbTransform,
};
use vstd::arithmetic::power2::{lemma2_to64, pow2};
use vstd::prelude::*;

verus! {

/// The colour properties decide on range and matrix where they have an nclx
/// profile that says something: full range exactly where its flag is set, and
/// the two codes of the profile. Without one they decide on nothing; full
/// range and unspecified codes are then assumed.
pub proof fn lemma_nclx_decides(colr: &PrimaryItemColorProperties)
    ensures
        colr.nclx is Some && !colr.nclx->0.is_undefined ==> {
            let nclx = colr.nclx->0;
            &&& range_override(colr) is Some
            &&& range_override(colr)->0 is Full <==> nclx.full_range_flag
            &&& range_of(colr) is Full <==> nclx.full_range_flag
            &&& matrix_override(colr) is Some
            &&& matrix_override(colr)->0 == matrix_of(colr)
            &&& matrix_of(colr).matrix_coefficients == nclx.matrix_coefficients
            &&& matrix_of(colr).colour_primaries == nclx.colour_primaries
        },
        colr.nclx is None || colr.nclx->0.is_undefined ==> {
            &&& range_override(colr) is None
            &&& matrix_override(colr) is None
            &&& range_of(colr) is Full
            &&& matrix_of(colr).matrix_coefficients == 2
            &&& matrix_of(colr).colour_primaries == 2
        },
{
}

/// An image whose nclx profile sets the full range flag is converted by a
/// kernel of full range, which takes no black level off; one whose profile
/// clears it is converted by a kernel of limited range, whose offset is the
/// black level: 16 for eight bits, and twice as much for each bit more. The
/// kernel that moves chroma moves it by half the range.
pub proof fn lemma_kernel_of_range(
    colr: &PrimaryItemColorProperties,
    bit_depth: u8,
    transform: YCbCrToRgbTransform,
    is_420: bool,
)
    requires
        colr.nclx is Some,
        !colr.nclx->0.is_undefined,
        8 <= bit_depth <= 16,
    ensures
        prepared(bit_depth, range_of(colr), transform, is_420).bit_depth == bit_depth,
        match prepared(bit_depth, range_of(colr), transform, is_420).transform {
            PreparedYcbcrTransform::IdentityFull => colr.nclx->0.full_range_flag
                && transform is Identity,
            PreparedYcbcrTransform::MatrixFull { coeffs, chroma_midpoint } => {
                &&& colr.nclx->0.full_range_flag
                &&& transform is Matrix && coeffs == transform->coeffs
                &&& bit_depth == 8 && is_420
                &&& 2 * chroma_midpoint == pow2(bit_depth as nat)
            },
            PreparedYcbcrTransform::MatrixFullFloat { matrix, chroma_midpoint } => {
                &&& colr.nclx->0.full_range_flag
                &&& transform is Matrix && matrix == transform->matrix
                &&& !(bit_depth == 8 && is_420)
                &&& 2 * chroma_midpoint == pow2(bit_depth as nat)
            },
            PreparedYcbcrTransform::IdentityLimited { limited_offset } => {
                &&& !colr.nclx->0.full_range_flag
                &&& transform is Identity
                &&& 16 * limited_offset == pow2(bit_depth as nat)
            },
            PreparedYcbcrTransform::MatrixLimited { matrix, limited_offset, chroma_midpoint } => {
                &&& !colr.nclx->0.full_range_flag
                &&& transform is Matrix && matrix == transform->matrix
                &&& 16 * limited_offset == pow2(bit_depth as nat)
                &&& 2 * chroma_midpoint == pow2(bit_depth as nat)
            },
        },
{
    vstd::arithmetic::power2::lemma_pow2_pos(bit_depth as nat);
    crate::scaling::lemma_levels(bit_depth, 0, 0);
    lemma2_to64();
}

/// Matrix code 0 stands for no conversion, codes 8, 11, 14 and 16 are refused
/// by their number, and every other code stands for a matrix that keeps the
/// codes.
pub proof fn lemma_transform_of_code(matrix: YCbCrMatrixCoefficients)
    ensures
        ({
            let code = matrix.matrix_coefficients;
            match transform_of(matrix) {
                Ok(YCbCrToRgbTransform::Identity) => code == 0,
                Ok(YCbCrToRgbTransform::Matrix { coeffs, matrix: kept }) => {
                    &&& code != 0
                    &&& kept == matrix
                    &&& coeffs == coefficients_of(code, matrix.colour_primaries)
                },
                Err(refused) => refused == code && (code == 8 || code == 11 || code == 14 || code
                    == 16),
            }
        }),
{
}

/// A sample without colour becomes the grey of its luma: every sample of an
/// eight-bit 4:2:0 image in full range whose Cb and Cr stand in the middle.
pub proof fn lemma_grey_stays_grey<F: Fn(PreparedYcbcrToRgb, i32, i32, i32) -> (u16, u16, u16)>(
    matrix: YCbCrMatrixCoefficients,
    kernel: F,
    y: i32,
    rgb: (u16, u16, u16),
)
    requires
        transform_of(matrix) is Ok,
        matrix.matrix_coefficients != 0,
        0 <= y <= 255,
        converts(
            prepared(8, YCbCrRange::Full, transform_of(matrix)->Ok_0, true),
            kernel,
            y,
            128,
            128,
            rgb,
        ),
    ensures
        rgb.0 == y,
        rgb.1 == y,
        rgb.2 == y,
{
    lemma2_to64();
    let coeffs = transform_of(matrix)->Ok_0->coeffs;
    assert(coeffs.r_cr_fp8 * 0 == 0 && coeffs.g_cb_fp8 * 0 == 0 && coeffs.g_cr_fp8 * 0 == 0
        && coeffs.b_cb_fp8 * 0 == 0);
}

/// Without a matrix, the samples are colours already: Cr is red, luma is green
/// and Cb is blue.
pub proof fn lemma_identity<F: Fn(PreparedYcbcrToRgb, i32, i32, i32) -> (u16, u16, u16)>(
    bit_depth: u8,
    is_420: bool,
    kernel: F,
    sample: (i32, i32, i32),
    rgb: (u16, u16, u16),
)
    requires
        1 <= bit_depth <= 16,
        0 <= sample.0 < pow2(bit_depth as nat),
        0 <= sample.1 < pow2(bit_depth as nat),
        0 <= sample.2 < pow2(bit_depth as nat),
        converts(
            prepared(bit_depth, YCbCrRange::Full, YCbCrToRgbTransform::Identity, is_420),
            kernel,
            sample.0,
            sample.1,
            sample.2,
            rgb,
        ),
    ensures
        rgb.0 == sample.2,
        rgb.1 == sample.0,
        rgb.2 == sample.1,
{
}

/// In an eight-bit 4:2:0 image in full range, more Cr never makes a sample
/// less red or more green, and leaves its blue alone; more Cb never makes it
/// less blue or more green, and leaves its red alone; more luma never makes it
/// darker.
pub proof fn lemma_chroma_moves_colour<
    F: Fn(PreparedYcbcrToRgb, i32, i32, i32) -> (u16, u16, u16),
>(
    matrix: YCbCrMatrixCoefficients,
    kernel: F,
    low: (i32, i32, i32),
    high: (i32, i32, i32),
    low_rgb: (u16, u16, u16),
    high_rgb: (u16, u16, u16),
)
    requires
        transform_of(matrix) is Ok,
        matrix.matrix_coefficients != 0,
        converts(
            prepared(8, YCbCrRange::Full, transform_of(matrix)->Ok_0, true),
            kernel,
            low.0,
            low.1,
            low.2,
            low_rgb,
        ),
        converts(
            prepared(8, YCbCrRange::Full, transform_of(matrix)->Ok_0, true),
            kernel,
            high.0,
            high.1,
            high.2,
            high_rgb,
        ),
    ensures
        low.0 == high.0 && low.1 == high.1 && low.2 <= high.2 ==> low_rgb.0 <= high_rgb.0
            && low_rgb.1 >= high_rgb.1 && low_rgb.2 == high_rgb.2,
        low.0 == high.0 && low.1 <= high.1 && low.2 == high.2 ==> low_rgb.0 == high_rgb.0
            && low_rgb.1 >= high_rgb.1 && low_rgb.2 <= high_rgb.2,
        low.0 <= high.0 && low.1 == high.1 && low.2 == high.2 ==> low_rgb.0 <= high_rgb.0
            && low_rgb.1 <= high_rgb.1 && low_rgb.2 <= high_rgb.2,
{
    lemma2_to64();
    lemma_coefficients(matrix.matrix_coefficients, matrix.colour_primaries);
    let coeffs = transform_of(matrix)->Ok_0->coeffs;
    let (r_cr, g_cb, g_cr, b_cb) = (
        coeffs.r_cr_fp8 as int,
        coeffs.g_cb_fp8 as int,
        coeffs.g_cr_fp8 as int,
        coeffs.b_cb_fp8 as int,
    );
    let (low_u, high_u) = (low.1 - 128, high.1 - 128);
    let (low_v, high_v) = (low.2 - 128, high.2 - 128);
    if low.2 <= high.2 {
        assert(r_cr * low_v <= r_cr * high_v && g_cr * low_v >= g_cr * high_v)
            by (nonlinear_arith)
            requires
                low_v <= high_v,
                r_cr > 0,
                g_cr < 0,
        ;
    }
    if low.1 <= high.1 {
        assert(b_cb * low_u <= b_cb * high_u && g_cb * low_u >= g_cb * high_u)
            by (nonlinear_arith)
            requires
                low_u <= high_u,
                b_cb > 0,
                g_cb < 0,
        ;
    }
}

} // verus!
