//! From luma and chroma to red, green and blue.
//!
//! The kernel of a conversion is chosen here, and those on integers run here.
//! Those on floating-point numbers are a function that the caller hands in.
#[allow(unused_imports)]
use crate::scaling::{black_level, clipped, midpoint};
use crate::scaling::{chroma_midpoint, clip_to_bit_depth, limited_range_offset};
#[allow(unused_imports)]
use crate::types::unspecified_matrix;
use crate::types::{PrimaryItemColorProperties, YCbCrMatrixCoefficients, YCbCrRange};
use vstd::prelude::*;

verus! {

/// The range that the colour properties of the primary item ask for, where
/// they ask for one.
pub open spec fn range_override(colr: &PrimaryItemColorProperties) -> Option<YCbCrRange> {
    match colr.nclx {
        Some(nclx) => if nclx.is_undefined {
            None
        } else if nclx.full_range_flag {
            Some(YCbCrRange::Full)
        } else {
            Some(YCbCrRange::Limited)
        },
        None => None,
    }
}

/// The matrix that the colour properties of the primary item ask for, where
/// they ask for one.
pub open spec fn matrix_override(colr: &PrimaryItemColorProperties) -> Option<
    YCbCrMatrixCoefficients,
> {
    match colr.nclx {
        Some(nclx) => if nclx.is_undefined {
            None
        } else {
            Some(
                YCbCrMatrixCoefficients {
                    matrix_coefficients: nclx.matrix_coefficients,
                    colour_primaries: nclx.colour_primaries,
                },
            )
        },
        None => None,
    }
}

/// The range that the colour properties ask for; full range without them.
pub open spec fn range_of(colr: &PrimaryItemColorProperties) -> YCbCrRange {
    match range_override(colr) {
        Some(range) => range,
        None => YCbCrRange::Full,
    }
}

/// The matrix that the colour properties ask for; unspecified without them.
pub open spec fn matrix_of(colr: &PrimaryItemColorProperties) -> YCbCrMatrixCoefficients {
    match matrix_override(colr) {
        Some(matrix) => matrix,
        None => unspecified_matrix(),
    }
}

/// The range that the colour properties of the primary item ask for.
pub fn ycbcr_range_override_from_primary_colr(colr: &PrimaryItemColorProperties) -> (range: Option<
    YCbCrRange,
>)
    ensures
        range == range_override(colr),
{
    match colr.nclx {
        Some(nclx) => {
            if nclx.is_undefined {
                None
            } else if nclx.full_range_flag {
                Some(YCbCrRange::Full)
            } else {
                Some(YCbCrRange::Limited)
            }
        },
        None => None,
    }
}

/// The matrix that the colour properties of the primary item ask for.
pub fn ycbcr_matrix_override_from_primary_colr(
    colr: &PrimaryItemColorProperties,
) -> (matrix: Option<YCbCrMatrixCoefficients>)
    ensures
        matrix == matrix_override(colr),
{
    match colr.nclx {
        Some(nclx) => {
            if nclx.is_undefined {
                None
            } else {
                Some(
                    YCbCrMatrixCoefficients {
                        matrix_coefficients: nclx.matrix_coefficients,
                        colour_primaries: nclx.colour_primaries,
                    },
                )
            }
        },
        None => None,
    }
}

/// The range that the colour properties ask for; full range without them.
pub fn ycbcr_range_from_primary_colr(colr: &PrimaryItemColorProperties) -> (range: YCbCrRange)
    ensures
        range == range_of(colr),
{
    match ycbcr_range_override_from_primary_colr(colr) {
        Some(range) => range,
        None => YCbCrRange::Full,
    }
}

/// The matrix that the colour properties ask for; unspecified without them.
pub fn ycbcr_matrix_from_primary_colr(colr: &PrimaryItemColorProperties) -> (matrix:
    YCbCrMatrixCoefficients)
    ensures
        matrix == matrix_of(colr),
{
    match ycbcr_matrix_override_from_primary_colr(colr) {
        Some(matrix) => matrix,
        None => YCbCrMatrixCoefficients::default(),
    }
}

/// The coefficients of a conversion, in 256ths.
#[derive(Clone, Copy, Debug, PartialEq, Eq, Structural)]
pub struct YCbCrToRgbCoefficients {
    pub r_cr_fp8: i32,
    pub g_cb_fp8: i32,
    pub g_cr_fp8: i32,
    pub b_cb_fp8: i32,
}

/// The coefficients where the matrix code gives none.
pub open spec fn default_coefficients() -> YCbCrToRgbCoefficients {
    YCbCrToRgbCoefficients {
        r_cr_fp8: 359,
        g_cb_fp8: (-88) as i32,
        g_cr_fp8: (-183) as i32,
        b_cb_fp8: 454,
    }
}

/// The shape of a conversion.
#[derive(Clone, Copy, Debug, PartialEq, Eq, Structural)]
pub enum YCbCrToRgbTransform {
    Identity,
    Matrix { coeffs: YCbCrToRgbCoefficients, matrix: YCbCrMatrixCoefficients },
}

/// The shape of the conversion that a matrix code asks for, or the code where
/// there is none: 8, 11, 14 and 16 are not supported.
pub open spec fn transform_of(matrix: YCbCrMatrixCoefficients) -> Result<YCbCrToRgbTransform, u16> {
    let code = matrix.matrix_coefficients;
    if code == 0 {
        Ok(YCbCrToRgbTransform::Identity)
    } else if code == 8 || code == 11 || code == 14 || code == 16 {
        Err(code)
    } else {
        Ok(
            YCbCrToRgbTransform::Matrix {
                coeffs: coefficients_of(code, matrix.colour_primaries),
                matrix,
            },
        )
    }
}

/// The shape of the conversion that a matrix code asks for.
pub fn ycbcr_transform_from_matrix(matrix: YCbCrMatrixCoefficients) -> (transform: Result<
    YCbCrToRgbTransform,
    u16,
>)
    ensures
        transform == transform_of(matrix),
{
    let code: u16 = matrix.matrix_coefficients;
    if code == 0 {
        return Ok(YCbCrToRgbTransform::Identity);
    }
    if code == 8 || code == 11 || code == 14 || code == 16 {
        return Err(code);
    }
    Ok(
        YCbCrToRgbTransform::Matrix {
            coeffs: ycbcr_coefficients_from_matrix(code, matrix.colour_primaries),
            matrix,
        },
    )
}

/// A conversion with its kernel chosen.
#[derive(Clone, Copy, Debug, PartialEq, Eq, Structural)]
pub enum PreparedYcbcrTransform {
    /// Red, green and blue stand in the place of Cr, Y and Cb.
    IdentityFull,
    /// The same in limited range, on floating-point numbers.
    IdentityLimited { limited_offset: i32 },
    /// A matrix in 256ths.
    MatrixFull { coeffs: YCbCrToRgbCoefficients, chroma_midpoint: i32 },
    /// A matrix on floating-point numbers.
    MatrixFullFloat { matrix: YCbCrMatrixCoefficients, chroma_midpoint: i32 },
    /// A matrix in limited range, on floating-point numbers.
    MatrixLimited {
        matrix: YCbCrMatrixCoefficients,
        limited_offset: i32,
        chroma_midpoint: i32,
    },
}

/// A conversion for samples of one bit depth.
#[derive(Clone, Copy, Debug, PartialEq, Eq, Structural)]
pub struct PreparedYcbcrToRgb {
    pub bit_depth: u8,
    pub transform: PreparedYcbcrTransform,
}

/// The kernel for a conversion. Only eight-bit 4:2:0 in full range has a
/// matrix in 256ths.
pub open spec fn kernel_of(
    bit_depth: u8,
    range: YCbCrRange,
    transform: YCbCrToRgbTransform,
    layout_is_420: bool,
) -> PreparedYcbcrTransform {
    match (transform, range) {
        (YCbCrToRgbTransform::Identity, YCbCrRange::Full) => PreparedYcbcrTransform::IdentityFull,
        (YCbCrToRgbTransform::Identity, YCbCrRange::Limited) => {
            PreparedYcbcrTransform::IdentityLimited {
                limited_offset: black_level(bit_depth) as i32,
            }
        },
        (YCbCrToRgbTransform::Matrix { coeffs, matrix }, YCbCrRange::Full) => if bit_depth == 8
            && layout_is_420 {
            PreparedYcbcrTransform::MatrixFull {
                coeffs,
                chroma_midpoint: midpoint(bit_depth) as i32,
            }
        } else {
            PreparedYcbcrTransform::MatrixFullFloat {
                matrix,
                chroma_midpoint: midpoint(bit_depth) as i32,
            }
        },
        (YCbCrToRgbTransform::Matrix { matrix, .. }, YCbCrRange::Limited) => {
            PreparedYcbcrTransform::MatrixLimited {
                matrix,
                limited_offset: black_level(bit_depth) as i32,
                chroma_midpoint: midpoint(bit_depth) as i32,
            }
        },
    }
}

/// The prepared conversion for an image.
pub open spec fn prepared(
    bit_depth: u8,
    range: YCbCrRange,
    transform: YCbCrToRgbTransform,
    layout_is_420: bool,
) -> PreparedYcbcrToRgb {
    PreparedYcbcrToRgb {
        bit_depth,
        transform: kernel_of(bit_depth, range, transform, layout_is_420),
    }
}

/// `a` in 256ths, rounded to the nearest whole and added to `y`.
pub open spec fn plus_256ths(y: int, a: int) -> int {
    y + (a + 128) / 256
}

/// Whether `rgb` is what the conversion makes of a sample. A kernel on
/// floating-point numbers is the function that was handed in.
pub open spec fn converts<F: Fn(PreparedYcbcrToRgb, i32, i32, i32) -> (u16, u16, u16)>(
    prepared: PreparedYcbcrToRgb,
    float_kernel: F,
    y: i32,
    cb: i32,
    cr: i32,
    rgb: (u16, u16, u16),
) -> bool {
    let depth = prepared.bit_depth;
    match prepared.transform {
        PreparedYcbcrTransform::IdentityFull => {
            &&& rgb.0 == clipped(cr as int, depth)
            &&& rgb.1 == clipped(y as int, depth)
            &&& rgb.2 == clipped(cb as int, depth)
        },
        PreparedYcbcrTransform::MatrixFull { coeffs, chroma_midpoint } => {
            let u = cb - chroma_midpoint;
            let v = cr - chroma_midpoint;
            &&& rgb.0 == clipped(plus_256ths(y as int, coeffs.r_cr_fp8 * v), depth)
            &&& rgb.1 == clipped(
                plus_256ths(y as int, coeffs.g_cb_fp8 * u + coeffs.g_cr_fp8 * v),
                depth,
            )
            &&& rgb.2 == clipped(plus_256ths(y as int, coeffs.b_cb_fp8 * u), depth)
        },
        _ => float_kernel.ensures((prepared, y, cb, cr), rgb),
    }
}

/// The function that was handed in takes every sample.
pub open spec fn kernel_ready<F: Fn(PreparedYcbcrToRgb, i32, i32, i32) -> (u16, u16, u16)>(
    float_kernel: F,
) -> bool {
    forall|prepared: PreparedYcbcrToRgb, y: i32, cb: i32, cr: i32|
        #[trigger] float_kernel.requires((prepared, y, cb, cr))
}

/// A conversion makes one colour of a sample: one in whole numbers always does,
/// one on floating-point numbers where the function that was handed in does.
pub open spec fn settled<F: Fn(PreparedYcbcrToRgb, i32, i32, i32) -> (u16, u16, u16)>(
    prepared: PreparedYcbcrToRgb,
    float_kernel: F,
) -> bool {
    match prepared.transform {
        PreparedYcbcrTransform::IdentityFull => true,
        PreparedYcbcrTransform::MatrixFull { .. } => true,
        _ => forall|y: i32, cb: i32, cr: i32, one: (u16, u16, u16), other: (u16, u16, u16)|
            #[trigger] float_kernel.ensures((prepared, y, cb, cr), one)
                && #[trigger] float_kernel.ensures((prepared, y, cb, cr), other) ==> one == other,
    }
}

/// `value` divided by 256, rounded down.
fn floor_256(value: i64) -> (quotient: i64)
    requires
        -0x4000_0000_0000_0000 <= value <= 0x4000_0000_0000_0000,
    ensures
        quotient == value as int / 256,
{
    if value >= 0 {
        value / 256
    } else {
        let magnitude: i64 = -value;
        -((magnitude + 255) / 256)
    }
}

/// `coefficient * sample` is small.
proof fn lemma_product_bound(coefficient: int, sample: int)
    requires
        -0x8000_0000 <= coefficient <= 0x8000_0000,
        -0x2_0000 <= sample <= 0x2_0000,
    ensures
        -0x1_0000_0000_0000 <= coefficient * sample <= 0x1_0000_0000_0000,
{
    assert(-0x1_0000_0000_0000 <= coefficient * sample <= 0x1_0000_0000_0000) by (nonlinear_arith)
        requires
            -0x8000_0000 <= coefficient <= 0x8000_0000,
            -0x2_0000 <= sample <= 0x2_0000,
    ;
}

impl PreparedYcbcrToRgb {
    /// Chooses the kernel of a conversion.
    pub fn new(
        bit_depth: u8,
        range: YCbCrRange,
        transform: YCbCrToRgbTransform,
        layout_is_420: bool,
    ) -> (conversion: PreparedYcbcrToRgb)
        requires
            bit_depth <= 16,
        ensures
            conversion == prepared(bit_depth, range, transform, layout_is_420),
    {
        let middle: i32 = chroma_midpoint(bit_depth);
        let offset: i32 = limited_range_offset(bit_depth);
        let kernel: PreparedYcbcrTransform = match (transform, range) {
            (YCbCrToRgbTransform::Identity, YCbCrRange::Full) => {
                PreparedYcbcrTransform::IdentityFull
            },
            (YCbCrToRgbTransform::Identity, YCbCrRange::Limited) => {
                PreparedYcbcrTransform::IdentityLimited { limited_offset: offset }
            },
            (YCbCrToRgbTransform::Matrix { coeffs, matrix }, YCbCrRange::Full) => {
                if bit_depth == 8 && layout_is_420 {
                    PreparedYcbcrTransform::MatrixFull { coeffs, chroma_midpoint: middle }
                } else {
                    PreparedYcbcrTransform::MatrixFullFloat { matrix, chroma_midpoint: middle }
                }
            },
            (YCbCrToRgbTransform::Matrix { matrix, .. }, YCbCrRange::Limited) => {
                PreparedYcbcrTransform::MatrixLimited {
                    matrix,
                    limited_offset: offset,
                    chroma_midpoint: middle,
                }
            },
        };
        PreparedYcbcrToRgb { bit_depth, transform: kernel }
    }

    /// A conversion that `new` can have made.
    pub open spec fn wf(self) -> bool {
        &&& self.bit_depth <= 16
        &&& self.transform matches PreparedYcbcrTransform::MatrixFull { chroma_midpoint, .. }
            ==> 0 <= chroma_midpoint <= 0x1_0000
    }

    /// Converts one sample.
    pub fn convert<F: Fn(PreparedYcbcrToRgb, i32, i32, i32) -> (u16, u16, u16)>(
        self,
        float_kernel: &F,
        y_sample: i32,
        cb_sample: i32,
        cr_sample: i32,
    ) -> (rgb: (u16, u16, u16))
        requires
            self.wf(),
            kernel_ready(*float_kernel),
            0 <= y_sample <= 0xffff,
            0 <= cb_sample <= 0xffff,
            0 <= cr_sample <= 0xffff,
        ensures
            converts(self, *float_kernel, y_sample, cb_sample, cr_sample, rgb),
    {
        match self.transform {
            PreparedYcbcrTransform::IdentityFull => (
                clip_to_bit_depth(cr_sample as i64, self.bit_depth),
                clip_to_bit_depth(y_sample as i64, self.bit_depth),
                clip_to_bit_depth(cb_sample as i64, self.bit_depth),
            ),
            PreparedYcbcrTransform::MatrixFull { coeffs, chroma_midpoint } => {
                let cb_centered: i64 = (cb_sample - chroma_midpoint) as i64;
                let cr_centered: i64 = (cr_sample - chroma_midpoint) as i64;
                proof {
                    lemma_product_bound(coeffs.r_cr_fp8 as int, cr_centered as int);
                    lemma_product_bound(coeffs.g_cb_fp8 as int, cb_centered as int);
                    lemma_product_bound(coeffs.g_cr_fp8 as int, cr_centered as int);
                    lemma_product_bound(coeffs.b_cb_fp8 as int, cb_centered as int);
                }
                let y: i64 = y_sample as i64;
                let r: i64 = y + floor_256(coeffs.r_cr_fp8 as i64 * cr_centered + 128);
                let g: i64 = y + floor_256(
                    coeffs.g_cb_fp8 as i64 * cb_centered + coeffs.g_cr_fp8 as i64 * cr_centered
                        + 128,
                );
                let b: i64 = y + floor_256(coeffs.b_cb_fp8 as i64 * cb_centered + 128);
                (
                    clip_to_bit_depth(r, self.bit_depth),
                    clip_to_bit_depth(g, self.bit_depth),
                    clip_to_bit_depth(b, self.bit_depth),
                )
            },
            _ => float_kernel(self, y_sample, cb_sample, cr_sample),
        }
    }
}

/// A conversion that `new` made is one.
pub proof fn lemma_prepared_wf(
    bit_depth: u8,
    range: YCbCrRange,
    transform: YCbCrToRgbTransform,
    layout_is_420: bool,
)
    requires
        bit_depth <= 16,
    ensures
        prepared(bit_depth, range, transform, layout_is_420).wf(),
{
    vstd::arithmetic::power2::lemma2_to64();
}

/// A chromaticity coordinate pair, in millionths.
#[derive(Clone, Copy, Debug, PartialEq, Eq, Structural)]
pub struct Chromaticity {
    pub x: u32,
    pub y: u32,
}

/// The primaries and the white point of a colour space.
#[derive(Clone, Copy, Debug, PartialEq, Eq, Structural)]
pub struct ColourPrimaries {
    pub red: Chromaticity,
    pub green: Chromaticity,
    pub blue: Chromaticity,
    pub white: Chromaticity,
}

/// The colour space of eight coordinates.
pub open spec fn primaries(
    green: (u32, u32),
    blue: (u32, u32),
    red: (u32, u32),
    white: (u32, u32),
) -> ColourPrimaries {
    ColourPrimaries {
        red: Chromaticity { x: red.0, y: red.1 },
        green: Chromaticity { x: green.0, y: green.1 },
        blue: Chromaticity { x: blue.0, y: blue.1 },
        white: Chromaticity { x: white.0, y: white.1 },
    }
}

/// The colour space that a colour primaries code stands for.
pub open spec fn primaries_of(code: u16) -> Option<ColourPrimaries> {
    let d65 = (312700u32, 329000u32);
    if code == 1 {
        Some(primaries((300000, 600000), (150000, 60000), (640000, 330000), d65))
    } else if code == 4 {
        Some(primaries((210000, 710000), (140000, 80000), (670000, 330000), (310000, 316000)))
    } else if code == 5 {
        Some(primaries((290000, 600000), (150000, 60000), (640000, 330000), d65))
    } else if code == 6 || code == 7 {
        Some(primaries((310000, 595000), (155000, 70000), (630000, 340000), d65))
    } else if code == 8 {
        Some(primaries((243000, 692000), (145000, 49000), (681000, 319000), (310000, 316000)))
    } else if code == 9 {
        Some(primaries((170000, 797000), (131000, 46000), (708000, 292000), d65))
    } else if code == 10 {
        Some(primaries((0, 1000000), (0, 0), (1000000, 0), (333333, 333333)))
    } else if code == 11 {
        Some(primaries((265000, 690000), (150000, 60000), (680000, 320000), (314000, 351000)))
    } else if code == 12 {
        Some(primaries((265000, 690000), (150000, 60000), (680000, 320000), d65))
    } else if code == 22 {
        Some(primaries((295000, 605000), (155000, 77000), (630000, 340000), d65))
    } else {
        None
    }
}

/// Builds a colour space of eight coordinates.
fn make_primaries(
    green: (u32, u32),
    blue: (u32, u32),
    red: (u32, u32),
    white: (u32, u32),
) -> (space: ColourPrimaries)
    ensures
        space == primaries(green, blue, red, white),
{
    ColourPrimaries {
        red: Chromaticity { x: red.0, y: red.1 },
        green: Chromaticity { x: green.0, y: green.1 },
        blue: Chromaticity { x: blue.0, y: blue.1 },
        white: Chromaticity { x: white.0, y: white.1 },
    }
}

/// The colour space that a colour primaries code stands for.
pub fn colour_primaries_from_index(primaries_idx: u16) -> (space: Option<ColourPrimaries>)
    ensures
        space == primaries_of(primaries_idx),
{
    let d65: (u32, u32) = (312700, 329000);
    match primaries_idx {
        1 => Some(make_primaries((300000, 600000), (150000, 60000), (640000, 330000), d65)),
        4 => Some(
            make_primaries((210000, 710000), (140000, 80000), (670000, 330000), (310000, 316000)),
        ),
        5 => Some(make_primaries((290000, 600000), (150000, 60000), (640000, 330000), d65)),
        6 | 7 => Some(make_primaries((310000, 595000), (155000, 70000), (630000, 340000), d65)),
        8 => Some(
            make_primaries((243000, 692000), (145000, 49000), (681000, 319000), (310000, 316000)),
        ),
        9 => Some(make_primaries((170000, 797000), (131000, 46000), (708000, 292000), d65)),
        10 => Some(make_primaries((0, 1000000), (0, 0), (1000000, 0), (333333, 333333))),
        11 => Some(
            make_primaries((265000, 690000), (150000, 60000), (680000, 320000), (314000, 351000)),
        ),
        12 => Some(make_primaries((265000, 690000), (150000, 60000), (680000, 320000), d65)),
        22 => Some(make_primaries((295000, 605000), (155000, 77000), (630000, 340000), d65)),
        _ => None,
    }
}

/// Where the red and blue weights of a conversion come from.
#[derive(Clone, Copy, Debug, PartialEq, Eq, Structural)]
pub enum LumaWeights {
    /// The weights of red and blue, in millionths.
    Fixed { red: u32, blue: u32 },
    /// The weights follow from the colour primaries.
    FromPrimaries(ColourPrimaries),
}

/// The luma weights that a matrix code stands for.
pub open spec fn weights_of(matrix_coefficients: u16, colour_primaries: u16) -> Option<
    LumaWeights,
> {
    if matrix_coefficients == 1 {
        Some(LumaWeights::Fixed { red: 212600, blue: 72200 })
    } else if matrix_coefficients == 4 {
        Some(LumaWeights::Fixed { red: 300000, blue: 110000 })
    } else if matrix_coefficients == 5 || matrix_coefficients == 6 {
        Some(LumaWeights::Fixed { red: 299000, blue: 114000 })
    } else if matrix_coefficients == 7 {
        Some(LumaWeights::Fixed { red: 212000, blue: 87000 })
    } else if matrix_coefficients == 9 || matrix_coefficients == 10 {
        Some(LumaWeights::Fixed { red: 262700, blue: 59300 })
    } else if matrix_coefficients == 12 || matrix_coefficients == 13 {
        match primaries_of(colour_primaries) {
            Some(space) => Some(LumaWeights::FromPrimaries(space)),
            None => None,
        }
    } else {
        None
    }
}

/// The luma weights that a matrix code stands for.
pub fn kr_kb_from_matrix(matrix_coefficients: u16, colour_primaries: u16) -> (weights: Option<
    LumaWeights,
>)
    ensures
        weights == weights_of(matrix_coefficients, colour_primaries),
{
    match matrix_coefficients {
        1 => Some(LumaWeights::Fixed { red: 212600, blue: 72200 }),
        4 => Some(LumaWeights::Fixed { red: 300000, blue: 110000 }),
        5 | 6 => Some(LumaWeights::Fixed { red: 299000, blue: 114000 }),
        7 => Some(LumaWeights::Fixed { red: 212000, blue: 87000 }),
        9 | 10 => Some(LumaWeights::Fixed { red: 262700, blue: 59300 }),
        12 | 13 => match colour_primaries_from_index(colour_primaries) {
            Some(space) => Some(LumaWeights::FromPrimaries(space)),
            None => None,
        },
        _ => None,
    }
}

/// A ratio, rounded to the nearest whole; a half goes away from zero.
pub open spec fn nearest(num: int, den: int) -> int {
    let n = if num < 0 {
        -num
    } else {
        num
    };
    let d = if den < 0 {
        -den
    } else {
        den
    };
    let magnitude = (2 * n + d) / (2 * d);
    if (num < 0) == (den < 0) {
        magnitude
    } else {
        -magnitude
    }
}

/// The coefficients that luma weights of `red` and `blue`, out of `whole`, lead
/// to, in 256ths.
pub open spec fn coefficients_from_weights(
    red: int,
    blue: int,
    whole: int,
) -> YCbCrToRgbCoefficients {
    YCbCrToRgbCoefficients {
        r_cr_fp8: nearest(512 * (whole - red), whole) as i32,
        g_cb_fp8: nearest(512 * blue * (whole - blue), whole * (red + blue - whole)) as i32,
        g_cr_fp8: nearest(512 * red * (whole - red), whole * (red + blue - whole)) as i32,
        b_cb_fp8: nearest(512 * (whole - blue), whole) as i32,
    }
}

/// The determinant of the coordinates of three colours, where the third
/// coordinate of each makes the sum of the three one.
pub open spec fn volume(a: Chromaticity, b: Chromaticity, c: Chromaticity) -> int {
    let (az, bz, cz) = (third(a), third(b), third(c));
    a.x * (b.y * cz - c.y * bz) + b.x * (c.y * az - a.y * cz) + c.x * (a.y * bz - b.y * az)
}

/// The third coordinate of a colour, in millionths.
pub open spec fn third(colour: Chromaticity) -> int {
    1000000 - colour.x - colour.y
}

/// The luma weights of red and of blue, and what they are out of: how much of
/// each primary makes up white, weighed by the luma of the primary.
pub open spec fn weights_of_primaries(space: ColourPrimaries) -> (int, int, int) {
    (
        space.red.y * volume(space.white, space.green, space.blue),
        space.blue.y * volume(space.red, space.green, space.white),
        space.white.y * volume(space.red, space.green, space.blue),
    )
}

/// The coefficients that follow from colour primaries, in 256ths: those of the
/// luma weights. Where there are no such weights, or luma has no red and no
/// blue, or no green, they are the default ones.
pub open spec fn derived_coefficients(space: ColourPrimaries) -> YCbCrToRgbCoefficients {
    let (red, blue, whole) = weights_of_primaries(space);
    if whole == 0 || (red == 0 && blue == 0) || red + blue == whole {
        default_coefficients()
    } else {
        coefficients_from_weights(red, blue, whole)
    }
}

/// The coefficients that a matrix code stands for, in 256ths.
pub open spec fn coefficients_of(
    matrix_coefficients: u16,
    colour_primaries: u16,
) -> YCbCrToRgbCoefficients {
    match weights_of(matrix_coefficients, colour_primaries) {
        None => default_coefficients(),
        Some(LumaWeights::Fixed { red, blue }) => coefficients_from_weights(
            red as int,
            blue as int,
            1000000,
        ),
        Some(LumaWeights::FromPrimaries(space)) => derived_coefficients(space),
    }
}

/// Four coefficients.
pub open spec fn quadruple(r_cr: int, g_cb: int, g_cr: int, b_cb: int) -> YCbCrToRgbCoefficients {
    YCbCrToRgbCoefficients {
        r_cr_fp8: r_cr as i32,
        g_cb_fp8: g_cb as i32,
        g_cr_fp8: g_cr as i32,
        b_cb_fp8: b_cb as i32,
    }
}

/// The coefficients for the luma weights of the matrix codes.
proof fn lemma_fixed_coefficients()
    ensures
        coefficients_from_weights(212600, 72200, 1000000) == quadruple(403, -48, -120, 475),
        coefficients_from_weights(300000, 110000, 1000000) == quadruple(358, -85, -182, 456),
        coefficients_from_weights(299000, 114000, 1000000) == quadruple(359, -88, -183, 454),
        coefficients_from_weights(212000, 87000, 1000000) == quadruple(403, -58, -122, 467),
        coefficients_from_weights(262700, 59300, 1000000) == quadruple(377, -42, -146, 482),
{
    assert(coefficients_from_weights(212600, 72200, 1000000) == quadruple(403, -48, -120, 475))
        by (nonlinear_arith);
    assert(coefficients_from_weights(300000, 110000, 1000000) == quadruple(358, -85, -182, 456))
        by (nonlinear_arith);
    assert(coefficients_from_weights(299000, 114000, 1000000) == quadruple(359, -88, -183, 454))
        by (nonlinear_arith);
    assert(coefficients_from_weights(212000, 87000, 1000000) == quadruple(403, -58, -122, 467))
        by (nonlinear_arith);
    assert(coefficients_from_weights(262700, 59300, 1000000) == quadruple(377, -42, -146, 482))
        by (nonlinear_arith);
}

/// The luma weights of red and of blue, and what they are out of, for the
/// primaries that a code stands for.
spec fn known_weights(code: u16) -> (int, int, int) {
    if code == 1 {
        (15677640000000000000000int, 5322660000000000000000int, 73728900000000000000000int)
    } else if code == 4 {
        (29891400000000000000000int, 11459200000000000000000int, 99982400000000000000000int)
    } else if code == 5 {
        (16565340000000000000000int, 5323260000000000000000int, 74617200000000000000000int)
    } else if code == 6 || code == 7 {
        (14500150000000000000000int, 5910205000000000000000int, 68275725000000000000000int)
    } else if code == 8 {
        (25497351000000000000000int, 6845153000000000000000int, 100547408000000000000000int)
    } else if code == 9 {
        (36622552400000000000000int, 8267143000000000000000int, 139408157000000000000000int)
    } else if code == 10 {
        (0int, 0int, 333333000000000000000000int)
    } else if code == 11 {
        (22353600000000000000000int, 7353300000000000000000int, 106704000000000000000000int)
    } else if code == 12 {
        (22901120000000000000000int, 7929960000000000000000int, 100016000000000000000000int)
    } else {
        (16315104000000000000000int, 6758251500000000000000int, 70399420000000000000000int)
    }
}

/// The luma weights that follow from the primaries that a code stands for.
proof fn lemma_weights_of_primaries(code: u16)
    requires
        primaries_of(code) is Some,
    ensures
        weights_of_primaries(primaries_of(code)->0) == known_weights(code),
{
    let space = primaries_of(code)->0;
    assert(weights_of_primaries(space) == known_weights(code)) by (nonlinear_arith)
        requires
            primaries_of(code) == Some(space),
    ;
}

/// The coefficients for the luma weights that follow from primaries.
proof fn lemma_derived_coefficients()
    ensures
        coefficients_from_weights(
            15677640000000000000000,
            5322660000000000000000,
            73728900000000000000000,
        ) == quadruple(403, -48, -120, 475),
        coefficients_from_weights(
            29891400000000000000000,
            11459200000000000000000,
            99982400000000000000000,
        ) == quadruple(359, -89, -183, 453),
        coefficients_from_weights(
            16565340000000000000000,
            5323260000000000000000,
            74617200000000000000000,
        ) == quadruple(398, -48, -125, 475),
        coefficients_from_weights(
            14500150000000000000000,
            5910205000000000000000,
            68275725000000000000000,
        ) == quadruple(403, -58, -122, 468),
        coefficients_from_weights(
            25497351000000000000000,
            6845153000000000000000,
            100547408000000000000000,
        ) == quadruple(382, -48, -143, 477),
        coefficients_from_weights(
            36622552400000000000000,
            8267143000000000000000,
            139408157000000000000000,
        ) == quadruple(377, -42, -146, 482),
        coefficients_from_weights(
            22353600000000000000000,
            7353300000000000000000,
            106704000000000000000000,
        ) == quadruple(405, -46, -118, 477),
        coefficients_from_weights(
            22901120000000000000000,
            7929960000000000000000,
            100016000000000000000000,
        ) == quadruple(395, -54, -131, 471),
        coefficients_from_weights(
            16315104000000000000000,
            6758251500000000000000,
            70399420000000000000000,
        ) == quadruple(393, -66, -136, 463),
{
    assert(coefficients_from_weights(
        15677640000000000000000,
        5322660000000000000000,
        73728900000000000000000,
    ) == quadruple(403, -48, -120, 475)) by (nonlinear_arith);
    assert(coefficients_from_weights(
        29891400000000000000000,
        11459200000000000000000,
        99982400000000000000000,
    ) == quadruple(359, -89, -183, 453)) by (nonlinear_arith);
    assert(coefficients_from_weights(
        16565340000000000000000,
        5323260000000000000000,
        74617200000000000000000,
    ) == quadruple(398, -48, -125, 475)) by (nonlinear_arith);
    assert(coefficients_from_weights(
        14500150000000000000000,
        5910205000000000000000,
        68275725000000000000000,
    ) == quadruple(403, -58, -122, 468)) by (nonlinear_arith);
    assert(coefficients_from_weights(
        25497351000000000000000,
        6845153000000000000000,
        100547408000000000000000,
    ) == quadruple(382, -48, -143, 477)) by (nonlinear_arith);
    assert(coefficients_from_weights(
        36622552400000000000000,
        8267143000000000000000,
        139408157000000000000000,
    ) == quadruple(377, -42, -146, 482)) by (nonlinear_arith);
    assert(coefficients_from_weights(
        22353600000000000000000,
        7353300000000000000000,
        106704000000000000000000,
    ) == quadruple(405, -46, -118, 477)) by (nonlinear_arith);
    assert(coefficients_from_weights(
        22901120000000000000000,
        7929960000000000000000,
        100016000000000000000000,
    ) == quadruple(395, -54, -131, 471)) by (nonlinear_arith);
    assert(coefficients_from_weights(
        16315104000000000000000,
        6758251500000000000000,
        70399420000000000000000,
    ) == quadruple(393, -66, -136, 463)) by (nonlinear_arith);
}

/// Four coefficients.
fn coefficients(r_cr: i32, g_cb: i32, g_cr: i32, b_cb: i32) -> (coeffs: YCbCrToRgbCoefficients)
    ensures
        coeffs == (YCbCrToRgbCoefficients {
            r_cr_fp8: r_cr,
            g_cb_fp8: g_cb,
            g_cr_fp8: g_cr,
            b_cb_fp8: b_cb,
        }),
{
    YCbCrToRgbCoefficients { r_cr_fp8: r_cr, g_cb_fp8: g_cb, g_cr_fp8: g_cr, b_cb_fp8: b_cb }
}

/// The coefficients that a matrix code stands for, in 256ths.
pub fn ycbcr_coefficients_from_matrix(matrix_coefficients: u16, colour_primaries: u16) -> (coeffs:
    YCbCrToRgbCoefficients)
    ensures
        coeffs == coefficients_of(matrix_coefficients, colour_primaries),
{
    proof {
        lemma_fixed_coefficients();
    }
    match matrix_coefficients {
        1 => coefficients(403, -48, -120, 475),
        4 => coefficients(358, -85, -182, 456),
        5 | 6 => coefficients(359, -88, -183, 454),
        7 => coefficients(403, -58, -122, 467),
        9 | 10 => coefficients(377, -42, -146, 482),
        12 | 13 => chromaticity_derived_coefficients(colour_primaries),
        _ => coefficients(359, -88, -183, 454),
    }
}

/// The coefficients that follow from the colour primaries, in 256ths.
fn chromaticity_derived_coefficients(colour_primaries: u16) -> (coeffs: YCbCrToRgbCoefficients)
    ensures
        coeffs == (match primaries_of(colour_primaries) {
            Some(space) => derived_coefficients(space),
            None => default_coefficients(),
        }),
{
    proof {
        lemma_derived_coefficients();
        if primaries_of(colour_primaries) is Some {
            lemma_weights_of_primaries(colour_primaries);
        }
    }
    match colour_primaries {
        1 => coefficients(403, -48, -120, 475),
        4 => coefficients(359, -89, -183, 453),
        5 => coefficients(398, -48, -125, 475),
        6 | 7 => coefficients(403, -58, -122, 468),
        8 => coefficients(382, -48, -143, 477),
        9 => coefficients(377, -42, -146, 482),
        11 => coefficients(405, -46, -118, 477),
        12 => coefficients(395, -54, -131, 471),
        22 => coefficients(393, -66, -136, 463),
        _ => coefficients(359, -88, -183, 454),
    }
}

/// The coefficients of every matrix code: more Cr makes a colour redder and
/// less green, more Cb makes it bluer and less green. Codes 1 and 9 stand for
/// the weights that follow from the primaries of the same number, and codes 4
/// to 7 nearly do; code 13 derives the weights as code 12 does, and code 10
/// has those of code 9. A code that stands for no weights has those of code 6.
pub proof fn lemma_coefficients(matrix_coefficients: u16, colour_primaries: u16)
    ensures
        ({
            let coeffs = coefficients_of(matrix_coefficients, colour_primaries);
            &&& 256 < coeffs.r_cr_fp8 < 512
            &&& 256 < coeffs.b_cb_fp8 < 512
            &&& -256 < coeffs.g_cr_fp8 < 0
            &&& -256 < coeffs.g_cb_fp8 < 0
            &&& coeffs.g_cr_fp8 < coeffs.g_cb_fp8
        }),
        coefficients_of(1, colour_primaries) == coefficients_of(12, 1),
        coefficients_of(9, colour_primaries) == coefficients_of(12, 9),
        coefficients_of(10, colour_primaries) == coefficients_of(12, 9),
        near(coefficients_of(4, colour_primaries), coefficients_of(12, 4), 4),
        near(coefficients_of(5, colour_primaries), coefficients_of(12, 4), 1),
        near(coefficients_of(6, colour_primaries), coefficients_of(12, 4), 1),
        near(coefficients_of(7, colour_primaries), coefficients_of(12, 7), 1),
        coefficients_of(13, colour_primaries) == coefficients_of(12, colour_primaries),
        coefficients_of(2, colour_primaries) == coefficients_of(6, colour_primaries),
        matrix_coefficients > 13 || matrix_coefficients == 3 ==> coefficients_of(
            matrix_coefficients,
            colour_primaries,
        ) == coefficients_of(6, colour_primaries),
{
    lemma_fixed_coefficients();
    lemma_derived_coefficients();
    lemma_weights_of_primaries(1);
    lemma_weights_of_primaries(4);
    lemma_weights_of_primaries(7);
    lemma_weights_of_primaries(9);
    if primaries_of(colour_primaries) is Some {
        lemma_weights_of_primaries(colour_primaries);
    }
}

/// Whether no coefficient of one conversion is further than `distance` from
/// that of another.
pub open spec fn near(
    one: YCbCrToRgbCoefficients,
    other: YCbCrToRgbCoefficients,
    distance: int,
) -> bool {
    &&& -distance <= one.r_cr_fp8 - other.r_cr_fp8 <= distance
    &&& -distance <= one.g_cb_fp8 - other.g_cb_fp8 <= distance
    &&& -distance <= one.g_cr_fp8 - other.g_cr_fp8 <= distance
    &&& -distance <= one.b_cb_fp8 - other.b_cb_fp8 <= distance
}

/// Chroma leaves luma as it is: what Cr adds to red and takes from green, and
/// what Cb adds to blue and takes from green, cancel out when weighed by the
/// luma weights, up to half a unit for each coefficient. The red coefficient
/// is the one for which the largest Cr makes up the largest difference of red
/// and luma, and the blue one likewise.
pub proof fn lemma_chroma_keeps_luma(matrix_coefficients: u16, colour_primaries: u16)
    ensures
        match weights_of(matrix_coefficients, colour_primaries) {
            Some(LumaWeights::Fixed { red, blue }) => {
                let coeffs = coefficients_of(matrix_coefficients, colour_primaries);
                let green = 1000000 - red - blue;
                &&& -500000 <= red * coeffs.r_cr_fp8 + green * coeffs.g_cr_fp8 <= 500000
                &&& -500000 <= blue * coeffs.b_cb_fp8 + green * coeffs.g_cb_fp8 <= 500000
                &&& -500000 <= 512 * (1000000 - red) - 1000000 * coeffs.r_cr_fp8 <= 500000
                &&& -500000 <= 512 * (1000000 - blue) - 1000000 * coeffs.b_cb_fp8 <= 500000
            },
            _ => true,
        },
{
    lemma_fixed_coefficients();
    match weights_of(matrix_coefficients, colour_primaries) {
        Some(LumaWeights::Fixed { red, blue }) => {
            let coeffs = coefficients_of(matrix_coefficients, colour_primaries);
            lemma_cancels(
                red as int,
                blue as int,
                coeffs.r_cr_fp8 as int,
                coeffs.g_cb_fp8 as int,
                coeffs.g_cr_fp8 as int,
                coeffs.b_cb_fp8 as int,
            );
        },
        _ => {},
    }
}

/// The coefficients for fixed weights cancel out.
proof fn lemma_cancels(red: int, blue: int, r_cr: int, g_cb: int, g_cr: int, b_cb: int)
    by (nonlinear_arith)
    requires
        (red, blue, r_cr, g_cb, g_cr, b_cb) == (212600int, 72200int, 403int, -48int, -120int, 475int)
            || (red, blue, r_cr, g_cb, g_cr, b_cb) == (
        300000int,
        110000int,
        358int,
        -85int,
        -182int,
        456int,
        ) || (red, blue, r_cr, g_cb, g_cr, b_cb) == (
        299000int,
        114000int,
        359int,
        -88int,
        -183int,
        454int,
        ) || (red, blue, r_cr, g_cb, g_cr, b_cb) == (
        212000int,
        87000int,
        403int,
        -58int,
        -122int,
        467int,
        ) || (red, blue, r_cr, g_cb, g_cr, b_cb) == (
        262700int,
        59300int,
        377int,
        -42int,
        -146int,
        482int,
        ),
    ensures
        -500000 <= red * r_cr + (1000000 - red - blue) * g_cr <= 500000,
        -500000 <= blue * b_cb + (1000000 - red - blue) * g_cb <= 500000,
{
}

} // verus!
