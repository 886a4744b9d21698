//! Pictures of the AV1 decoder as decoded AVIF images.
use crate::errors::DecodeAvifError;
#[allow(unused_imports)]
use crate::output::{machine_order, two_bytes};
use crate::output::{native_byte_order, ByteOrder};
#[allow(unused_imports)]
use crate::transform::pixels::{index_of, lemma_index_of, place_of};
use crate::types::{
    AvifPixelLayout, AvifPlane, AvifPlaneSamples, DecodedAvifImage, YCbCrMatrixCoefficients,
    YCbCrRange,
};
#[allow(unused_imports)]
use crate::types::unspecified_matrix;
use crate::yuv::avif::chroma_dimensions;
#[allow(unused_imports)]
use crate::yuv::avif::{avif_chroma_size, first_avif};
use vstd::prelude::*;

verus! {

/// The decoder's codes for the layout of a picture.
pub const PIXEL_LAYOUT_I400: u32 = 0;

pub const PIXEL_LAYOUT_I420: u32 = 1;

pub const PIXEL_LAYOUT_I422: u32 = 2;

pub const PIXEL_LAYOUT_I444: u32 = 3;

/// What the decoder says of a picture.
#[derive(Clone, Copy, Debug, PartialEq, Eq, Structural)]
pub struct PictureHeader {
    pub width: i32,
    pub height: i32,
    pub bit_depth: i32,
    pub layout: u32,
    pub has_y: bool,
    pub has_u: bool,
    pub has_v: bool,
    /// The distance in bytes from one row to the next.
    pub luma_stride: isize,
    pub chroma_stride: isize,
}

/// How a plane is read, row by row.
#[derive(Clone, Copy, Debug, PartialEq, Eq, Structural)]
pub struct PlaneCopy {
    pub width: u32,
    pub height: u32,
    pub row_bytes: usize,
    pub stride: isize,
}

impl PlaneCopy {
    /// Rows do not overlap, and every row starts at an offset that can be
    /// written down.
    pub open spec fn wf(self, bytes_per_sample: usize) -> bool {
        &&& self.row_bytes == self.width * bytes_per_sample
        &&& self.width * self.height <= usize::MAX
        &&& self.stride >= self.row_bytes || -(self.stride as int) >= self.row_bytes
        &&& forall|row: int|
            0 <= row < self.height ==> isize::MIN <= #[trigger] (row * self.stride) <= isize::MAX
    }
}

/// How a picture is read.
#[derive(Clone, Copy, Debug, PartialEq, Eq, Structural)]
pub struct PicturePlan {
    pub width: u32,
    pub height: u32,
    pub bit_depth: u8,
    pub bytes_per_sample: usize,
    pub layout: AvifPixelLayout,
    pub luma: PlaneCopy,
    /// How each of the chroma planes is read, where there are any.
    pub chroma: Option<PlaneCopy>,
}

impl PicturePlan {
    /// The planes can be read, and there are as many as the layout has.
    pub open spec fn wf(self) -> bool {
        &&& self.bytes_per_sample == if self.bit_depth <= 8 {
            1usize
        } else {
            2
        }
        &&& 1 <= self.bit_depth <= 16
        &&& self.luma.wf(self.bytes_per_sample)
        &&& self.luma.width == self.width
        &&& self.luma.height == self.height
        &&& self.chroma is None == self.layout is Yuv400
        &&& self.chroma matches Some(chroma) ==> {
            &&& chroma.wf(self.bytes_per_sample)
            &&& (chroma.width as int, chroma.height as int) == avif_chroma_size(
                self.width,
                self.height,
                self.layout,
            )
        }
    }
}

/// The layout that a code stands for.
pub open spec fn layout_of(code: u32) -> Option<AvifPixelLayout> {
    if code == PIXEL_LAYOUT_I400 {
        Some(AvifPixelLayout::Yuv400)
    } else if code == PIXEL_LAYOUT_I420 {
        Some(AvifPixelLayout::Yuv420)
    } else if code == PIXEL_LAYOUT_I422 {
        Some(AvifPixelLayout::Yuv422)
    } else if code == PIXEL_LAYOUT_I444 {
        Some(AvifPixelLayout::Yuv444)
    } else {
        None
    }
}

/// The layout that a code of the decoder stands for.
pub fn decode_layout_from_dav1d(layout: u32) -> (result: Result<AvifPixelLayout, DecodeAvifError>)
    ensures
        match layout_of(layout) {
            Some(known) => result == Ok::<AvifPixelLayout, DecodeAvifError>(known),
            None => result == Err::<AvifPixelLayout, DecodeAvifError>(
                DecodeAvifError::UnsupportedPixelLayout { layout },
            ),
        },
{
    if layout == PIXEL_LAYOUT_I400 {
        Ok(AvifPixelLayout::Yuv400)
    } else if layout == PIXEL_LAYOUT_I420 {
        Ok(AvifPixelLayout::Yuv420)
    } else if layout == PIXEL_LAYOUT_I422 {
        Ok(AvifPixelLayout::Yuv422)
    } else if layout == PIXEL_LAYOUT_I444 {
        Ok(AvifPixelLayout::Yuv444)
    } else {
        Err(DecodeAvifError::UnsupportedPixelLayout { layout })
    }
}

/// The size of a number without its sign.
pub open spec fn magnitude(value: isize) -> int {
    if value >= 0 {
        value as int
    } else {
        -(value as int)
    }
}

/// Why a plane cannot be read, if it cannot.
pub open spec fn copy_error(
    stride: isize,
    width: int,
    height: int,
    bytes_per_sample: int,
    plane: &'static str,
) -> Option<DecodeAvifError> {
    let overflow = Some(
        DecodeAvifError::PlaneSizeOverflow {
            plane,
            width: width as u32,
            height: height as u32,
        },
    );
    if width * bytes_per_sample > usize::MAX {
        overflow
    } else if magnitude(stride) < width * bytes_per_sample {
        Some(
            DecodeAvifError::PlaneStrideTooSmall {
                plane,
                stride,
                required: (width * bytes_per_sample) as usize,
            },
        )
    } else if width * height > usize::MAX {
        overflow
    } else if height > 0 && !(isize::MIN <= (height - 1) * stride <= isize::MAX) {
        Some(DecodeAvifError::PlaneStrideOverflow { plane, stride })
    } else {
        None
    }
}

/// How a plane is read.
fn plan_copy(
    stride: isize,
    width: u32,
    height: u32,
    bytes_per_sample: usize,
    plane: &'static str,
) -> (result: Result<PlaneCopy, DecodeAvifError>)
    requires
        1 <= bytes_per_sample <= 2,
        height <= i32::MAX,
    ensures
        match copy_error(stride, width as int, height as int, bytes_per_sample as int, plane) {
            Some(e) => result == Err::<PlaneCopy, DecodeAvifError>(e),
            None => {
                &&& result is Ok
                &&& result->Ok_0.wf(bytes_per_sample)
                &&& result->Ok_0.width == width
                &&& result->Ok_0.height == height
                &&& result->Ok_0.stride == stride
            },
        },
{
    proof {
        assert(0 <= width * bytes_per_sample) by (nonlinear_arith);
        assert(0 <= width * height) by (nonlinear_arith);
    }
    let row_bytes: usize = match (width as usize).checked_mul(bytes_per_sample) {
        None => {
            return Err(DecodeAvifError::PlaneSizeOverflow { plane, width, height });
        },
        Some(bytes) => bytes,
    };
    let stride_abs: usize = if stride >= 0 {
        stride as usize
    } else {
        (-(stride + 1)) as usize + 1
    };
    if stride_abs < row_bytes {
        return Err(DecodeAvifError::PlaneStrideTooSmall { plane, stride, required: row_bytes });
    }
    match (width as usize).checked_mul(height as usize) {
        None => {
            return Err(DecodeAvifError::PlaneSizeOverflow { plane, width, height });
        },
        Some(_) => {},
    }
    if height > 0 {
        let last: isize = (height - 1) as isize;
        match last.checked_mul(stride) {
            None => {
                return Err(DecodeAvifError::PlaneStrideOverflow { plane, stride });
            },
            Some(_) => {},
        }
        proof {
            assert forall|row: int| 0 <= row < height implies isize::MIN <= #[trigger] (row
                * stride) <= isize::MAX by {
                let end = height - 1;
                assert(stride >= 0 ==> 0 <= row * stride <= end * stride) by (nonlinear_arith)
                    requires
                        0 <= row <= end,
                ;
                assert(stride < 0 ==> end * stride <= row * stride <= 0) by (nonlinear_arith)
                    requires
                        0 <= row <= end,
                ;
            }
        }
    }
    Ok(PlaneCopy { width, height, row_bytes, stride })
}

/// Why a picture cannot be read, if it cannot.
pub open spec fn picture_error(header: PictureHeader) -> Option<DecodeAvifError> {
    if header.width <= 0 || header.height <= 0 {
        Some(
            DecodeAvifError::InvalidImageGeometry { width: header.width, height: header.height },
        )
    } else if header.bit_depth <= 0 || header.bit_depth > 16 {
        Some(DecodeAvifError::UnsupportedBitDepth { bit_depth: header.bit_depth })
    } else {
        match layout_of(header.layout) {
            None => Some(DecodeAvifError::UnsupportedPixelLayout { layout: header.layout }),
            Some(layout) => {
                let bytes = if header.bit_depth <= 8 {
                    1int
                } else {
                    2
                };
                let chroma = avif_chroma_size(header.width as u32, header.height as u32, layout);
                if !header.has_y {
                    Some(DecodeAvifError::MissingPlane { plane: "Y", layout })
                } else {
                    first_avif(
                        copy_error(
                            header.luma_stride,
                            header.width as int,
                            header.height as int,
                            bytes,
                            "Y",
                        ),
                        if layout is Yuv400 {
                            None
                        } else if !header.has_u {
                            Some(DecodeAvifError::MissingPlane { plane: "U", layout })
                        } else if !header.has_v {
                            Some(DecodeAvifError::MissingPlane { plane: "V", layout })
                        } else {
                            copy_error(header.chroma_stride, chroma.0, chroma.1, bytes, "U")
                        },
                    )
                }
            },
        }
    }
}

/// How a picture is read.
pub fn plan_picture(header: PictureHeader) -> (result: Result<PicturePlan, DecodeAvifError>)
    ensures
        match picture_error(header) {
            Some(e) => result == Err::<PicturePlan, DecodeAvifError>(e),
            None => {
                &&& result is Ok
                &&& result->Ok_0.wf()
                &&& result->Ok_0.width == header.width
                &&& result->Ok_0.height == header.height
                &&& result->Ok_0.bit_depth == header.bit_depth
                &&& Some(result->Ok_0.layout) == layout_of(header.layout)
                &&& result->Ok_0.luma.stride == header.luma_stride
                &&& result->Ok_0.chroma matches Some(chroma) ==> chroma.stride
                    == header.chroma_stride
            },
        },
{
    if header.width <= 0 || header.height <= 0 {
        return Err(
            DecodeAvifError::InvalidImageGeometry { width: header.width, height: header.height },
        );
    }
    let width: u32 = header.width as u32;
    let height: u32 = header.height as u32;
    if header.bit_depth <= 0 || header.bit_depth > 16 {
        return Err(DecodeAvifError::UnsupportedBitDepth { bit_depth: header.bit_depth });
    }
    let bit_depth: u8 = header.bit_depth as u8;
    let bytes_per_sample: usize = if bit_depth <= 8 {
        1
    } else {
        2
    };
    let layout: AvifPixelLayout = decode_layout_from_dav1d(header.layout)?;
    if !header.has_y {
        return Err(DecodeAvifError::MissingPlane { plane: "Y", layout });
    }
    let luma: PlaneCopy = plan_copy(header.luma_stride, width, height, bytes_per_sample, "Y")?;
    let chroma: Option<PlaneCopy> = match layout {
        AvifPixelLayout::Yuv400 => None,
        _ => {
            let (chroma_width, chroma_height): (u32, u32) = chroma_dimensions(
                width,
                height,
                layout,
            );
            proof {
                assert((height + 1) / 2 <= height && height as int / 1 <= height);
            }
            if !header.has_u {
                return Err(DecodeAvifError::MissingPlane { plane: "U", layout });
            }
            if !header.has_v {
                return Err(DecodeAvifError::MissingPlane { plane: "V", layout });
            }
            Some(
                plan_copy(
                    header.chroma_stride,
                    chroma_width,
                    chroma_height,
                    bytes_per_sample,
                    "U",
                )?,
            )
        },
    };
    Ok(PicturePlan { width, height, bit_depth, bytes_per_sample, layout, luma, chroma })
}

/// Whether the rows of a plane are those that its copy asks for.
pub open spec fn rows_fit(rows: Seq<&[u8]>, copy: PlaneCopy) -> bool {
    &&& rows.len() == copy.height
    &&& forall|row: int|
        0 <= row < rows.len() ==> (#[trigger] rows[row])@.len() == copy.row_bytes
}

/// The sample at a place of the rows of a plane.
pub open spec fn row_sample(
    rows: Seq<&[u8]>,
    bytes_per_sample: usize,
    order: ByteOrder,
    place: (int, int),
) -> u16 {
    let row = rows[place.1]@;
    if bytes_per_sample == 1 {
        row[place.0] as u16
    } else {
        two_bytes(order, row[2 * place.0], row[2 * place.0 + 1])
    }
}

/// Whether samples are those of the rows of a plane.
pub open spec fn copied(
    rows: Seq<&[u8]>,
    copy: PlaneCopy,
    bytes_per_sample: usize,
    order: ByteOrder,
    samples: AvifPlaneSamples,
) -> bool {
    &&& samples is U8 == (bytes_per_sample == 1)
    &&& samples.values().len() == copy.width * copy.height
    &&& forall|k: int|
        0 <= k < copy.width * copy.height ==> #[trigger] samples.values()[k] == row_sample(
            rows,
            bytes_per_sample,
            order,
            place_of(k, copy.width as int),
        )
}

/// Copies the samples of a plane.
pub fn copy_plane_samples(
    rows: &[&[u8]],
    copy: PlaneCopy,
    bytes_per_sample: usize,
    order: ByteOrder,
) -> (samples: AvifPlaneSamples)
    requires
        1 <= bytes_per_sample <= 2,
        copy.wf(bytes_per_sample),
        rows_fit(rows@, copy),
    ensures
        copied(rows@, copy, bytes_per_sample, order, samples),
{
    let width: usize = copy.width as usize;
    let height: usize = copy.height as usize;
    proof {
        assert(bytes_per_sample == 1 ==> copy.width * bytes_per_sample == copy.width)
            by (nonlinear_arith);
        assert(bytes_per_sample == 2 ==> copy.width * bytes_per_sample == 2 * copy.width)
            by (nonlinear_arith);
    }
    let mut narrow: Vec<u8> = Vec::new();
    let mut wide: Vec<u16> = Vec::new();
    let mut y: usize = 0;
    while y < height
        invariant
            y <= height,
            width == copy.width,
            height == copy.height,
            1 <= bytes_per_sample <= 2,
            copy.wf(bytes_per_sample),
            rows_fit(rows@, copy),
            copy.row_bytes == if bytes_per_sample == 1 {
                width as int
            } else {
                2 * width
            },
            bytes_per_sample == 1 ==> narrow@.len() == y * width && wide@.len() == 0,
            bytes_per_sample == 2 ==> wide@.len() == y * width && narrow@.len() == 0,
            forall|k: int|
                0 <= k < narrow@.len() ==> #[trigger] narrow@[k] as u16 == row_sample(
                    rows@,
                    bytes_per_sample,
                    order,
                    place_of(k, width as int),
                ),
            forall|k: int|
                0 <= k < wide@.len() ==> #[trigger] wide@[k] == row_sample(
                    rows@,
                    bytes_per_sample,
                    order,
                    place_of(k, width as int),
                ),
        decreases height - y,
    {
        let row: &[u8] = rows[y];
        let mut x: usize = 0;
        while x < width
            invariant
                x <= width,
                y < height,
                width == copy.width,
                height == copy.height,
                1 <= bytes_per_sample <= 2,
                copy.wf(bytes_per_sample),
                row@ == rows@[y as int]@,
                row@.len() == copy.row_bytes,
                y < rows@.len(),
                copy.row_bytes == if bytes_per_sample == 1 {
                    width as int
                } else {
                    2 * width
                },
                bytes_per_sample == 1 ==> narrow@.len() == y * width + x && wide@.len() == 0,
                bytes_per_sample == 2 ==> wide@.len() == y * width + x && narrow@.len() == 0,
                forall|k: int|
                    0 <= k < narrow@.len() ==> #[trigger] narrow@[k] as u16 == row_sample(
                        rows@,
                        bytes_per_sample,
                        order,
                        place_of(k, width as int),
                    ),
                forall|k: int|
                    0 <= k < wide@.len() ==> #[trigger] wide@[k] == row_sample(
                        rows@,
                        bytes_per_sample,
                        order,
                        place_of(k, width as int),
                    ),
            decreases width - x,
        {
            proof {
                lemma_index_of((x as int, y as int), width as int, height as int);
                assert(y * width + x == index_of((x as int, y as int), width as int));
            }
            if bytes_per_sample == 1 {
                narrow.push(row[x]);
            } else {
                let first: u16 = row[2 * x] as u16;
                let second: u16 = row[2 * x + 1] as u16;
                let sample: u16 = match order {
                    ByteOrder::LittleEndian => first + 256 * second,
                    ByteOrder::BigEndian => 256 * first + second,
                };
                wide.push(sample);
            }
            x = x + 1;
        }
        proof {
            assert(y * width + width == (y + 1) * width) by (nonlinear_arith);
        }
        y = y + 1;
    }
    proof {
        assert(height * width == width * height) by (nonlinear_arith);
    }
    if bytes_per_sample == 1 {
        AvifPlaneSamples::U8(narrow)
    } else {
        AvifPlaneSamples::U16(wide)
    }
}

/// The rows of the planes of a picture.
pub struct PictureRows<'a> {
    pub y: Vec<&'a [u8]>,
    pub u: Vec<&'a [u8]>,
    pub v: Vec<&'a [u8]>,
}

impl<'a> PictureRows<'a> {
    /// Whether the rows are those that a plan asks for.
    pub open spec fn fit(&self, plan: PicturePlan) -> bool {
        &&& rows_fit(self.y@, plan.luma)
        &&& plan.chroma matches Some(chroma) ==> rows_fit(self.u@, chroma) && rows_fit(
            self.v@,
            chroma,
        )
    }
}

/// Whether an image is the picture that rows of samples make up.
pub open spec fn pictured(
    plan: PicturePlan,
    rows: PictureRows<'_>,
    order: ByteOrder,
    image: DecodedAvifImage,
) -> bool {
    &&& image.width == plan.width
    &&& image.height == plan.height
    &&& image.bit_depth == plan.bit_depth
    &&& image.layout == plan.layout
    &&& image.ycbcr_range is Full
    &&& image.ycbcr_matrix == unspecified_matrix()
    &&& image.alpha_plane is None
    &&& image.y_plane.width == plan.width
    &&& image.y_plane.height == plan.height
    &&& copied(rows.y@, plan.luma, plan.bytes_per_sample, order, image.y_plane.samples)
    &&& match plan.chroma {
        None => image.u_plane is None && image.v_plane is None,
        Some(chroma) => {
            &&& image.u_plane matches Some(u)
            &&& image.v_plane matches Some(v)
            &&& u.width == chroma.width
            &&& u.height == chroma.height
            &&& v.width == chroma.width
            &&& v.height == chroma.height
            &&& copied(rows.u@, chroma, plan.bytes_per_sample, order, u.samples)
            &&& copied(rows.v@, chroma, plan.bytes_per_sample, order, v.samples)
        },
    }
}

/// The image that the rows of a picture make up, for some order of the bytes
/// of a sample.
pub fn picture_rows_to_image(plan: PicturePlan, rows: &PictureRows<'_>, order: ByteOrder) -> (image:
    DecodedAvifImage)
    requires
        plan.wf(),
        rows.fit(plan),
    ensures
        pictured(plan, *rows, order, image),
{
    let y_plane: AvifPlane = AvifPlane {
        width: plan.width,
        height: plan.height,
        samples: copy_plane_samples(
            rows.y.as_slice(),
            plan.luma,
            plan.bytes_per_sample,
            order,
        ),
    };
    let (u_plane, v_plane): (Option<AvifPlane>, Option<AvifPlane>) = match plan.chroma {
        None => (None, None),
        Some(chroma) => {
            let u: AvifPlaneSamples = copy_plane_samples(
                rows.u.as_slice(),
                chroma,
                plan.bytes_per_sample,
                order,
            );
            let v: AvifPlaneSamples = copy_plane_samples(
                rows.v.as_slice(),
                chroma,
                plan.bytes_per_sample,
                order,
            );
            (
                Some(AvifPlane { width: chroma.width, height: chroma.height, samples: u }),
                Some(AvifPlane { width: chroma.width, height: chroma.height, samples: v }),
            )
        },
    };
    DecodedAvifImage {
        width: plan.width,
        height: plan.height,
        bit_depth: plan.bit_depth,
        layout: plan.layout,
        ycbcr_range: YCbCrRange::Full,
        ycbcr_matrix: YCbCrMatrixCoefficients::default(),
        y_plane,
        u_plane,
        v_plane,
        alpha_plane: None,
    }
}

/// The image that the rows of a picture make up. The bytes of a sample stand
/// in the order of the machine.
pub fn picture_to_internal_image(plan: PicturePlan, rows: &PictureRows<'_>) -> (image:
    DecodedAvifImage)
    requires
        plan.wf(),
        rows.fit(plan),
    ensures
        pictured(plan, *rows, machine_order(), image),
{
    picture_rows_to_image(plan, rows, native_byte_order())
}

/// How often a decoder is asked for a picture.
pub const PICTURE_ATTEMPTS: u32 = 16;

/// Refuses a call of the decoder that failed.
pub fn ensure_dav1d_ok(stage: &'static str, code: i32) -> (result: Result<(), DecodeAvifError>)
    ensures
        if code == 0 {
            result is Ok
        } else {
            result == Err::<(), DecodeAvifError>(DecodeAvifError::DecoderApi { stage, code })
        },
{
    if code == 0 {
        Ok(())
    } else {
        Err(DecodeAvifError::DecoderApi { stage, code })
    }
}

/// What to do when a decoder was asked for a picture.
#[derive(Clone, Copy, Debug, PartialEq, Eq)]
pub enum PictureStep {
    /// The picture is there.
    Take,
    /// The decoder is asked again.
    AskAgain,
}

/// What to do when a decoder was asked for a picture, by the code that it
/// answered with. `attempt` counts from zero.
pub fn after_picture_request(attempt: u32, code: i32, try_again: i32) -> (step: Result<
    PictureStep,
    DecodeAvifError,
>)
    ensures
        step == (if code == 0 {
            Ok::<PictureStep, DecodeAvifError>(PictureStep::Take)
        } else if code != try_again {
            Err(DecodeAvifError::DecoderApi { stage: "dav1d_get_picture", code })
        } else if attempt + 1 >= PICTURE_ATTEMPTS {
            Err(DecodeAvifError::DecoderNoFrameOutput)
        } else {
            Ok(PictureStep::AskAgain)
        }),
{
    if code == 0 {
        return Ok(PictureStep::Take);
    }
    if code != try_again {
        return Err(DecodeAvifError::DecoderApi { stage: "dav1d_get_picture", code });
    }
    if attempt >= PICTURE_ATTEMPTS - 1 {
        return Err(DecodeAvifError::DecoderNoFrameOutput);
    }
    Ok(PictureStep::AskAgain)
}

/// The bit depth that a sequence header codes.
pub fn coded_bit_depth(high_bit_depth: u8) -> (bits: u8)
    ensures
        bits == (match high_bit_depth {
            0u8 => 8u8,
            1u8 => 10,
            _ => 12,
        }),
{
    match high_bit_depth {
        0 => 8,
        1 => 10,
        _ => 12,
    }
}

} // verus!
