//! Which samples make up a pixel of a decoded image.
#[allow(unused_imports)]
use crate::av1::{layout_of, pictured, picture_error, PictureHeader, PicturePlan, PictureRows};
use crate::laws::places::lemma_row_major;
#[allow(unused_imports)]
use crate::output::{ByteOrder, ScaleToRgb8, ScaleToU16, ScaleToU8};
#[allow(unused_imports)]
use crate::scaling::{to_rgb8, to_u16, to_u8};
#[allow(unused_imports)]
use crate::types::{AvifPixelLayout, DecodedAvifImage, HeicPixelLayout, HeicView};
#[allow(unused_imports)]
use crate::ycbcr::{converts, prepared, transform_of, PreparedYcbcrToRgb};
#[allow(unused_imports)]
use crate::yuv::avif::{avif_chroma_size, avif_image};
#[allow(unused_imports)]
use crate::yuv::heic::{converted_image, heic_image};
#[allow(unused_imports)]
use crate::yuv::image::{chroma_size, YuvImage};
use vstd::arithmetic::power2::pow2;
use vstd::prelude::*;

verus! {

/// The codes of the AV1 decoder: 0 is monochrome, 1 is 4:2:0, 2 is 4:2:2 and 3
/// is 4:4:4. There is no other.
pub proof fn lemma_av1_layouts(code: u32)
    ensures
        layout_of(code) matches Some(AvifPixelLayout::Yuv400) <==> code == 0,
        layout_of(code) matches Some(AvifPixelLayout::Yuv420) <==> code == 1,
        layout_of(code) matches Some(AvifPixelLayout::Yuv422) <==> code == 2,
        layout_of(code) matches Some(AvifPixelLayout::Yuv444) <==> code == 3,
{
}

/// Chroma planes have a sample for every one or two columns and rows, the last
/// of which may be alone: of two columns in 4:2:0 and 4:2:2, of two rows in
/// 4:2:0.
pub proof fn lemma_chroma_plane_size(width: u32, height: u32, layout: AvifPixelLayout)
    ensures
        ({
            let (across, down) = avif_chroma_size(width, height, layout);
            match layout {
                AvifPixelLayout::Yuv400 => across == 0 && down == 0,
                AvifPixelLayout::Yuv420 => {
                    &&& width <= 2 * across <= width + 1
                    &&& height <= 2 * down <= height + 1
                },
                AvifPixelLayout::Yuv422 => width <= 2 * across <= width + 1 && down == height,
                AvifPixelLayout::Yuv444 => across == width && down == height,
            }
        }),
{
    assert(chroma_size(width as int, 2) == (width + 1) / 2);
    assert(chroma_size(height as int, 2) == (height + 1) / 2);
    assert(chroma_size(width as int, 1) == width);
    assert(chroma_size(height as int, 1) == height);
}

/// A picture of the AV1 decoder is read plane by plane: the sample in column
/// `x` and row `y` of the Y, U and V planes stands in row `y` of the rows of
/// that plane, at byte `x` where samples have one byte.
pub proof fn lemma_picture_of_bytes(
    plan: PicturePlan,
    rows: PictureRows<'_>,
    order: ByteOrder,
    image: DecodedAvifImage,
    x: int,
    y: int,
)
    requires
        plan.wf(),
        plan.bit_depth <= 8,
        pictured(plan, rows, order, image),
        0 <= x,
        0 <= y,
    ensures
        image.width == plan.width && image.height == plan.height && image.bit_depth
            == plan.bit_depth && image.layout == plan.layout && image.alpha_plane is None,
        x < plan.width && y < plan.height ==> image.y_plane.samples.values()[y * plan.width + x]
            == rows.y@[y]@[x],
        plan.chroma is Some && x < plan.chroma->0.width && y < plan.chroma->0.height
            ==> image.u_plane->0.samples.values()[y * plan.chroma->0.width + x] == rows.u@[y]@[x]
            && image.v_plane->0.samples.values()[y * plan.chroma->0.width + x] == rows.v@[y]@[x],
        plan.chroma is None ==> image.u_plane is None && image.v_plane is None,
{
    if x < plan.width && y < plan.height {
        lemma_row_major(x, y, plan.width as int, plan.height as int);
    }
    if let Some(chroma) = plan.chroma {
        if x < chroma.width && y < chroma.height {
            lemma_row_major(x, y, chroma.width as int, chroma.height as int);
        }
    }
}

/// A picture with more than eight bits has two bytes for each sample: in the
/// order of little endian, the second counts 256 times as much as the first,
/// in the other order the first counts 256 times as much as the second.
pub proof fn lemma_picture_of_words(
    plan: PicturePlan,
    rows: PictureRows<'_>,
    order: ByteOrder,
    image: DecodedAvifImage,
    x: int,
    y: int,
)
    requires
        plan.wf(),
        plan.bit_depth > 8,
        pictured(plan, rows, order, image),
        0 <= x,
        0 <= y,
    ensures
        ({
            let (low, high) = if order is LittleEndian {
                (0int, 1int)
            } else {
                (1int, 0int)
            };
            &&& x < plan.width && y < plan.height ==> image.y_plane.samples.values()[y * plan.width
                + x] == rows.y@[y]@[2 * x + low] + 256 * rows.y@[y]@[2 * x + high]
            &&& plan.chroma is Some && x < plan.chroma->0.width && y < plan.chroma->0.height
                ==> image.u_plane->0.samples.values()[y * plan.chroma->0.width + x]
                == rows.u@[y]@[2 * x + low] + 256 * rows.u@[y]@[2 * x + high]
                && image.v_plane->0.samples.values()[y * plan.chroma->0.width + x]
                == rows.v@[y]@[2 * x + low] + 256 * rows.v@[y]@[2 * x + high]
        }),
{
    if x < plan.width && y < plan.height {
        lemma_row_major(x, y, plan.width as int, plan.height as int);
    }
    if let Some(chroma) = plan.chroma {
        if x < chroma.width && y < chroma.height {
            lemma_row_major(x, y, chroma.width as int, chroma.height as int);
        }
    }
}

/// A picture of one to sixteen bits, with a known layout, all planes that the
/// layout has, and rows that do not overlap, is not refused.
pub proof fn lemma_picture_accepted(header: PictureHeader)
    requires
        0 < header.width <= 65535,
        0 < header.height <= 8192,
        1 <= header.bit_depth <= 16,
        header.layout <= 3,
        header.has_y,
        header.layout > 0 ==> header.has_u && header.has_v,
        2 * header.width <= header.luma_stride <= 0x3ffff,
        2 * header.width <= header.chroma_stride <= 0x3ffff,
    ensures
        picture_error(header) is None,
{
    let (w, h) = (header.width as int, header.height as int);
    let (luma, chroma) = (header.luma_stride as int, header.chroma_stride as int);
    assert(chroma_size(w, 2) == (w + 1) / 2 && chroma_size(h, 2) == (h + 1) / 2);
    assert(chroma_size(w, 1) == w && chroma_size(h, 1) == h);
    let (half_w, half_h) = ((w + 1) / 2, (h + 1) / 2);
    assert(0 <= w * h <= 65535 * 8192 && 0 <= half_w * half_h <= 65535 * 8192 && 0 <= half_w * h
        <= 65535 * 8192) by (nonlinear_arith)
        requires
            0 < w <= 65535,
            0 < h <= 8192,
            0 <= half_w <= w,
            0 <= half_h <= h,
    ;
    assert(0 <= (h - 1) * luma <= 8191 * 0x3ffff && 0 <= (h - 1) * chroma <= 8191 * 0x3ffff && 0
        <= (half_h - 1) * chroma <= 8191 * 0x3ffff) by (nonlinear_arith)
        requires
            0 < h <= 8192,
            0 < half_h <= h,
            0 <= luma <= 0x3ffff,
            0 <= chroma <= 0x3ffff,
    ;
}

/// The colour of the pixel in column `x` and row `y` of an AVIF image comes
/// from the luma sample at that place and the chroma samples that it shares
/// with its neighbours: U as Cb, V as Cr. Where there is no chroma, both stand
/// in the middle of the range; or the luma sample of eight bits is copied.
pub proof fn lemma_avif_pixel<F: Fn(PreparedYcbcrToRgb, i32, i32, i32) -> (u16, u16, u16)>(
    decoded: DecodedAvifImage,
    copies_grey: bool,
    kernel: F,
    x: int,
    y: int,
    rgb: (u16, u16, u16),
)
    requires
        0 <= x < decoded.width,
        0 <= y < decoded.height,
        1 <= decoded.bit_depth <= 16,
        avif_image(decoded, copies_grey).rgb_is(kernel, (x, y), rgb),
    ensures
        ({
            let converter = avif_image(decoded, copies_grey).converter;
            let luma = decoded.y_plane.samples.values()[y * decoded.width + x];
            let (u, v) = (decoded.u_plane->0.samples.values(), decoded.v_plane->0.samples.values());
            let half = (decoded.width + 1) / 2;
            let at = match decoded.layout {
                AvifPixelLayout::Yuv400 => 0int,
                AvifPixelLayout::Yuv420 => (y / 2) * half + x / 2,
                AvifPixelLayout::Yuv422 => y * half + x / 2,
                AvifPixelLayout::Yuv444 => y * decoded.width + x,
            };
            &&& converter.bit_depth == decoded.bit_depth
            &&& !(decoded.layout is Yuv400) ==> converts(
                converter,
                kernel,
                luma as i32,
                u[at] as i32,
                v[at] as i32,
                rgb,
            )
            &&& decoded.layout is Yuv400 && copies_grey && decoded.bit_depth == 8 ==> {
                let grey = if luma <= 255 {
                    luma as int
                } else {
                    255
                };
                rgb.0 == grey && rgb.1 == grey && rgb.2 == grey
            }
            &&& decoded.layout is Yuv400 && !copies_grey ==> {
                let middle = pow2((decoded.bit_depth - 1) as nat) as int;
                converts(converter, kernel, luma as i32, middle as i32, middle as i32, rgb)
            }
        }),
{
    assert(chroma_size(decoded.width as int, 2) == (decoded.width + 1) / 2);
    assert(chroma_size(decoded.width as int, 1) == decoded.width);
    assert(x / 1 == x && y / 1 == y);
}

/// The colour of the pixel in column `x` and row `y` of a HEIC image comes
/// from the luma sample at that place and the chroma samples that it shares
/// with its neighbours: U as Cb, V as Cr. Where there is no chroma, both stand
/// in the middle of the range; or the luma sample of eight bits is copied.
pub proof fn lemma_heic_pixel<F: Fn(PreparedYcbcrToRgb, i32, i32, i32) -> (u16, u16, u16)>(
    decoded: HeicView,
    copies_grey: bool,
    kernel: F,
    x: int,
    y: int,
    rgb: (u16, u16, u16),
)
    requires
        0 <= x < decoded.width,
        0 <= y < decoded.height,
        1 <= decoded.bit_depth_luma <= 16,
        converted_image(decoded, copies_grey).rgb_is(kernel, (x, y), rgb),
    ensures
        ({
            let converter = converted_image(decoded, copies_grey).converter;
            let luma = decoded.y_plane.samples[y * decoded.width + x];
            let (u, v) = (decoded.u_plane->0.samples, decoded.v_plane->0.samples);
            let half = (decoded.width + 1) / 2;
            let at = match decoded.layout {
                HeicPixelLayout::Yuv400 => 0int,
                HeicPixelLayout::Yuv420 => (y / 2) * half + x / 2,
                HeicPixelLayout::Yuv422 => y * half + x / 2,
                HeicPixelLayout::Yuv444 => y * decoded.width + x,
            };
            &&& converter.bit_depth == decoded.bit_depth_luma
            &&& !(decoded.layout is Yuv400) ==> converts(
                converter,
                kernel,
                luma as i32,
                u[at] as i32,
                v[at] as i32,
                rgb,
            )
            &&& decoded.layout is Yuv400 && copies_grey && decoded.bit_depth_luma == 8 && luma
                <= 255 ==> rgb.0 == luma && rgb.1 == luma && rgb.2 == luma
            &&& decoded.layout is Yuv400 && !copies_grey ==> {
                let middle = pow2((decoded.bit_depth_luma - 1) as nat) as int;
                converts(converter, kernel, luma as i32, middle as i32, middle as i32, rgb)
            }
        }),
{
    assert(chroma_size(decoded.width as int, 2) == (decoded.width + 1) / 2);
    assert(chroma_size(decoded.width as int, 1) == decoded.width);
    assert(x / 1 == x && y / 1 == y);
}

/// An image is converted as it says of itself: with its own bit depth, its own
/// range and its own matrix, and in whole numbers only in 4:2:0.
pub proof fn lemma_conversion_of_image(avif: DecodedAvifImage, heic: HeicView, copies_grey: bool)
    requires
        transform_of(avif.ycbcr_matrix) is Ok,
        transform_of(heic.ycbcr_matrix) is Ok,
    ensures
        avif_image(avif, copies_grey).converter == prepared(
            avif.bit_depth,
            avif.ycbcr_range,
            transform_of(avif.ycbcr_matrix)->Ok_0,
            avif.layout == AvifPixelLayout::Yuv420,
        ),
        converted_image(heic, copies_grey).converter == prepared(
            heic.bit_depth_luma,
            heic.ycbcr_range,
            transform_of(heic.ycbcr_matrix)->Ok_0,
            heic.layout == HeicPixelLayout::Yuv420,
        ),
        heic_image(heic, None).converter == converted_image(heic, copies_grey).converter,
{
}

/// A pixel is shown as red, green and blue in that order, each scaled from the
/// bit depth of the conversion, and then its opacity: scaled from its own bit
/// depth, and full where the image has none.
pub proof fn lemma_shown_pixel<F: Fn(PreparedYcbcrToRgb, i32, i32, i32) -> (u16, u16, u16)>(
    image: YuvImage,
    kernel: F,
    x: int,
    y: int,
    eight: Seq<u8>,
    sixteen: Seq<u16>,
    start: int,
)
    ensures
        image.shows::<u8, ScaleToU8, F>(kernel, (x, y), 4, eight, start) ==> exists|
            rgb: (u16, u16, u16),
        |
            #[trigger] image.rgb_is(kernel, (x, y), rgb) && eight[start] == to_u8(
                rgb.0,
                image.converter.bit_depth,
            ) && eight[start + 1] == to_u8(rgb.1, image.converter.bit_depth) && eight[start + 2]
                == to_u8(rgb.2, image.converter.bit_depth),
        image.shows::<u8, ScaleToU8, F>(kernel, (x, y), 4, eight, start) ==> match image.opacity {
            None => eight[start + 3] == 255,
            Some(opacity) => eight[start + 3] == to_u8(
                opacity.samples[y * image.width + x],
                opacity.bit_depth,
            ),
        },
        image.shows::<u16, ScaleToU16, F>(kernel, (x, y), 4, sixteen, start) ==> exists|
            rgb: (u16, u16, u16),
        |
            #[trigger] image.rgb_is(kernel, (x, y), rgb) && sixteen[start] == to_u16(
                rgb.0,
                image.converter.bit_depth,
            ) && sixteen[start + 1] == to_u16(rgb.1, image.converter.bit_depth) && sixteen[start
                + 2] == to_u16(rgb.2, image.converter.bit_depth),
        image.shows::<u16, ScaleToU16, F>(kernel, (x, y), 4, sixteen, start) ==> match image.opacity {
            None => sixteen[start + 3] == 65535,
            Some(opacity) => sixteen[start + 3] == to_u16(
                opacity.samples[y * image.width + x],
                opacity.bit_depth,
            ),
        },
        image.shows::<u8, ScaleToRgb8, F>(kernel, (x, y), 3, eight, start) ==> exists|
            rgb: (u16, u16, u16),
        |
            #[trigger] image.rgb_is(kernel, (x, y), rgb) && eight[start] == to_rgb8(
                rgb.0,
                image.converter.bit_depth,
            ) && eight[start + 1] == to_rgb8(rgb.1, image.converter.bit_depth) && eight[start + 2]
                == to_rgb8(rgb.2, image.converter.bit_depth),
{
}

} // verus!
