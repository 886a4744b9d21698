//! Cropping the planes of HEIC images.
#[allow(unused_imports)]
use super::heic::{
    chroma_dimensions, chroma_presence_error, heic_image, plane_size_error, shared_chroma,
};
use super::heic::{
    heic_chroma_subsampling, require_heic_chroma_planes, shared_size,
    validate_heic_plane_dimensions,
};
#[allow(unused_imports)]
use super::image::{chroma_size, lemma_chroma_place};
use crate::errors::{invalid_frame, DecodeHeicError, FrameFault};
#[allow(unused_imports)]
use crate::errors::{bad_frame, first};
use crate::text::{Arg, Detail};
#[allow(unused_imports)]
use crate::transform::aperture::crop_bounds;
use crate::transform::aperture::{
    clean_aperture_crop_bounds, CleanApertureCropBounds, ImageCleanApertureProperty,
};
use crate::transform::mapping::{is_identity_rotation, PrimaryItemTransformProperty};
#[allow(unused_imports)]
use crate::transform::mapping::{inside, lemma_crop_within, place_before, transforms_wf};
#[allow(unused_imports)]
use crate::transform::pixels::{index_of, lemma_index_of};
use crate::types::{DecodedHeicImage, HeicPixelLayout, HeicPlane};
#[allow(unused_imports)]
use crate::types::{HeicView, PlaneView};
#[allow(unused_imports)]
use crate::ycbcr::PreparedYcbcrToRgb;
use vstd::prelude::*;
use vstd::slice::slice_subrange;

verus! {

/// Where a row of a crop begins in the samples of a plane.
pub open spec fn row_start(stride: int, left: int, top: int, row: int) -> int {
    (top + row) * stride + left
}

/// The samples of a crop.
pub open spec fn cropped_samples(
    source: Seq<u16>,
    stride: int,
    left: int,
    top: int,
    width: int,
    height: int,
) -> Seq<u16> {
    Seq::new(
        (width * height) as nat,
        |k: int| source[row_start(stride, left, top, k / width) + k % width],
    )
}

/// Why a row of a crop cannot be had, if it cannot.
pub open spec fn row_error(
    available: int,
    stride: int,
    left: int,
    top: int,
    width: int,
    plane: &'static str,
    row: int,
) -> Option<DecodeHeicError> {
    let start = row_start(stride, left, top, row);
    if top + row > usize::MAX {
        Some(
            bad_frame(
                Detail::Three(
                    "{} plane row index overflow: crop_top={}, row={}",
                    Arg::Word(plane),
                    Arg::Num(top as i128),
                    Arg::Num(row as i128),
                ),
            ),
        )
    } else if start > usize::MAX {
        Some(
            bad_frame(
                Detail::Four(
                    "{} plane source index overflow at row {} (stride={}, crop_left={})",
                    Arg::Word(plane),
                    Arg::Num(row as i128),
                    Arg::Num(stride as i128),
                    Arg::Num(left as i128),
                ),
            ),
        )
    } else if start + width > usize::MAX {
        Some(
            bad_frame(
                Detail::Four(
                    "{} plane source row end overflow at row {} (start={}, width={})",
                    Arg::Word(plane),
                    Arg::Num(row as i128),
                    Arg::Num(start as i128),
                    Arg::Num(width as i128),
                ),
            ),
        )
    } else if start + width > available {
        Some(
            bad_frame(
                Detail::Four(
                    "{} plane row {} exceeds decoded buffer: end={}, available={}",
                    Arg::Word(plane),
                    Arg::Num(row as i128),
                    Arg::Num((start + width) as i128),
                    Arg::Num(available as i128),
                ),
            ),
        )
    } else {
        None
    }
}

/// The first of `count` rows of a crop that cannot be had: why.
pub open spec fn rows_error(
    available: int,
    stride: int,
    left: int,
    top: int,
    width: int,
    plane: &'static str,
    count: nat,
) -> Option<DecodeHeicError>
    decreases count,
{
    if count == 0 {
        None
    } else {
        first(
            rows_error(available, stride, left, top, width, plane, (count - 1) as nat),
            row_error(available, stride, left, top, width, plane, count - 1),
        )
    }
}

/// Where a row cannot be had, no later row counts.
proof fn lemma_rows_error(
    available: int,
    stride: int,
    left: int,
    top: int,
    width: int,
    plane: &'static str,
    few: nat,
    many: nat,
)
    requires
        few <= many,
        rows_error(available, stride, left, top, width, plane, few) is Some,
    ensures
        rows_error(available, stride, left, top, width, plane, many) == rows_error(
            available,
            stride,
            left,
            top,
            width,
            plane,
            few,
        ),
    decreases many - few,
{
    if few < many {
        lemma_rows_error(available, stride, left, top, width, plane, few, (many - 1) as nat);
    }
}

/// Why a crop of a plane cannot be had, if it cannot.
pub open spec fn extract_error(
    available: int,
    stride: int,
    left: int,
    top: int,
    width: int,
    height: int,
    plane: &'static str,
) -> Option<DecodeHeicError> {
    if left + width > usize::MAX {
        Some(
            bad_frame(
                Detail::Three(
                    "{} plane row bound overflows: crop_left={}, width={}",
                    Arg::Word(plane),
                    Arg::Num(left as i128),
                    Arg::Num(width as i128),
                ),
            ),
        )
    } else if left + width > stride {
        Some(
            bad_frame(
                Detail::Three(
                    "{} plane stride {} smaller than crop+width bound {}",
                    Arg::Word(plane),
                    Arg::Num(stride as i128),
                    Arg::Num((left + width) as i128),
                ),
            ),
        )
    } else if width * height > usize::MAX {
        Some(
            bad_frame(
                Detail::Three(
                    "{} plane sample count overflow for {}x{}",
                    Arg::Word(plane),
                    Arg::Num(width as i128),
                    Arg::Num(height as i128),
                ),
            ),
        )
    } else {
        rows_error(available, stride, left, top, width, plane, height as nat)
    }
}

/// One more row of a crop.
proof fn lemma_one_more_row(
    source: Seq<u16>,
    stride: int,
    left: int,
    top: int,
    width: int,
    row: int,
    before: Seq<u16>,
)
    requires
        0 <= width,
        0 <= row,
        0 <= row_start(stride, left, top, row),
        row_start(stride, left, top, row) + width <= source.len(),
        before == cropped_samples(source, stride, left, top, width, row),
    ensures
        before + source.subrange(
            row_start(stride, left, top, row),
            row_start(stride, left, top, row) + width,
        ) == cropped_samples(source, stride, left, top, width, row + 1),
{
    let start = row_start(stride, left, top, row);
    let after = before + source.subrange(start, start + width);
    let expected = cropped_samples(source, stride, left, top, width, row + 1);
    assert(width * (row + 1) == width * row + width) by (nonlinear_arith);
    assert(0 <= width * row) by (nonlinear_arith)
        requires
            0 <= width,
            0 <= row,
    ;
    vstd::arithmetic::mul::lemma_mul_is_commutative(width, row);
    assert forall|k: int| 0 <= k < after.len() implies after[k] == expected[k] by {
        if k >= width * row {
            vstd::arithmetic::div_mod::lemma_fundamental_div_mod_converse(
                k,
                width,
                row,
                k - width * row,
            );
        }
    }
    assert(after =~= expected);
}

/// Takes a crop out of the samples of a plane.
pub fn extract_cropped_heic_plane(
    source: &[u16],
    stride: usize,
    crop_left: u32,
    crop_top: u32,
    width: u32,
    height: u32,
    plane: &'static str,
) -> (result: Result<HeicPlane, DecodeHeicError>)
    ensures
        match extract_error(
            source@.len() as int,
            stride as int,
            crop_left as int,
            crop_top as int,
            width as int,
            height as int,
            plane,
        ) {
            Some(e) => result == Err::<HeicPlane, DecodeHeicError>(e),
            None => {
                &&& result is Ok
                &&& result->Ok_0@ == (PlaneView {
                    width,
                    height,
                    samples: cropped_samples(
                        source@,
                        stride as int,
                        crop_left as int,
                        crop_top as int,
                        width as int,
                        height as int,
                    ),
                })
            },
        },
{
    let row_width: usize = width as usize;
    let rows: usize = height as usize;
    let left: usize = crop_left as usize;
    let top: usize = crop_top as usize;
    let row_end: usize = match left.checked_add(row_width) {
        Some(end) => end,
        None => {
            return invalid_frame(
                Detail::Three(
                    "{} plane row bound overflows: crop_left={}, width={}",
                    Arg::Word(plane),
                    Arg::Num(left as i128),
                    Arg::Num(row_width as i128),
                ),
            );
        },
    };
    if row_end > stride {
        return invalid_frame(
            Detail::Three(
                "{} plane stride {} smaller than crop+width bound {}",
                Arg::Word(plane),
                Arg::Num(stride as i128),
                Arg::Num(row_end as i128),
            ),
        );
    }
    proof {
        assert(0 <= row_width * rows) by (nonlinear_arith);
    }
    let expected_samples: usize = match row_width.checked_mul(rows) {
        Some(count) => count,
        None => {
            return invalid_frame(
                Detail::Three(
                    "{} plane sample count overflow for {}x{}",
                    Arg::Word(plane),
                    Arg::Num(row_width as i128),
                    Arg::Num(rows as i128),
                ),
            );
        },
    };
    let mut samples: Vec<u16> = Vec::with_capacity(expected_samples);
    let available: usize = source.len();
    let mut row: usize = 0;
    assert(row_width * 0 == 0) by (nonlinear_arith);
    assert(samples@ =~= cropped_samples(
        source@,
        stride as int,
        left as int,
        top as int,
        row_width as int,
        0,
    ));
    while row < rows
        invariant
            row <= rows,
            row_width == width,
            rows == height,
            left == crop_left,
            top == crop_top,
            left + row_width <= stride,
            row_width * rows <= usize::MAX,
            available == source@.len(),
            rows_error(
                available as int,
                stride as int,
                left as int,
                top as int,
                row_width as int,
                plane,
                row as nat,
            ) is None,
            samples@ == cropped_samples(
                source@,
                stride as int,
                left as int,
                top as int,
                row_width as int,
                row as int,
            ),
        decreases rows - row,
    {
        let ghost start_spec = row_start(stride as int, left as int, top as int, row as int);
        proof {
            if row_error(
                available as int,
                stride as int,
                left as int,
                top as int,
                row_width as int,
                plane,
                row as int,
            ) is Some {
                lemma_rows_error(
                    available as int,
                    stride as int,
                    left as int,
                    top as int,
                    row_width as int,
                    plane,
                    (row + 1) as nat,
                    rows as nat,
                );
            }
            assert(0 <= (top + row) * stride) by (nonlinear_arith);
        }
        let source_row: usize = match top.checked_add(row) {
            Some(value) => value,
            None => {
                return invalid_frame(
                    Detail::Three(
                        "{} plane row index overflow: crop_top={}, row={}",
                        Arg::Word(plane),
                        Arg::Num(top as i128),
                        Arg::Num(row as i128),
                    ),
                );
            },
        };
        let offset: Option<usize> = match source_row.checked_mul(stride) {
            Some(value) => value.checked_add(left),
            None => None,
        };
        let start: usize = match offset {
            Some(value) => value,
            None => {
                return invalid_frame(
                    Detail::Four(
                        "{} plane source index overflow at row {} (stride={}, crop_left={})",
                        Arg::Word(plane),
                        Arg::Num(row as i128),
                        Arg::Num(stride as i128),
                        Arg::Num(left as i128),
                    ),
                );
            },
        };
        let end: usize = match start.checked_add(row_width) {
            Some(value) => value,
            None => {
                return invalid_frame(
                    Detail::Four(
                        "{} plane source row end overflow at row {} (start={}, width={})",
                        Arg::Word(plane),
                        Arg::Num(row as i128),
                        Arg::Num(start as i128),
                        Arg::Num(row_width as i128),
                    ),
                );
            },
        };
        if end > available {
            return invalid_frame(
                Detail::Four(
                    "{} plane row {} exceeds decoded buffer: end={}, available={}",
                    Arg::Word(plane),
                    Arg::Num(row as i128),
                    Arg::Num(end as i128),
                    Arg::Num(available as i128),
                ),
            );
        }
        let ghost before = samples@;
        let part: &[u16] = slice_subrange(source, start, end);
        samples.extend_from_slice(part);
        proof {
            assert(samples@ =~= before + source@.subrange(start as int, end as int));
            lemma_one_more_row(
                source@,
                stride as int,
                left as int,
                top as int,
                row_width as int,
                row as int,
                before,
            );
        }
        row = row + 1;
    }
    Ok(HeicPlane { width, height, samples })
}

/// Why a crop of an image to its clean aperture cannot be had, if it cannot.
pub open spec fn crop_error(decoded: HeicView, clap: ImageCleanApertureProperty) -> Option<
    DecodeHeicError,
> {
    match crop_bounds(decoded.width, decoded.height, clap) {
        Err(source) => Some(
            DecodeHeicError::InvalidDecodedFrame {
                detail: FrameFault::TileCrop {
                    width: decoded.width,
                    height: decoded.height,
                    source,
                },
            },
        ),
        Ok(crop) => if keeps_all(decoded, crop) {
            None
        } else {
            first(
                plane_size_error(
                    decoded.y_plane,
                    decoded.width as int,
                    decoded.height as int,
                    "grid tile Y",
                ),
                first(
                    extract_error(
                        decoded.y_plane.samples.len() as int,
                        decoded.y_plane.width as int,
                        crop.left as int,
                        crop.top as int,
                        crop.width as int,
                        crop.height as int,
                        "grid tile Y",
                    ),
                    chroma_crop_error(decoded, crop),
                ),
            )
        },
    }
}

/// Whether a crop keeps all of an image.
pub open spec fn keeps_all(decoded: HeicView, crop: CleanApertureCropBounds) -> bool {
    crop.left == 0 && crop.top == 0 && crop.width == decoded.width && crop.height == decoded.height
}

/// Why a crop of the chroma planes cannot be had, if it cannot.
pub open spec fn chroma_crop_error(
    decoded: HeicView,
    crop: CleanApertureCropBounds,
) -> Option<DecodeHeicError> {
    let (across, down) = shared_chroma(decoded.layout);
    let (width, height) = chroma_dimensions(decoded.width, decoded.height, decoded.layout);
    if decoded.layout is Yuv400 {
        None
    } else {
        first(
            chroma_presence_error(decoded),
            first(
                plane_size_error(decoded.u_plane->0, width, height, "grid tile U"),
                first(
                    plane_size_error(decoded.v_plane->0, width, height, "grid tile V"),
                    first(
                        extract_error(
                            decoded.u_plane->0.samples.len() as int,
                            decoded.u_plane->0.width as int,
                            crop.left as int / across,
                            crop.top as int / down,
                            chroma_size(crop.width as int, across),
                            chroma_size(crop.height as int, down),
                            "grid tile U",
                        ),
                        extract_error(
                            decoded.v_plane->0.samples.len() as int,
                            decoded.v_plane->0.width as int,
                            crop.left as int / across,
                            crop.top as int / down,
                            chroma_size(crop.width as int, across),
                            chroma_size(crop.height as int, down),
                            "grid tile V",
                        ),
                    ),
                ),
            ),
        )
    }
}

/// A crop of a plane.
pub open spec fn plane_crop(
    source: PlaneView,
    left: int,
    top: int,
    width: int,
    height: int,
) -> PlaneView {
    PlaneView {
        width: width as u32,
        height: height as u32,
        samples: cropped_samples(source.samples, source.width as int, left, top, width, height),
    }
}

/// The crop of an image: of the luma plane, and of the chroma planes as far as
/// their samples stand for pixels of the crop.
pub open spec fn cropped(decoded: HeicView, crop: CleanApertureCropBounds) -> HeicView {
    let (across, down) = shared_chroma(decoded.layout);
    let chroma = |plane: PlaneView|
        plane_crop(
            plane,
            crop.left as int / across,
            crop.top as int / down,
            chroma_size(crop.width as int, across),
            chroma_size(crop.height as int, down),
        );
    if keeps_all(decoded, crop) {
        decoded
    } else {
        HeicView {
            width: crop.width,
            height: crop.height,
            y_plane: plane_crop(
                decoded.y_plane,
                crop.left as int,
                crop.top as int,
                crop.width as int,
                crop.height as int,
            ),
            u_plane: if decoded.layout is Yuv400 {
                decoded.u_plane
            } else {
                Some(chroma(decoded.u_plane->0))
            },
            v_plane: if decoded.layout is Yuv400 {
                decoded.v_plane
            } else {
                Some(chroma(decoded.v_plane->0))
            },
            ..decoded
        }
    }
}

/// An image cropped to its clean aperture, or why it cannot be.
pub open spec fn crop_outcome(decoded: HeicView, clap: ImageCleanApertureProperty) -> Result<
    HeicView,
    DecodeHeicError,
> {
    match crop_error(decoded, clap) {
        Some(e) => Err(e),
        None => Ok(cropped(decoded, crop_bounds(decoded.width, decoded.height, clap)->Ok_0)),
    }
}

/// Crops an image to its clean aperture.
pub fn crop_heic_by_clean_aperture(
    decoded: DecodedHeicImage,
    clean_aperture: ImageCleanApertureProperty,
) -> (result: Result<DecodedHeicImage, DecodeHeicError>)
    requires
        clean_aperture.wf(),
    ensures
        match crop_outcome(decoded@, clean_aperture) {
            Err(e) => result == Err::<DecodedHeicImage, DecodeHeicError>(e),
            Ok(image) => result is Ok && result->Ok_0@ == image,
        },
{
    let crop: CleanApertureCropBounds = match clean_aperture_crop_bounds(
        decoded.width,
        decoded.height,
        clean_aperture,
    ) {
        Ok(crop) => crop,
        Err(source) => {
            return Err(
                DecodeHeicError::InvalidDecodedFrame {
                    detail: FrameFault::TileCrop {
                        width: decoded.width,
                        height: decoded.height,
                        source,
                    },
                },
            );
        },
    };
    let left: u32 = crop.left as u32;
    let top: u32 = crop.top as u32;
    if left == 0 && top == 0 && crop.width == decoded.width && crop.height == decoded.height {
        return Ok(decoded);
    }
    validate_heic_plane_dimensions(
        &decoded.y_plane,
        decoded.width,
        decoded.height,
        "grid tile Y",
    )?;
    let y_plane: HeicPlane = extract_cropped_heic_plane(
        decoded.y_plane.samples.as_slice(),
        decoded.y_plane.width as usize,
        left,
        top,
        crop.width,
        crop.height,
        "grid tile Y",
    )?;
    if let HeicPixelLayout::Yuv400 = decoded.layout {
        return Ok(
            DecodedHeicImage { width: crop.width, height: crop.height, y_plane, ..decoded },
        );
    }
    let (u_plane, v_plane, chroma_width, chroma_height) = require_heic_chroma_planes(&decoded)?;
    validate_heic_plane_dimensions(u_plane, chroma_width, chroma_height, "grid tile U")?;
    validate_heic_plane_dimensions(v_plane, chroma_width, chroma_height, "grid tile V")?;
    let (across, down) = heic_chroma_subsampling(decoded.layout);
    let cropped_u: HeicPlane = extract_cropped_heic_plane(
        u_plane.samples.as_slice(),
        u_plane.width as usize,
        left / across,
        top / down,
        shared_size(crop.width, across),
        shared_size(crop.height, down),
        "grid tile U",
    )?;
    let cropped_v: HeicPlane = extract_cropped_heic_plane(
        v_plane.samples.as_slice(),
        v_plane.width as usize,
        left / across,
        top / down,
        shared_size(crop.width, across),
        shared_size(crop.height, down),
        "grid tile V",
    )?;
    Ok(
        DecodedHeicImage {
            width: crop.width,
            height: crop.height,
            y_plane,
            u_plane: Some(cropped_u),
            v_plane: Some(cropped_v),
            ..decoded
        },
    )
}

/// Whether a crop begins where a chroma sample begins.
pub open spec fn chroma_aligned(decoded: HeicView, clap: ImageCleanApertureProperty) -> bool {
    let (across, down) = shared_chroma(decoded.layout);
    (across == 1 && down == 1) || (match crop_bounds(decoded.width, decoded.height, clap) {
        Err(_) => false,
        Ok(crop) => crop.left as int % across == 0 && crop.top as int % down == 0,
    })
}

/// Whether a crop of the planes gives the pixels that a crop of the converted
/// image gives: it begins where a chroma sample begins.
pub fn heic_clean_aperture_crop_preserves_chroma_phase(
    decoded: &DecodedHeicImage,
    clean_aperture: ImageCleanApertureProperty,
) -> (preserves: bool)
    requires
        clean_aperture.wf(),
    ensures
        preserves == chroma_aligned(decoded@, clean_aperture),
{
    let (across, down) = heic_chroma_subsampling(decoded.layout);
    if across == 1 && down == 1 {
        return true;
    }
    match clean_aperture_crop_bounds(decoded.width, decoded.height, clean_aperture) {
        Ok(crop) => (crop.left as u32) % across == 0 && (crop.top as u32) % down == 0,
        Err(_) => false,
    }
}

/// What cropping an image by its leading chroma-aligned clean apertures comes
/// to: the crop, and the number of the transform behind the last of them.
pub open spec fn leading_crops(
    decoded: HeicView,
    transforms: Seq<PrimaryItemTransformProperty>,
    from: nat,
) -> Result<(HeicView, nat), DecodeHeicError>
    decreases transforms.len() - from,
{
    if from >= transforms.len() {
        Ok((decoded, from))
    } else {
        match transforms[from as int] {
            PrimaryItemTransformProperty::CleanAperture(clap) => if chroma_aligned(decoded, clap) {
                match crop_outcome(decoded, clap) {
                    Err(e) => Err(e),
                    Ok(next) => leading_crops(next, transforms, from + 1),
                }
            } else {
                Ok((decoded, from))
            },
            _ => Ok((decoded, from)),
        }
    }
}

/// Crops an image by the leading clean apertures of its transforms, as long as
/// they begin where a chroma sample begins. The number of those transforms
/// comes with the crop.
pub fn crop_heic_by_leading_chroma_aligned_clean_apertures(
    decoded: DecodedHeicImage,
    transforms: &[PrimaryItemTransformProperty],
) -> (result: Result<(DecodedHeicImage, usize), DecodeHeicError>)
    requires
        transforms_wf(transforms@),
    ensures
        match leading_crops(decoded@, transforms@, 0) {
            Err(e) => result == Err::<(DecodedHeicImage, usize), DecodeHeicError>(e),
            Ok((image, count)) => {
                &&& result is Ok
                &&& result->Ok_0.0@ == image
                &&& result->Ok_0.1 == count
                &&& count <= transforms@.len()
            },
        },
{
    let mut current: DecodedHeicImage = decoded;
    let mut k: usize = 0;
    loop
        invariant
            k <= transforms@.len(),
            transforms_wf(transforms@),
            leading_crops(decoded@, transforms@, 0) == leading_crops(
                current@,
                transforms@,
                k as nat,
            ),
        decreases transforms@.len() - k,
    {
        if k >= transforms.len() {
            return Ok((current, k));
        }
        assert(transforms@[k as int].wf());
        match transforms[k] {
            PrimaryItemTransformProperty::CleanAperture(clean_aperture) => {
                if !heic_clean_aperture_crop_preserves_chroma_phase(&current, clean_aperture) {
                    return Ok((current, k));
                }
                current = crop_heic_by_clean_aperture(current, clean_aperture)?;
                k = k + 1;
            },
            _ => {
                return Ok((current, k));
            },
        }
    }
}

/// The outcome of a tile's own transforms: it is cropped by its clean
/// apertures, and must not be turned or mirrored.
pub open spec fn tile_transformed(
    decoded: HeicView,
    transforms: Seq<PrimaryItemTransformProperty>,
    count: nat,
) -> Result<HeicView, DecodeHeicError>
    decreases count,
{
    if count == 0 {
        Ok(decoded)
    } else {
        match tile_transformed(decoded, transforms, (count - 1) as nat) {
            Err(e) => Err(e),
            Ok(image) => match transforms[count - 1] {
                PrimaryItemTransformProperty::CleanAperture(clap) => crop_outcome(image, clap),
                PrimaryItemTransformProperty::Rotation(rotation) if rotation.rotation_ccw_degrees
                    % 360 == 0 => Ok(image),
                _ => Err(
                    bad_frame(
                        Detail::Plain("grid tile irot/imir transforms are not supported"),
                    ),
                ),
            },
        }
    }
}

/// Where a transform fails, no later one counts.
proof fn lemma_tile_error(
    decoded: HeicView,
    transforms: Seq<PrimaryItemTransformProperty>,
    few: nat,
    many: nat,
)
    requires
        few <= many,
        tile_transformed(decoded, transforms, few) is Err,
    ensures
        tile_transformed(decoded, transforms, many) == tile_transformed(decoded, transforms, few),
    decreases many - few,
{
    if few < many {
        lemma_tile_error(decoded, transforms, few, (many - 1) as nat);
    }
}

/// Applies the transforms of a tile.
pub fn apply_heic_grid_tile_transforms(
    decoded: DecodedHeicImage,
    transforms: &[PrimaryItemTransformProperty],
) -> (result: Result<DecodedHeicImage, DecodeHeicError>)
    requires
        transforms_wf(transforms@),
    ensures
        match tile_transformed(decoded@, transforms@, transforms@.len()) {
            Err(e) => result == Err::<DecodedHeicImage, DecodeHeicError>(e),
            Ok(image) => result is Ok && result->Ok_0@ == image,
        },
{
    let mut current: DecodedHeicImage = decoded;
    let mut k: usize = 0;
    while k < transforms.len()
        invariant
            k <= transforms@.len(),
            transforms_wf(transforms@),
            tile_transformed(decoded@, transforms@, k as nat) == Ok::<HeicView, DecodeHeicError>(
                current@,
            ),
        decreases transforms@.len() - k,
    {
        proof {
            assert(transforms@[k as int].wf());
            if tile_transformed(decoded@, transforms@, (k + 1) as nat) is Err {
                lemma_tile_error(decoded@, transforms@, (k + 1) as nat, transforms@.len());
            }
        }
        match transforms[k] {
            PrimaryItemTransformProperty::CleanAperture(clean_aperture) => {
                current = crop_heic_by_clean_aperture(current, clean_aperture)?;
            },
            PrimaryItemTransformProperty::Rotation(rotation) => {
                if !is_identity_rotation(rotation.rotation_ccw_degrees) {
                    return invalid_frame(
                        Detail::Plain("grid tile irot/imir transforms are not supported"),
                    );
                }
            },
            PrimaryItemTransformProperty::Mirror(_) => {
                return invalid_frame(
                    Detail::Plain("grid tile irot/imir transforms are not supported"),
                );
            },
        }
        k = k + 1;
    }
    Ok(current)
}

/// A place of a crop in its samples.
proof fn lemma_crop_index(
    source: Seq<u16>,
    stride: int,
    left: int,
    top: int,
    width: int,
    height: int,
    place: (int, int),
)
    requires
        0 <= place.0 < width,
        0 <= place.1 < height,
    ensures
        cropped_samples(source, stride, left, top, width, height)[index_of(place, width)]
            == source[index_of((place.0 + left, place.1 + top), stride)],
{
    lemma_index_of(place, width, height);
    assert((top + place.1) * stride == (place.1 + top) * stride);
}

/// A multiple goes through a division.
proof fn lemma_aligned_division(offset: int, position: int, shared: int)
    requires
        0 <= offset,
        0 <= position,
        1 <= shared <= 2,
        offset % shared == 0,
    ensures
        (position + offset) / shared == position / shared + offset / shared,
{
    if shared == 1 {
        assert((position + offset) / 1 == position + offset && position / 1 == position && offset
            / 1 == offset);
    } else {
        assert((position + offset) / 2 == position / 2 + offset / 2);
    }
}

/// Cropping the planes where a chroma sample begins gives the pixels that
/// cropping the converted image gives.
pub proof fn lemma_aligned_crop<F: Fn(PreparedYcbcrToRgb, i32, i32, i32) -> (u16, u16, u16)>(
    decoded: HeicView,
    clap: ImageCleanApertureProperty,
    float_kernel: F,
    place: (int, int),
    rgb: (u16, u16, u16),
)
    requires
        chroma_aligned(decoded, clap),
        crop_outcome(decoded, clap) is Ok,
        inside(
            place,
            crop_outcome(decoded, clap)->Ok_0.width,
            crop_outcome(decoded, clap)->Ok_0.height,
        ),
    ensures
        heic_image(crop_outcome(decoded, clap)->Ok_0, None).rgb_is(float_kernel, place, rgb)
            == heic_image(decoded, None).rgb_is(
            float_kernel,
            place_before(
                PrimaryItemTransformProperty::CleanAperture(clap),
                decoded.width,
                decoded.height,
                place,
            ),
            rgb,
        ),
{
    let crop = crop_bounds(decoded.width, decoded.height, clap)->Ok_0;
    let result = crop_outcome(decoded, clap)->Ok_0;
    let (across, down) = shared_chroma(decoded.layout);
    lemma_crop_within(decoded.width, decoded.height, clap);
    if !keeps_all(decoded, crop) {
        lemma_crop_index(
            decoded.y_plane.samples,
            decoded.y_plane.width as int,
            crop.left as int,
            crop.top as int,
            crop.width as int,
            crop.height as int,
            place,
        );
        if !(decoded.layout is Yuv400) {
            let left = crop.left as int / across;
            let top = crop.top as int / down;
            let width = chroma_size(crop.width as int, across);
            let height = chroma_size(crop.height as int, down);
            let shared_place = (place.0 / across, place.1 / down);
            lemma_chroma_place(place.0, crop.width as int, across);
            lemma_chroma_place(place.1, crop.height as int, down);
            lemma_aligned_division(crop.left as int, place.0, across);
            lemma_aligned_division(crop.top as int, place.1, down);
            lemma_crop_index(
                decoded.u_plane->0.samples,
                decoded.u_plane->0.width as int,
                left,
                top,
                width,
                height,
                shared_place,
            );
            lemma_crop_index(
                decoded.v_plane->0.samples,
                decoded.v_plane->0.width as int,
                left,
                top,
                width,
                height,
                shared_place,
            );
        }
    }
}

} // verus!
