//! Decoded images of interleaved pixels.
use crate::errors::DecodeError;
#[allow(unused_imports)]
use crate::errors::TransformGuardError;
#[allow(unused_imports)]
use crate::transform::mapping::{
    exif_inverse, exif_transforms, lemma_exif_inverse, lemma_exif_transforms, lemma_source_place,
    source_place,
};
use crate::transform::mapping::{
    exif_orientation_to_primary_item_transforms, PrimaryItemTransformProperty,
};
use crate::transform::pixels::apply_primary_item_transforms_rgba;
#[allow(unused_imports)]
use crate::transform::pixels::{
    index_of, lemma_index_of, lemma_place_of, pixel_at, place_of, sample_count, transformed,
};
use vstd::prelude::*;

verus! {

/// Decoded RGBA pixels: red, green, blue and opacity of each.
#[derive(Clone, Debug, PartialEq, Eq)]
pub enum DecodedRgbaPixels {
    U8(Vec<u8>),
    U16(Vec<u16>),
}

impl DecodedRgbaPixels {
    /// The number of samples.
    pub open spec fn count(&self) -> nat {
        match self {
            DecodedRgbaPixels::U8(pixels) => pixels@.len(),
            DecodedRgbaPixels::U16(pixels) => pixels@.len(),
        }
    }

    /// Return the storage bit depth of this RGBA buffer (8 or 16).
    pub fn storage_bit_depth(&self) -> (depth: u8)
        ensures
            depth == (if self is U8 {
                8u8
            } else {
                16u8
            }),
    {
        match self {
            DecodedRgbaPixels::U8(_) => 8,
            DecodedRgbaPixels::U16(_) => 16,
        }
    }

    /// Borrow RGBA8 samples when this buffer is 8-bit.
    pub fn as_rgba8(&self) -> (samples: Option<&[u8]>)
        ensures
            match self {
                DecodedRgbaPixels::U8(pixels) => samples is Some && samples->0@ == pixels@,
                DecodedRgbaPixels::U16(_) => samples is None,
            },
    {
        match self {
            DecodedRgbaPixels::U8(pixels) => Some(pixels.as_slice()),
            DecodedRgbaPixels::U16(_) => None,
        }
    }

    /// Borrow RGBA16 samples when this buffer is 16-bit.
    pub fn as_rgba16(&self) -> (samples: Option<&[u16]>)
        ensures
            match self {
                DecodedRgbaPixels::U8(_) => samples is None,
                DecodedRgbaPixels::U16(pixels) => samples is Some && samples->0@ == pixels@,
            },
    {
        match self {
            DecodedRgbaPixels::U8(_) => None,
            DecodedRgbaPixels::U16(pixels) => Some(pixels.as_slice()),
        }
    }

    /// Consume this buffer and return owned RGBA8 samples when present.
    pub fn into_rgba8(self) -> (samples: Option<Vec<u8>>)
        ensures
            match self {
                DecodedRgbaPixels::U8(pixels) => samples == Some(pixels),
                DecodedRgbaPixels::U16(_) => samples is None,
            },
    {
        match self {
            DecodedRgbaPixels::U8(pixels) => Some(pixels),
            DecodedRgbaPixels::U16(_) => None,
        }
    }

    /// Consume this buffer and return owned RGBA16 samples when present.
    pub fn into_rgba16(self) -> (samples: Option<Vec<u16>>)
        ensures
            match self {
                DecodedRgbaPixels::U8(_) => samples is None,
                DecodedRgbaPixels::U16(pixels) => samples == Some(pixels),
            },
    {
        match self {
            DecodedRgbaPixels::U8(_) => None,
            DecodedRgbaPixels::U16(pixels) => Some(pixels),
        }
    }
}

/// Decoded RGBA image buffer with metadata.
#[derive(Clone, Debug, PartialEq, Eq)]
pub struct DecodedRgbaImage {
    pub width: u32,
    pub height: u32,
    pub source_bit_depth: u8,
    pub pixels: DecodedRgbaPixels,
    pub icc_profile: Option<Vec<u8>>,
}

/// Decoded RGB8 image buffer for consumers that discard opacity.
#[derive(Clone, Debug, PartialEq, Eq)]
pub struct DecodedRgbImage {
    pub width: u32,
    pub height: u32,
    pub source_bit_depth: u8,
    pub pixels: Vec<u8>,
    pub icc_profile: Option<Vec<u8>>,
}

/// What a decoded image will be like.
#[derive(Clone, Debug, PartialEq, Eq)]
pub struct DecodedRgbaLayout {
    pub width: u32,
    pub height: u32,
    pub source_bit_depth: u8,
    pub storage_bit_depth: u8,
    pub icc_profile: Option<Vec<u8>>,
}

/// HEIF EXIF-orientation inspection result for caller-controlled display
/// transforms.
///
/// `exif_orientation` is the raw EXIF orientation value (`1..=8`) when
/// present. `primary_item_has_orientation_transform` reports whether
/// `irot`/`imir` is already signalled on the primary item. When this is true,
/// applying EXIF orientation on top may double-rotate or double-mirror the
/// decoded output.
#[derive(Clone, Copy, Debug, PartialEq, Eq, Structural)]
pub struct ExifOrientationHint {
    pub exif_orientation: Option<u8>,
    pub primary_item_has_orientation_transform: bool,
}

impl ExifOrientationHint {
    /// EXIF asks for a change, and the file does not already make one.
    pub open spec fn applies(self) -> bool {
        &&& !self.primary_item_has_orientation_transform
        &&& self.exif_orientation matches Some(orientation) && 2 <= orientation <= 8
    }

    /// Return true when EXIF orientation should be applied by the caller.
    pub fn should_apply_exif_orientation(self) -> (applies: bool)
        ensures
            applies == self.applies(),
    {
        match self.exif_orientation {
            Some(orientation) => 2 <= orientation && orientation <= 8
                && !self.primary_item_has_orientation_transform,
            None => false,
        }
    }

    /// Return the EXIF orientation value to apply, if any.
    pub fn orientation_to_apply(self) -> (orientation: Option<u8>)
        ensures
            orientation == (if self.applies() {
                self.exif_orientation
            } else {
                None
            }),
    {
        if self.should_apply_exif_orientation() {
            return self.exif_orientation;
        }
        None
    }
}

/// Whether `after` holds what transforms make of the pixels `before`.
pub open spec fn pixels_transformed(
    transforms: Seq<PrimaryItemTransformProperty>,
    before: DecodedRgbaImage,
    after: DecodedRgbaImage,
) -> bool {
    match (before.pixels, after.pixels) {
        (DecodedRgbaPixels::U8(source), DecodedRgbaPixels::U8(result)) => transformed(
            4,
            transforms,
            before.width,
            before.height,
            source@,
            (after.width, after.height, result@),
            transforms.len(),
        ),
        (DecodedRgbaPixels::U16(source), DecodedRgbaPixels::U16(result)) => transformed(
            4,
            transforms,
            before.width,
            before.height,
            source@,
            (after.width, after.height, result@),
            transforms.len(),
        ),
        _ => false,
    }
}

/// What keeps the pixels of an image from being transformed, if anything:
/// their number.
pub open spec fn pixel_count_error(image: &DecodedRgbaImage) -> Option<DecodeError> {
    match sample_count(image.width, image.height, 4) {
        Err(e) => Some(DecodeError::TransformGuard(e)),
        Ok(expected) => if image.pixels.count() != expected {
            Some(
                DecodeError::TransformGuard(
                    TransformGuardError::RgbaSampleCountMismatch {
                        stage: "transform input",
                        actual: image.pixels.count() as usize,
                        expected: expected as usize,
                        width: image.width,
                        height: image.height,
                    },
                ),
            )
        } else {
            None
        },
    }
}

/// Whether setting an image upright by an EXIF orientation gives `result`. An
/// orientation of 1 or of no meaning changes nothing.
pub open spec fn exif_oriented(
    image: DecodedRgbaImage,
    exif_orientation: u8,
    result: Result<DecodedRgbaImage, DecodeError>,
) -> bool {
    if exif_orientation < 2 || exif_orientation > 8 {
        result == Ok::<DecodedRgbaImage, DecodeError>(image)
    } else {
        match pixel_count_error(&image) {
            Some(e) => result == Err::<DecodedRgbaImage, DecodeError>(e),
            None => {
                &&& result matches Ok(upright)
                &&& upright.source_bit_depth == image.source_bit_depth
                &&& upright.icc_profile == image.icc_profile
                &&& pixels_transformed(
                    exif_transforms(exif_orientation as u16)->0,
                    image,
                    upright,
                )
            },
        }
    }
}

/// Whether two images are the same: their size, their samples and how those
/// are stored, their bit depth and their profile.
pub open spec fn same_image(one: DecodedRgbaImage, other: DecodedRgbaImage) -> bool {
    &&& one.width == other.width
    &&& one.height == other.height
    &&& one.source_bit_depth == other.source_bit_depth
    &&& one.icc_profile == other.icc_profile
    &&& match (one.pixels, other.pixels) {
        (DecodedRgbaPixels::U8(left), DecodedRgbaPixels::U8(right)) => left@ == right@,
        (DecodedRgbaPixels::U16(left), DecodedRgbaPixels::U16(right)) => left@ == right@,
        _ => false,
    }
}

/// The samples of an image come back where each pixel does.
proof fn lemma_pixels_restored<T>(
    orientation: u8,
    size: (u32, u32),
    pixels: Seq<T>,
    middle: (u32, u32, Seq<T>),
    back: (u32, u32, Seq<T>),
)
    requires
        1 <= orientation <= 8,
        pixels.len() == 4 * (size.0 * size.1),
        ({
            let there = exif_transforms(orientation as u16)->0;
            let again = exif_transforms(exif_inverse(orientation) as u16)->0;
            &&& transformed(4, there, size.0, size.1, pixels, middle, there.len())
            &&& transformed(4, again, middle.0, middle.1, middle.2, back, again.len())
        }),
    ensures
        back == (size.0, size.1, pixels),
{
    let there = exif_transforms(orientation as u16)->0;
    let again = exif_transforms(exif_inverse(orientation) as u16)->0;
    let width = size.0 as int;
    let height = size.1 as int;
    lemma_exif_inverse(orientation, size.0, size.1, (0, 0));
    assert forall|i: int| 0 <= i < pixels.len() implies back.2[i] == pixels[i] by {
        let k = i / 4;
        let place = place_of(k, width);
        lemma_place_of(k, width, height);
        lemma_exif_inverse(orientation, size.0, size.1, place);
        let within = source_place(again, middle.0, middle.1, again.len(), place);
        lemma_source_place(again, middle.0, middle.1, again.len(), place);
        let j = index_of(within, middle.0 as int);
        lemma_index_of(within, middle.0 as int, middle.1 as int);
        assert(pixel_at(back.2, 4, k) == pixel_at(middle.2, 4, j));
        assert(pixel_at(middle.2, 4, j) == pixel_at(pixels, 4, k));
        assert(pixel_at(back.2, 4, k)[i % 4] == pixel_at(pixels, 4, k)[i % 4]);
    }
    assert(back.2 =~= pixels);
}

/// Setting an image upright by an EXIF orientation and then by the inverse one
/// gives the image back.
pub proof fn lemma_exif_restored(
    image: DecodedRgbaImage,
    orientation: u8,
    middle: DecodedRgbaImage,
    result: Result<DecodedRgbaImage, DecodeError>,
)
    requires
        exif_oriented(image, orientation, Ok::<DecodedRgbaImage, DecodeError>(middle)),
        exif_oriented(middle, exif_inverse(orientation), result),
    ensures
        result matches Ok(back) && same_image(image, back),
{
    if 2 <= orientation <= 8 {
        lemma_exif_transforms(orientation as u16, image.width, image.height, (0, 0));
        let (w, h) = (image.width, image.height);
        assert(w * h * 4 == 4 * (w * h) && h * w * 4 == w * h * 4) by (nonlinear_arith);
        assert(middle.width * middle.height * 4 == 4 * (middle.width * middle.height))
            by (nonlinear_arith);
        assert(pixel_count_error(&middle) is None);
        let back = result->Ok_0;
        match (image.pixels, middle.pixels, back.pixels) {
            (
                DecodedRgbaPixels::U8(start),
                DecodedRgbaPixels::U8(between),
                DecodedRgbaPixels::U8(end),
            ) => {
                lemma_pixels_restored(
                    orientation,
                    (w, h),
                    start@,
                    (middle.width, middle.height, between@),
                    (back.width, back.height, end@),
                );
            },
            (
                DecodedRgbaPixels::U16(start),
                DecodedRgbaPixels::U16(between),
                DecodedRgbaPixels::U16(end),
            ) => {
                lemma_pixels_restored(
                    orientation,
                    (w, h),
                    start@,
                    (middle.width, middle.height, between@),
                    (back.width, back.height, end@),
                );
            },
            _ => {},
        }
    }
}

impl DecodedRgbaImage {
    /// Return the storage bit depth of the RGBA pixel buffer (8 or 16).
    pub fn storage_bit_depth(&self) -> (depth: u8)
        ensures
            depth == (if self.pixels is U8 {
                8u8
            } else {
                16u8
            }),
    {
        self.pixels.storage_bit_depth()
    }

    /// Borrow RGBA8 samples when this image stores 8-bit pixels.
    pub fn as_rgba8(&self) -> (samples: Option<&[u8]>)
        ensures
            match self.pixels {
                DecodedRgbaPixels::U8(pixels) => samples is Some && samples->0@ == pixels@,
                DecodedRgbaPixels::U16(_) => samples is None,
            },
    {
        self.pixels.as_rgba8()
    }

    /// Borrow RGBA16 samples when this image stores 16-bit pixels.
    pub fn as_rgba16(&self) -> (samples: Option<&[u16]>)
        ensures
            match self.pixels {
                DecodedRgbaPixels::U8(_) => samples is None,
                DecodedRgbaPixels::U16(pixels) => samples is Some && samples->0@ == pixels@,
            },
    {
        self.pixels.as_rgba16()
    }

    /// Consume this image and return owned RGBA8 samples when present.
    pub fn into_rgba8(self) -> (samples: Option<Vec<u8>>)
        ensures
            match self.pixels {
                DecodedRgbaPixels::U8(pixels) => samples == Some(pixels),
                DecodedRgbaPixels::U16(_) => samples is None,
            },
    {
        self.pixels.into_rgba8()
    }

    /// Consume this image and return owned RGBA16 samples when present.
    pub fn into_rgba16(self) -> (samples: Option<Vec<u16>>)
        ensures
            match self.pixels {
                DecodedRgbaPixels::U8(_) => samples is None,
                DecodedRgbaPixels::U16(pixels) => samples == Some(pixels),
            },
    {
        self.pixels.into_rgba16()
    }

    /// Apply a raw EXIF orientation (`1..=8`) to this decoded RGBA image. An
    /// orientation of 1 or of no meaning changes nothing.
    pub fn apply_exif_orientation(self, exif_orientation: u8) -> (result: Result<
        DecodedRgbaImage,
        DecodeError,
    >)
        ensures
            exif_oriented(self, exif_orientation, result),
    {
        let transforms: Vec<PrimaryItemTransformProperty> =
            match exif_orientation_to_primary_item_transforms(exif_orientation as u16) {
            Some(transforms) => transforms,
            None => {
                return Ok(self);
            },
        };
        if transforms.len() == 0 {
            return Ok(self);
        }
        proof {
            lemma_exif_transforms(
                exif_orientation as u16,
                self.width,
                self.height,
                (0, 0),
            );
        }
        match self.pixels {
            DecodedRgbaPixels::U8(samples) => match apply_primary_item_transforms_rgba(
                self.width,
                self.height,
                samples,
                transforms.as_slice(),
            ) {
                Err(e) => Err(DecodeError::TransformGuard(e)),
                Ok((width, height, pixels)) => Ok(
                    DecodedRgbaImage {
                        width,
                        height,
                        source_bit_depth: self.source_bit_depth,
                        pixels: DecodedRgbaPixels::U8(pixels),
                        icc_profile: self.icc_profile,
                    },
                ),
            },
            DecodedRgbaPixels::U16(samples) => match apply_primary_item_transforms_rgba(
                self.width,
                self.height,
                samples,
                transforms.as_slice(),
            ) {
                Err(e) => Err(DecodeError::TransformGuard(e)),
                Ok((width, height, pixels)) => Ok(
                    DecodedRgbaImage {
                        width,
                        height,
                        source_bit_depth: self.source_bit_depth,
                        pixels: DecodedRgbaPixels::U16(pixels),
                        icc_profile: self.icc_profile,
                    },
                ),
            },
        }
    }
}

} // verus!
