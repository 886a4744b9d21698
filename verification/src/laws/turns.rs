//! Where the pixels of an image go when it is turned, mirrored or cropped.
#[allow(unused_imports)]
use crate::errors::TransformGuardError;
#[allow(unused_imports)]
use crate::grid::image::{canvas_of, HeicGrid};
use crate::laws::places::lemma_row_major;
#[allow(unused_imports)]
use crate::transform::aperture::{crop_bounds, ImageCleanApertureProperty};
#[allow(unused_imports)]
use crate::transform::mapping::{
    exif_transforms, source_place, transformed_size, ImageMirrorDirection, ImageMirrorProperty,
    ImageRotationProperty, PrimaryItemTransformProperty,
};
#[allow(unused_imports)]
use crate::transform::orientation::orientation_outcome;
#[allow(unused_imports)]
use crate::transform::pixels::{pixel_at, place_of, transformed};
use vstd::prelude::*;

verus! {

/// The sample of a channel in column `x` and row `y` of a transformed image.
pub proof fn lemma_transformed_sample<T>(
    channels: int,
    transforms: Seq<PrimaryItemTransformProperty>,
    width: u32,
    height: u32,
    pixels: Seq<T>,
    shown: (u32, u32, Seq<T>),
    place: (int, int),
    channel: int,
)
    requires
        channels > 0,
        pixels.len() == channels * (width * height),
        transformed(channels, transforms, width, height, pixels, shown, transforms.len()),
        0 <= place.0 < shown.0,
        0 <= place.1 < shown.1,
        0 <= channel < channels,
    ensures
        ({
            let from = source_place(transforms, width, height, transforms.len(), place);
            &&& 0 <= from.0 < width
            &&& 0 <= from.1 < height
            &&& shown.2[channels * (place.1 * shown.0 + place.0) + channel] == pixels[channels * (
            from.1 * width + from.0) + channel]
        }),
{
    let from = source_place(transforms, width, height, transforms.len(), place);
    let k = place.1 * shown.0 + place.0;
    let j = from.1 * width + from.0;
    lemma_row_major(place.0, place.1, shown.0 as int, shown.1 as int);
    crate::transform::mapping::lemma_source_place(
        transforms,
        width,
        height,
        transforms.len(),
        place,
    );
    lemma_row_major(from.0, from.1, width as int, height as int);
    assert(place_of(k, shown.0 as int) == place);
    lemma_pixel_bounds(channels, k, shown.0 * shown.1);
    lemma_pixel_bounds(channels, j, width * height);
    assert(pixel_at(shown.2, channels, k) == pixel_at(pixels, channels, j));
    assert(pixel_at(shown.2, channels, k)[channel] == shown.2[channels * k + channel]);
    assert(pixel_at(pixels, channels, j)[channel] == pixels[channels * j + channel]);
}

/// The samples of a pixel lie within those of the image.
proof fn lemma_pixel_bounds(channels: int, index: int, count: int)
    requires
        channels > 0,
        0 <= index < count,
    ensures
        0 <= channels * index,
        channels * index + channels <= channels * count,
{
    assert(0 <= channels * index && channels * index + channels <= channels * count)
        by (nonlinear_arith)
        requires
            channels > 0,
            0 <= index < count,
    ;
}

/// A turn against the clock: by a quarter, the last column, from top to
/// bottom, becomes the first row, from left to right, and width and height
/// change places; by a half, the last pixel becomes the first; by three
/// quarters, the first column, from bottom to top, becomes the first row. A
/// turn by nothing leaves the image as it is, and by another angle than a
/// multiple of a quarter there is none.
pub proof fn lemma_turned_image<T>(
    degrees: u16,
    width: u32,
    height: u32,
    pixels: Seq<T>,
    shown: (u32, u32, Seq<T>),
    x: int,
    y: int,
    channel: int,
)
    requires
        pixels.len() == 4 * (width * height),
        transformed(
            4,
            seq![
                PrimaryItemTransformProperty::Rotation(
                    ImageRotationProperty { rotation_ccw_degrees: degrees },
                ),
            ],
            width,
            height,
            pixels,
            shown,
            1,
        ),
        0 <= x < shown.0,
        0 <= y < shown.1,
        0 <= channel < 4,
    ensures
        ({
            let turn = degrees as int % 360;
            let sample = shown.2[4 * (y * shown.0 + x) + channel];
            &&& turn == 0 || turn == 90 || turn == 180 || turn == 270
            &&& turn == 90 || turn == 270 ==> shown.0 == height && shown.1 == width
            &&& turn == 0 || turn == 180 ==> shown.0 == width && shown.1 == height
            &&& turn == 0 ==> sample == pixels[4 * (y * width + x) + channel]
            &&& turn == 90 ==> sample == pixels[4 * (x * width + (width - 1 - y)) + channel]
            &&& turn == 180 ==> sample == pixels[4 * ((height - 1 - y) * width + (width - 1 - x))
                + channel]
            &&& turn == 270 ==> sample == pixels[4 * ((height - 1 - x) * width + y) + channel]
        }),
{
    let turn = PrimaryItemTransformProperty::Rotation(
        ImageRotationProperty { rotation_ccw_degrees: degrees },
    );
    let transforms = seq![turn];
    reveal_with_fuel(source_place, 2);
    reveal_with_fuel(transformed_size, 2);
    lemma_transformed_sample(4, transforms, width, height, pixels, shown, (x, y), channel);
}

/// A mirrored image: left and right change places in the horizontal direction,
/// top and bottom in the vertical one. Its size stays.
pub proof fn lemma_mirrored_image<T>(
    direction: ImageMirrorDirection,
    width: u32,
    height: u32,
    pixels: Seq<T>,
    shown: (u32, u32, Seq<T>),
    x: int,
    y: int,
    channel: int,
)
    requires
        pixels.len() == 4 * (width * height),
        transformed(
            4,
            seq![PrimaryItemTransformProperty::Mirror(ImageMirrorProperty { direction })],
            width,
            height,
            pixels,
            shown,
            1,
        ),
        0 <= x < shown.0,
        0 <= y < shown.1,
        0 <= channel < 4,
    ensures
        shown.0 == width,
        shown.1 == height,
        direction is Horizontal ==> shown.2[4 * (y * width + x) + channel] == pixels[4 * (y * width
            + (width - 1 - x)) + channel],
        direction is Vertical ==> shown.2[4 * (y * width + x) + channel] == pixels[4 * ((height - 1
            - y) * width + x) + channel],
{
    let mirror = PrimaryItemTransformProperty::Mirror(ImageMirrorProperty { direction });
    let transforms = seq![mirror];
    reveal_with_fuel(source_place, 2);
    reveal_with_fuel(transformed_size, 2);
    lemma_transformed_sample(4, transforms, width, height, pixels, shown, (x, y), channel);
}

/// A cropped image holds the kept columns and rows, in their order.
pub proof fn lemma_cropped_image<T>(
    clap: ImageCleanApertureProperty,
    width: u32,
    height: u32,
    pixels: Seq<T>,
    shown: (u32, u32, Seq<T>),
    x: int,
    y: int,
    channel: int,
)
    requires
        pixels.len() == 4 * (width * height),
        transformed(
            4,
            seq![PrimaryItemTransformProperty::CleanAperture(clap)],
            width,
            height,
            pixels,
            shown,
            1,
        ),
        0 <= x < shown.0,
        0 <= y < shown.1,
        0 <= channel < 4,
    ensures
        crop_bounds(width, height, clap) matches Ok(crop) && shown.0 == crop.right - crop.left + 1
            && shown.1 == crop.bottom - crop.top + 1 && shown.2[4 * (y * shown.0 + x) + channel]
            == pixels[4 * ((crop.top + y) * width + (crop.left + x)) + channel],
{
    let crop = PrimaryItemTransformProperty::CleanAperture(clap);
    let transforms = seq![crop];
    reveal_with_fuel(source_place, 2);
    reveal_with_fuel(transformed_size, 2);
    lemma_transformed_sample(4, transforms, width, height, pixels, shown, (x, y), channel);
}

/// The transforms of an EXIF orientation, pixel by pixel. The stored rows and
/// columns of an image that is shown upright begin: at the top and the left
/// (1), the top and the right (2), the bottom and the right (3), the bottom
/// and the left (4), the left and the top (5), the right and the top (6), the
/// right and the bottom (7), the left and the bottom (8). From 5 on, rows and
/// columns change places.
pub proof fn lemma_exif_upright<T>(
    orientation: u16,
    width: u32,
    height: u32,
    pixels: Seq<T>,
    shown: (u32, u32, Seq<T>),
    x: int,
    y: int,
    channel: int,
)
    requires
        1 <= orientation <= 8,
        pixels.len() == 4 * (width * height),
        exif_transforms(orientation) matches Some(transforms) && transformed(
            4,
            transforms,
            width,
            height,
            pixels,
            shown,
            transforms.len(),
        ),
        0 <= x < shown.0,
        0 <= y < shown.1,
        0 <= channel < 4,
    ensures
        orientation <= 4 ==> shown.0 == width && shown.1 == height,
        orientation >= 5 ==> shown.0 == height && shown.1 == width,
        ({
            let row = if orientation == 1 || orientation == 2 {
                y
            } else if orientation == 3 || orientation == 4 {
                height - 1 - y
            } else if orientation == 5 || orientation == 8 {
                x
            } else {
                height - 1 - x
            };
            let column = if orientation == 1 || orientation == 4 {
                x
            } else if orientation == 2 || orientation == 3 {
                width - 1 - x
            } else if orientation == 5 || orientation == 6 {
                y
            } else {
                width - 1 - y
            };
            shown.2[4 * (y * shown.0 + x) + channel] == pixels[4 * (row * width + column) + channel]
        }),
{
    let transforms = exif_transforms(orientation)->0;
    crate::transform::mapping::lemma_exif_transforms(orientation, width, height, (x, y));
    lemma_transformed_sample(4, transforms, width, height, pixels, shown, (x, y), channel);
}

/// Every EXIF orientation from 1 to 8 has its transforms, and no other number
/// has any.
pub proof fn lemma_exif_orientations(orientation: u16)
    ensures
        exif_transforms(orientation) is Some <==> 1 <= orientation <= 8,
{
}

/// Whether a transform turns or mirrors an image: a turn by whole turns does not.
pub open spec fn turns(transform: PrimaryItemTransformProperty) -> bool {
    match transform {
        PrimaryItemTransformProperty::CleanAperture(_) => false,
        PrimaryItemTransformProperty::Rotation(rotation) => rotation.rotation_ccw_degrees % 360
            != 0,
        PrimaryItemTransformProperty::Mirror(_) => true,
    }
}

/// Transforms come to a mere change of orientation where none of them crops;
/// there is one where one of them turns or mirrors. An angle that is no multiple
/// of a quarter turn is refused.
pub proof fn lemma_what_turns(transforms: Seq<PrimaryItemTransformProperty>, count: nat)
    requires
        count <= transforms.len(),
    ensures
        match orientation_outcome(transforms, count) {
            Ok(None) => exists|k: int|
                0 <= k < count && (#[trigger] transforms[k]) is CleanAperture,
            Ok(Some(effective)) => {
                &&& forall|k: int|
                    0 <= k < count ==> !((#[trigger] transforms[k]) is CleanAperture)
                &&& effective <==> exists|k: int| 0 <= k < count && turns(#[trigger] transforms[k])
            },
            Err(e) => exists|k: int|
                0 <= k < count && (#[trigger] transforms[k] matches
                    PrimaryItemTransformProperty::Rotation(rotation)
                    && rotation.rotation_ccw_degrees % 90 != 0 && e
                    == TransformGuardError::UnsupportedRotation {
                    rotation_ccw_degrees: rotation.rotation_ccw_degrees,
                }),
        },
    decreases count,
{
    if count > 0 {
        lemma_what_turns(transforms, (count - 1) as nat);
        let last = transforms[count - 1];
        assert(turns(last) || !turns(last));
    }
}

/// The canvas of a grid has the size of the image, upright. Where nothing but
/// the orientation changes and the grid is opaque, it is turned at once and has
/// the size behind the transforms.
pub proof fn lemma_canvas_of_grid(
    grid: HeicGrid,
    transforms: Seq<PrimaryItemTransformProperty>,
    with_alpha: bool,
)
    ensures
        canvas_of(grid, transforms, with_alpha) matches Ok((turned, width, height)) ==> {
            &&& turned ==> !with_alpha && (width, height) == transformed_size(
                transforms,
                grid.descriptor.output_width,
                grid.descriptor.output_height,
                transforms.len(),
            )->Ok_0
            &&& !turned ==> width == grid.descriptor.output_width && height
                == grid.descriptor.output_height
            &&& turned <==> !with_alpha && (forall|k: int|
                0 <= k < transforms.len() ==> !((#[trigger] transforms[k]) is CleanAperture)) && (
            exists|k: int| 0 <= k < transforms.len() && turns(#[trigger] transforms[k]))
        },
{
    lemma_what_turns(transforms, transforms.len());
}

} // verus!
