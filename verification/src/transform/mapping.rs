//! What a sequence of transforms does to the size of an image and to the
//! places of its pixels.
use super::aperture::{clean_aperture_crop_bounds, CleanApertureCropBounds, ImageCleanApertureProperty};
#[allow(unused_imports)]
use super::aperture::crop_bounds;
use crate::errors::TransformGuardError;
use vstd::prelude::*;

verus! {

/// The `irot` property: a rotation against the clock.
#[derive(Clone, Copy, Debug, PartialEq, Eq, Structural)]
pub struct ImageRotationProperty {
    pub rotation_ccw_degrees: u16,
}

/// What an `imir` property swaps.
#[derive(Clone, Copy, Debug, PartialEq, Eq, Structural)]
pub enum ImageMirrorDirection {
    /// Left and right.
    Horizontal,
    /// Top and bottom.
    Vertical,
}

/// The `imir` property.
#[derive(Clone, Copy, Debug, PartialEq, Eq, Structural)]
pub struct ImageMirrorProperty {
    pub direction: ImageMirrorDirection,
}

/// A transform that an item asks for.
#[derive(Clone, Copy, Debug, PartialEq, Eq, Structural)]
pub enum PrimaryItemTransformProperty {
    CleanAperture(ImageCleanApertureProperty),
    Rotation(ImageRotationProperty),
    Mirror(ImageMirrorProperty),
}

impl PrimaryItemTransformProperty {
    /// No denominator of a clean aperture is zero.
    pub open spec fn wf(self) -> bool {
        self matches PrimaryItemTransformProperty::CleanAperture(clap) ==> clap.wf()
    }
}

/// No denominator of a clean aperture is zero.
pub open spec fn transforms_wf(transforms: Seq<PrimaryItemTransformProperty>) -> bool {
    forall|k: int| 0 <= k < transforms.len() ==> (#[trigger] transforms[k]).wf()
}

/// The size of an image behind one transform.
pub open spec fn size_behind(
    transform: PrimaryItemTransformProperty,
    width: u32,
    height: u32,
) -> Result<(u32, u32), TransformGuardError> {
    match transform {
        PrimaryItemTransformProperty::CleanAperture(clap) => match crop_bounds(
            width,
            height,
            clap,
        ) {
            Err(e) => Err(e),
            Ok(crop) => Ok((crop.width, crop.height)),
        },
        PrimaryItemTransformProperty::Rotation(rotation) => {
            let degrees = rotation.rotation_ccw_degrees % 360;
            if degrees == 0 || degrees == 180 {
                Ok((width, height))
            } else if degrees == 90 || degrees == 270 {
                Ok((height, width))
            } else {
                Err(
                    TransformGuardError::UnsupportedRotation {
                        rotation_ccw_degrees: rotation.rotation_ccw_degrees,
                    },
                )
            }
        },
        PrimaryItemTransformProperty::Mirror(_) => Ok((width, height)),
    }
}

/// The size of an image behind the first `count` transforms.
pub open spec fn transformed_size(
    transforms: Seq<PrimaryItemTransformProperty>,
    width: u32,
    height: u32,
    count: nat,
) -> Result<(u32, u32), TransformGuardError>
    decreases count,
{
    if count == 0 {
        Ok((width, height))
    } else {
        match transformed_size(transforms, width, height, (count - 1) as nat) {
            Err(e) => Err(e),
            Ok((w, h)) => size_behind(transforms[count - 1], w, h),
        }
    }
}

/// Where the pixel at a place behind a transform stood before it, in an image
/// of `width` by `height` pixels.
pub open spec fn place_before(
    transform: PrimaryItemTransformProperty,
    width: u32,
    height: u32,
    place: (int, int),
) -> (int, int) {
    let (x, y) = place;
    match transform {
        PrimaryItemTransformProperty::CleanAperture(clap) => match crop_bounds(
            width,
            height,
            clap,
        ) {
            Err(_) => place,
            Ok(crop) => (x + crop.left, y + crop.top),
        },
        PrimaryItemTransformProperty::Rotation(rotation) => {
            let degrees = rotation.rotation_ccw_degrees % 360;
            if degrees == 90 {
                (width - 1 - y, x)
            } else if degrees == 180 {
                (width - 1 - x, height - 1 - y)
            } else if degrees == 270 {
                (y, height - 1 - x)
            } else {
                place
            }
        },
        PrimaryItemTransformProperty::Mirror(mirror) => match mirror.direction {
            ImageMirrorDirection::Horizontal => (width - 1 - x, y),
            ImageMirrorDirection::Vertical => (x, height - 1 - y),
        },
    }
}

/// Where the pixel at a place before a transform stands behind it; nowhere
/// where it is cut off.
pub open spec fn place_behind(
    transform: PrimaryItemTransformProperty,
    width: u32,
    height: u32,
    place: (int, int),
) -> Option<(int, int)> {
    let (x, y) = place;
    match transform {
        PrimaryItemTransformProperty::CleanAperture(clap) => match crop_bounds(
            width,
            height,
            clap,
        ) {
            Err(_) => None,
            Ok(crop) => if crop.left <= x <= crop.right && crop.top <= y <= crop.bottom {
                Some((x - crop.left, y - crop.top))
            } else {
                None
            },
        },
        PrimaryItemTransformProperty::Rotation(rotation) => {
            let degrees = rotation.rotation_ccw_degrees % 360;
            if degrees == 90 {
                Some((y, width - 1 - x))
            } else if degrees == 180 {
                Some((width - 1 - x, height - 1 - y))
            } else if degrees == 270 {
                Some((height - 1 - y, x))
            } else {
                Some(place)
            }
        },
        PrimaryItemTransformProperty::Mirror(mirror) => match mirror.direction {
            ImageMirrorDirection::Horizontal => Some((width - 1 - x, y)),
            ImageMirrorDirection::Vertical => Some((x, height - 1 - y)),
        },
    }
}

/// Where the pixel at a place behind the first `count` transforms comes from.
pub open spec fn source_place(
    transforms: Seq<PrimaryItemTransformProperty>,
    width: u32,
    height: u32,
    count: nat,
    place: (int, int),
) -> (int, int)
    decreases count,
{
    if count == 0 {
        place
    } else {
        match transformed_size(transforms, width, height, (count - 1) as nat) {
            Err(_) => place,
            Ok((w, h)) => source_place(
                transforms,
                width,
                height,
                (count - 1) as nat,
                place_before(transforms[count - 1], w, h, place),
            ),
        }
    }
}

/// Where the pixel at a place goes with the first `count` transforms; nowhere
/// where one cuts it off.
pub open spec fn destination_place(
    transforms: Seq<PrimaryItemTransformProperty>,
    width: u32,
    height: u32,
    count: nat,
    place: (int, int),
) -> Option<(int, int)>
    decreases count,
{
    if count == 0 {
        Some(place)
    } else {
        match transformed_size(transforms, width, height, (count - 1) as nat) {
            Err(_) => None,
            Ok((w, h)) => match destination_place(
                transforms,
                width,
                height,
                (count - 1) as nat,
                place,
            ) {
                None => None,
                Some(p) => place_behind(transforms[count - 1], w, h, p),
            },
        }
    }
}

/// Whether a place lies in an image.
pub open spec fn inside(place: (int, int), width: u32, height: u32) -> bool {
    0 <= place.0 < width && 0 <= place.1 < height
}

/// Where a transform fails, no later one counts.
pub proof fn lemma_size_error(
    transforms: Seq<PrimaryItemTransformProperty>,
    width: u32,
    height: u32,
    few: nat,
    many: nat,
)
    requires
        few <= many,
        transformed_size(transforms, width, height, few) is Err,
    ensures
        transformed_size(transforms, width, height, many) == transformed_size(
            transforms,
            width,
            height,
            few,
        ),
    decreases many - few,
{
    if few < many {
        lemma_size_error(transforms, width, height, few, (many - 1) as nat);
    }
}

/// A crop that a clean aperture keeps lies within the image.
pub proof fn lemma_crop_within(width: u32, height: u32, clap: ImageCleanApertureProperty)
    ensures
        crop_bounds(width, height, clap) matches Ok(crop) ==> crop.within(width, height),
{
}

/// One transform: what stands inside behind it stood inside before it, comes
/// from exactly one place, and goes there.
pub proof fn lemma_places(
    transform: PrimaryItemTransformProperty,
    width: u32,
    height: u32,
    place: (int, int),
)
    ensures
        size_behind(transform, width, height) matches Ok((w, h)) ==> {
            &&& inside(place, w, h) ==> inside(
                place_before(transform, width, height, place),
                width,
                height,
            ) && place_behind(
                transform,
                width,
                height,
                place_before(transform, width, height, place),
            ) == Some(place)
            &&& inside(place, width, height) ==> (match place_behind(
                transform,
                width,
                height,
                place,
            ) {
                Some(p) => inside(p, w, h) && place_before(transform, width, height, p) == place,
                None => true,
            })
            &&& w * h <= width * height
            &&& width > 0 && height > 0 ==> w > 0 && h > 0
        },
{
    if let PrimaryItemTransformProperty::CleanAperture(clap) = transform {
        lemma_crop_within(width, height, clap);
        if crop_bounds(width, height, clap) is Ok {
            let crop = crop_bounds(width, height, clap)->Ok_0;
            assert(crop.width * crop.height <= width * height) by (nonlinear_arith)
                requires
                    crop.width <= width,
                    crop.height <= height,
            ;
        }
    }
    assert(width * height == height * width) by (nonlinear_arith);
}

/// A sequence of transforms: each pixel of the result comes from one place of
/// the image, and goes from there to its own.
pub proof fn lemma_source_place(
    transforms: Seq<PrimaryItemTransformProperty>,
    width: u32,
    height: u32,
    count: nat,
    place: (int, int),
)
    ensures
        transformed_size(transforms, width, height, count) matches Ok((w, h)) ==> {
            &&& inside(place, w, h) ==> {
                let source = source_place(transforms, width, height, count, place);
                &&& inside(source, width, height)
                &&& destination_place(transforms, width, height, count, source) == Some(place)
            }
            &&& w * h <= width * height
            &&& width > 0 && height > 0 ==> w > 0 && h > 0
        },
    decreases count,
{
    if count > 0 {
        match transformed_size(transforms, width, height, (count - 1) as nat) {
            Err(_) => {},
            Ok((w, h)) => {
                let last = transforms[count - 1];
                let before = place_before(last, w, h, place);
                lemma_places(last, w, h, place);
                lemma_source_place(transforms, width, height, (count - 1) as nat, before);
            },
        }
    }
}

/// A sequence of transforms: a pixel that goes to a place of the result is
/// the one that the place comes from.
pub proof fn lemma_destination_place(
    transforms: Seq<PrimaryItemTransformProperty>,
    width: u32,
    height: u32,
    count: nat,
    place: (int, int),
)
    requires
        inside(place, width, height),
    ensures
        match (
            transformed_size(transforms, width, height, count),
            destination_place(transforms, width, height, count, place),
        ) {
            (Ok((w, h)), Some(p)) => inside(p, w, h) && source_place(
                transforms,
                width,
                height,
                count,
                p,
            ) == place,
            _ => true,
        },
    decreases count,
{
    if count > 0 {
        lemma_destination_place(transforms, width, height, (count - 1) as nat, place);
        match transformed_size(transforms, width, height, (count - 1) as nat) {
            Err(_) => {},
            Ok((w, h)) => {
                let last = transforms[count - 1];
                match destination_place(transforms, width, height, (count - 1) as nat, place) {
                    None => {},
                    Some(p) => {
                        lemma_places(last, w, h, p);
                    },
                }
            },
        }
    }
}

/// The first transform of a sequence works on the image, and the others on
/// what it leaves.
pub proof fn lemma_first_transform(
    transforms: Seq<PrimaryItemTransformProperty>,
    width: u32,
    height: u32,
    count: nat,
    place: (int, int),
)
    requires
        1 <= count <= transforms.len(),
        size_behind(transforms[0], width, height) is Ok,
    ensures
        ({
            let (w, h) = size_behind(transforms[0], width, height)->Ok_0;
            let rest = transforms.skip(1);
            &&& transformed_size(transforms, width, height, count) == transformed_size(
                rest,
                w,
                h,
                (count - 1) as nat,
            )
            &&& transformed_size(transforms, width, height, count) is Ok ==> source_place(
                transforms,
                width,
                height,
                count,
                place,
            ) == place_before(
                transforms[0],
                width,
                height,
                source_place(rest, w, h, (count - 1) as nat, place),
            )
        }),
    decreases count,
{
    let (w, h) = size_behind(transforms[0], width, height)->Ok_0;
    let rest = transforms.skip(1);
    assert(transformed_size(transforms, width, height, 0) == Ok::<
        (u32, u32),
        TransformGuardError,
    >((width, height)));
    if count > 1 {
        assert(rest[count - 2] == transforms[count - 1]);
        lemma_first_transform(transforms, width, height, (count - 1) as nat, place);
        match transformed_size(transforms, width, height, (count - 1) as nat) {
            Err(_) => {},
            Ok((cw, ch)) => {
                lemma_first_transform(
                    transforms,
                    width,
                    height,
                    (count - 1) as nat,
                    place_before(transforms[count - 1], cw, ch, place),
                );
            },
        }
    } else {
        assert(source_place(
            transforms,
            width,
            height,
            0,
            place_before(transforms[0], width, height, place),
        ) == place_before(transforms[0], width, height, place));
    }
}

/// The size of an image behind its transforms.
pub fn transformed_rgba_dimensions(
    width: u32,
    height: u32,
    transforms: &[PrimaryItemTransformProperty],
) -> (result: Result<(u32, u32), TransformGuardError>)
    requires
        transforms_wf(transforms@),
    ensures
        result == transformed_size(transforms@, width, height, transforms@.len()),
{
    let mut current_width: u32 = width;
    let mut current_height: u32 = height;
    let mut k: usize = 0;
    while k < transforms.len()
        invariant
            k <= transforms@.len(),
            transforms_wf(transforms@),
            transformed_size(transforms@, width, height, k as nat) == Ok::<
                (u32, u32),
                TransformGuardError,
            >((current_width, current_height)),
        decreases transforms@.len() - k,
    {
        match transform_size(transforms[k], current_width, current_height) {
            Ok((w, h)) => {
                current_width = w;
                current_height = h;
            },
            Err(e) => {
                proof {
                    lemma_size_error(
                        transforms@,
                        width,
                        height,
                        (k + 1) as nat,
                        transforms@.len(),
                    );
                }
                return Err(e);
            },
        }
        k = k + 1;
    }
    Ok((current_width, current_height))
}

/// The size of an image behind one transform.
pub fn transform_size(
    transform: PrimaryItemTransformProperty,
    width: u32,
    height: u32,
) -> (result: Result<(u32, u32), TransformGuardError>)
    requires
        transform.wf(),
    ensures
        result == size_behind(transform, width, height),
{
    match transform {
        PrimaryItemTransformProperty::CleanAperture(clap) => {
            let crop: CleanApertureCropBounds = clean_aperture_crop_bounds(width, height, clap)?;
            Ok((crop.width, crop.height))
        },
        PrimaryItemTransformProperty::Rotation(rotation) => {
            match rotation.rotation_ccw_degrees % 360 {
                0 | 180 => Ok((width, height)),
                90 | 270 => Ok((height, width)),
                _ => Err(
                    TransformGuardError::UnsupportedRotation {
                        rotation_ccw_degrees: rotation.rotation_ccw_degrees,
                    },
                ),
            }
        },
        PrimaryItemTransformProperty::Mirror(_) => Ok((width, height)),
    }
}

/// Whether a rotation leaves an image as it is.
pub fn is_identity_rotation(rotation_ccw_degrees: u16) -> (identity: bool)
    ensures
        identity == (rotation_ccw_degrees % 360 == 0),
{
    rotation_ccw_degrees % 360 == 0
}

/// Whether a rotation, of whatever angle, or a mirror is among the transforms.
pub fn transforms_include_orientation(transforms: &[PrimaryItemTransformProperty]) -> (found: bool)
    ensures
        found == exists|k: int|
            0 <= k < transforms@.len() && ((#[trigger] transforms@[k]) is Rotation
                || transforms@[k] is Mirror),
{
    let mut k: usize = 0;
    while k < transforms.len()
        invariant
            k <= transforms@.len(),
            forall|i: int|
                0 <= i < k ==> !((#[trigger] transforms@[i]) is Rotation) && !(
                transforms@[i] is Mirror),
        decreases transforms@.len() - k,
    {
        let found: bool = match transforms[k] {
            PrimaryItemTransformProperty::CleanAperture(_) => false,
            PrimaryItemTransformProperty::Rotation(_) => true,
            PrimaryItemTransformProperty::Mirror(_) => true,
        };
        if found {
            assert(transforms@[k as int] is Rotation || transforms@[k as int] is Mirror);
            return true;
        }
        k = k + 1;
    }
    false
}

/// The transforms that an EXIF orientation stands for.
pub open spec fn exif_transforms(orientation: u16) -> Option<Seq<PrimaryItemTransformProperty>> {
    let left_right = PrimaryItemTransformProperty::Mirror(
        ImageMirrorProperty { direction: ImageMirrorDirection::Horizontal },
    );
    let top_bottom = PrimaryItemTransformProperty::Mirror(
        ImageMirrorProperty { direction: ImageMirrorDirection::Vertical },
    );
    let quarter = PrimaryItemTransformProperty::Rotation(
        ImageRotationProperty { rotation_ccw_degrees: 90 },
    );
    let half = PrimaryItemTransformProperty::Rotation(
        ImageRotationProperty { rotation_ccw_degrees: 180 },
    );
    let three_quarters = PrimaryItemTransformProperty::Rotation(
        ImageRotationProperty { rotation_ccw_degrees: 270 },
    );
    if orientation == 1 {
        Some(Seq::empty())
    } else if orientation == 2 {
        Some(seq![left_right])
    } else if orientation == 3 {
        Some(seq![half])
    } else if orientation == 4 {
        Some(seq![top_bottom])
    } else if orientation == 5 {
        Some(seq![left_right, quarter])
    } else if orientation == 6 {
        Some(seq![three_quarters])
    } else if orientation == 7 {
        Some(seq![left_right, three_quarters])
    } else if orientation == 8 {
        Some(seq![quarter])
    } else {
        None
    }
}

/// The transforms that an EXIF orientation stands for.
pub fn exif_orientation_to_primary_item_transforms(orientation: u16) -> (transforms: Option<
    Vec<PrimaryItemTransformProperty>,
>)
    ensures
        match exif_transforms(orientation) {
            Some(expected) => transforms is Some && transforms->0@ == expected,
            None => transforms is None,
        },
        transforms matches Some(list) ==> transforms_wf(list@),
{
    let left_right: PrimaryItemTransformProperty = PrimaryItemTransformProperty::Mirror(
        ImageMirrorProperty { direction: ImageMirrorDirection::Horizontal },
    );
    let top_bottom: PrimaryItemTransformProperty = PrimaryItemTransformProperty::Mirror(
        ImageMirrorProperty { direction: ImageMirrorDirection::Vertical },
    );
    let quarter: PrimaryItemTransformProperty = PrimaryItemTransformProperty::Rotation(
        ImageRotationProperty { rotation_ccw_degrees: 90 },
    );
    let half: PrimaryItemTransformProperty = PrimaryItemTransformProperty::Rotation(
        ImageRotationProperty { rotation_ccw_degrees: 180 },
    );
    let three_quarters: PrimaryItemTransformProperty = PrimaryItemTransformProperty::Rotation(
        ImageRotationProperty { rotation_ccw_degrees: 270 },
    );
    let mut list: Vec<PrimaryItemTransformProperty> = Vec::new();
    match orientation {
        1 => {},
        2 => {
            list.push(left_right);
        },
        3 => {
            list.push(half);
        },
        4 => {
            list.push(top_bottom);
        },
        5 => {
            list.push(left_right);
            list.push(quarter);
        },
        6 => {
            list.push(three_quarters);
        },
        7 => {
            list.push(left_right);
            list.push(three_quarters);
        },
        8 => {
            list.push(quarter);
        },
        _ => {
            return None;
        },
    }
    assert(list@ =~= exif_transforms(orientation)->0);
    Some(list)
}

/// Where EXIF says that the pixel at a place of the upright image stands in
/// the stored one: the standard names, for each orientation, the side of the
/// upright image at which the stored row 0 and the stored column 0 stand.
pub open spec fn exif_stored_place(orientation: u16, width: u32, height: u32, place: (int, int)) -> (
    int,
    int,
) {
    let (x, y) = place;
    if orientation == 1 {
        (x, y)
    } else if orientation == 2 {
        (width - 1 - x, y)
    } else if orientation == 3 {
        (width - 1 - x, height - 1 - y)
    } else if orientation == 4 {
        (x, height - 1 - y)
    } else if orientation == 5 {
        (y, x)
    } else if orientation == 6 {
        (y, height - 1 - x)
    } else if orientation == 7 {
        (width - 1 - y, height - 1 - x)
    } else {
        (width - 1 - y, x)
    }
}

/// The transforms of an EXIF orientation set the stored image upright: each
/// pixel comes from where EXIF says that it is stored.
#[verifier::spinoff_prover]
#[verifier::rlimit(60)]
pub proof fn lemma_exif_transforms(orientation: u16, width: u32, height: u32, place: (int, int))
    requires
        1 <= orientation <= 8,
    ensures
        source_place(
            exif_transforms(orientation)->0,
            width,
            height,
            exif_transforms(orientation)->0.len(),
            place,
        ) == exif_stored_place(orientation, width, height, place),
        transformed_size(
            exif_transforms(orientation)->0,
            width,
            height,
            exif_transforms(orientation)->0.len(),
        ) == Ok::<(u32, u32), TransformGuardError>(
            if orientation >= 5 {
                (height, width)
            } else {
                (width, height)
            },
        ),
{
    let transforms = exif_transforms(orientation)->0;
    reveal_with_fuel(transformed_size, 3);
    reveal_with_fuel(source_place, 3);
    assert(90u16 % 360 == 90 && 180u16 % 360 == 180 && 270u16 % 360 == 270);
}

/// The EXIF orientation that takes another one back: the quarter turns take
/// back each other, and every other orientation itself.
pub open spec fn exif_inverse(orientation: u8) -> u8 {
    if orientation == 6 {
        8
    } else if orientation == 8 {
        6
    } else {
        orientation
    }
}

/// An EXIF orientation and then its inverse leave every pixel where it stands.
pub proof fn lemma_exif_inverse(orientation: u8, width: u32, height: u32, place: (int, int))
    requires
        1 <= orientation <= 8,
    ensures
        ({
            let there = exif_transforms(orientation as u16)->0;
            let back = exif_transforms(exif_inverse(orientation) as u16)->0;
            &&& transformed_size(there, width, height, there.len()) matches Ok((w, h))
            &&& transformed_size(back, w, h, back.len()) == Ok::<(u32, u32), TransformGuardError>(
                (width, height),
            )
            &&& source_place(
                there,
                width,
                height,
                there.len(),
                source_place(back, w, h, back.len(), place),
            ) == place
        }),
{
    let there = exif_transforms(orientation as u16)->0;
    let back = exif_transforms(exif_inverse(orientation) as u16)->0;
    lemma_exif_transforms(orientation as u16, width, height, place);
    let (w, h) = transformed_size(there, width, height, there.len())->Ok_0;
    lemma_exif_transforms(exif_inverse(orientation) as u16, w, h, place);
    let middle = source_place(back, w, h, back.len(), place);
    lemma_exif_transforms(orientation as u16, width, height, middle);
}

/// Four quarter turns leave every pixel where it stands.
pub proof fn lemma_four_quarter_turns(width: u32, height: u32, degrees: u16, place: (int, int))
    requires
        degrees % 360 == 90 || degrees % 360 == 270,
    ensures
        ({
            let turn = PrimaryItemTransformProperty::Rotation(
                ImageRotationProperty { rotation_ccw_degrees: degrees },
            );
            let turns = seq![turn, turn, turn, turn];
            &&& transformed_size(turns, width, height, 4) == Ok::<(u32, u32), TransformGuardError>(
                (width, height),
            )
            &&& source_place(turns, width, height, 4, place) == place
        }),
{
    reveal_with_fuel(transformed_size, 5);
    reveal_with_fuel(source_place, 5);
}

/// Mirroring twice in one direction leaves every pixel where it stands.
pub proof fn lemma_mirror_twice(
    width: u32,
    height: u32,
    direction: ImageMirrorDirection,
    place: (int, int),
)
    ensures
        ({
            let mirror = PrimaryItemTransformProperty::Mirror(ImageMirrorProperty { direction });
            let twice = seq![mirror, mirror];
            &&& transformed_size(twice, width, height, 2) == Ok::<(u32, u32), TransformGuardError>(
                (width, height),
            )
            &&& source_place(twice, width, height, 2, place) == place
        }),
{
    reveal_with_fuel(transformed_size, 3);
    reveal_with_fuel(source_place, 3);
}

} // verus!
