//! Transforms resolved against the size of an image, so that pixels can be
//! looked up one by one, in either direction.
use super::aperture::{clean_aperture_crop_bounds, CleanApertureCropBounds};
#[allow(unused_imports)]
use super::aperture::crop_bounds;
#[allow(unused_imports)]
use super::mapping::{
    destination_place, inside, lemma_destination_place, lemma_size_error, lemma_source_place,
    place_before, size_behind, source_place, transformed_size, transforms_wf,
};
use super::mapping::{is_identity_rotation, ImageMirrorDirection, PrimaryItemTransformProperty};
#[allow(unused_imports)]
use super::pixels::{
    index_of, lemma_place_of, pixel_at, place_of, sample_count, sources, transformed,
};
use super::pixels::{
    checked_interleaved_sample_count, checked_rgba_sample_count, gather_pixels,
};
use crate::errors::{DecodeError, TransformGuardError, Wording};
use crate::text::{Arg, Detail};
use vstd::prelude::*;

verus! {

/// A transform with the size of the image that it works on.
#[derive(Clone, Copy, Debug, PartialEq, Eq, Structural)]
pub enum ResolvedRgbaTransformStep {
    CleanAperture { left: u32, top: u32, right: u32, bottom: u32 },
    Rotation { rotation_ccw_degrees: u16, input_width: u32, input_height: u32 },
    Mirror { direction: ImageMirrorDirection, width: u32, height: u32 },
}

impl ResolvedRgbaTransformStep {
    /// Where the pixel at a place behind the step stood before it.
    pub open spec fn before(self, place: (int, int)) -> (int, int) {
        let (x, y) = place;
        match self {
            ResolvedRgbaTransformStep::CleanAperture { left, top, .. } => (x + left, y + top),
            ResolvedRgbaTransformStep::Rotation {
                rotation_ccw_degrees,
                input_width,
                input_height,
            } => if rotation_ccw_degrees == 90 {
                (input_width - 1 - y, x)
            } else if rotation_ccw_degrees == 180 {
                (input_width - 1 - x, input_height - 1 - y)
            } else {
                (y, input_height - 1 - x)
            },
            ResolvedRgbaTransformStep::Mirror { direction, width, height } => match direction {
                ImageMirrorDirection::Horizontal => (width - 1 - x, y),
                ImageMirrorDirection::Vertical => (x, height - 1 - y),
            },
        }
    }

    /// Where the pixel at a place before the step stands behind it.
    pub open spec fn behind(self, place: (int, int)) -> Option<(int, int)> {
        let (x, y) = place;
        match self {
            ResolvedRgbaTransformStep::CleanAperture { left, top, right, bottom } => if left <= x
                <= right && top <= y <= bottom {
                Some((x - left, y - top))
            } else {
                None
            },
            ResolvedRgbaTransformStep::Rotation {
                rotation_ccw_degrees,
                input_width,
                input_height,
            } => if rotation_ccw_degrees == 90 {
                Some((y, input_width - 1 - x))
            } else if rotation_ccw_degrees == 180 {
                Some((input_width - 1 - x, input_height - 1 - y))
            } else {
                Some((input_height - 1 - y, x))
            },
            ResolvedRgbaTransformStep::Mirror { direction, width, height } => match direction {
                ImageMirrorDirection::Horizontal => Some((width - 1 - x, y)),
                ImageMirrorDirection::Vertical => Some((x, height - 1 - y)),
            },
        }
    }

    /// The size behind the step of an image of `width` by `height` pixels,
    /// where the step was resolved for that size.
    pub open spec fn size(self, width: u32, height: u32) -> Option<(u32, u32)> {
        match self {
            ResolvedRgbaTransformStep::CleanAperture { left, top, right, bottom } => if left
                <= right < width && top <= bottom < height {
                Some(((right - left + 1) as u32, (bottom - top + 1) as u32))
            } else {
                None
            },
            ResolvedRgbaTransformStep::Rotation {
                rotation_ccw_degrees,
                input_width,
                input_height,
            } => if input_width != width || input_height != height {
                None
            } else if rotation_ccw_degrees == 180 {
                Some((width, height))
            } else if rotation_ccw_degrees == 90 || rotation_ccw_degrees == 270 {
                Some((height, width))
            } else {
                None
            },
            ResolvedRgbaTransformStep::Mirror { width: w, height: h, .. } => if w == width && h
                == height {
                Some((width, height))
            } else {
                None
            },
        }
    }
}

/// The size of an image behind the first `count` steps, where they were
/// resolved for it.
pub open spec fn steps_size(
    steps: Seq<ResolvedRgbaTransformStep>,
    width: u32,
    height: u32,
    count: nat,
) -> Option<(u32, u32)>
    decreases count,
{
    if count == 0 {
        Some((width, height))
    } else {
        match steps_size(steps, width, height, (count - 1) as nat) {
            None => None,
            Some((w, h)) => steps[count - 1].size(w, h),
        }
    }
}

/// Where the pixel at a place behind the first `count` steps comes from.
pub open spec fn steps_source(
    steps: Seq<ResolvedRgbaTransformStep>,
    count: nat,
    place: (int, int),
) -> (int, int)
    decreases count,
{
    if count == 0 {
        place
    } else {
        steps_source(steps, (count - 1) as nat, steps[count - 1].before(place))
    }
}

/// Where the pixel at a place goes with the first `count` steps.
pub open spec fn steps_destination(
    steps: Seq<ResolvedRgbaTransformStep>,
    count: nat,
    place: (int, int),
) -> Option<(int, int)>
    decreases count,
{
    if count == 0 {
        Some(place)
    } else {
        match steps_destination(steps, (count - 1) as nat, place) {
            None => None,
            Some(p) => steps[count - 1].behind(p),
        }
    }
}

/// One more transform, resolved for an image of `width` by `height` pixels.
pub open spec fn resolved_with(
    steps: Seq<ResolvedRgbaTransformStep>,
    transform: PrimaryItemTransformProperty,
    width: u32,
    height: u32,
) -> Seq<ResolvedRgbaTransformStep> {
    match transform {
        PrimaryItemTransformProperty::CleanAperture(clap) => match crop_bounds(
            width,
            height,
            clap,
        ) {
            Err(_) => steps,
            Ok(crop) => steps.push(
                ResolvedRgbaTransformStep::CleanAperture {
                    left: crop.left as u32,
                    top: crop.top as u32,
                    right: crop.right as u32,
                    bottom: crop.bottom as u32,
                },
            ),
        },
        PrimaryItemTransformProperty::Rotation(rotation) => {
            let degrees = rotation.rotation_ccw_degrees % 360;
            if degrees == 0 {
                steps
            } else {
                steps.push(
                    ResolvedRgbaTransformStep::Rotation {
                        rotation_ccw_degrees: degrees,
                        input_width: width,
                        input_height: height,
                    },
                )
            }
        },
        PrimaryItemTransformProperty::Mirror(mirror) => steps.push(
            ResolvedRgbaTransformStep::Mirror { direction: mirror.direction, width, height },
        ),
    }
}

/// The first `count` transforms, resolved: a rotation by full turns is none.
pub open spec fn resolved(
    transforms: Seq<PrimaryItemTransformProperty>,
    width: u32,
    height: u32,
    count: nat,
) -> Seq<ResolvedRgbaTransformStep>
    decreases count,
{
    if count == 0 {
        Seq::empty()
    } else {
        let before = resolved(transforms, width, height, (count - 1) as nat);
        match transformed_size(transforms, width, height, (count - 1) as nat) {
            Err(_) => before,
            Ok((w, h)) => resolved_with(before, transforms[count - 1], w, h),
        }
    }
}

/// Steps that follow change nothing for those before.
proof fn lemma_steps_prefix(
    steps: Seq<ResolvedRgbaTransformStep>,
    more: Seq<ResolvedRgbaTransformStep>,
    width: u32,
    height: u32,
    count: nat,
    place: (int, int),
)
    requires
        count <= steps.len() <= more.len(),
        forall|k: int| 0 <= k < steps.len() ==> more[k] == steps[k],
    ensures
        steps_size(more, width, height, count) == steps_size(steps, width, height, count),
        steps_source(more, count, place) == steps_source(steps, count, place),
        steps_destination(more, count, place) == steps_destination(steps, count, place),
    decreases count,
{
    if count > 0 {
        lemma_steps_prefix(steps, more, width, height, (count - 1) as nat, place);
        lemma_steps_prefix(
            steps,
            more,
            width,
            height,
            (count - 1) as nat,
            steps[count - 1].before(place),
        );
    }
}

/// Resolved steps do what the transforms do.
pub proof fn lemma_resolved(
    transforms: Seq<PrimaryItemTransformProperty>,
    width: u32,
    height: u32,
    count: nat,
    place: (int, int),
)
    requires
        transformed_size(transforms, width, height, count) is Ok,
    ensures
        ({
            let steps = resolved(transforms, width, height, count);
            &&& steps_size(steps, width, height, steps.len()) == Some(
                transformed_size(transforms, width, height, count)->Ok_0,
            )
            &&& steps_source(steps, steps.len(), place) == source_place(
                transforms,
                width,
                height,
                count,
                place,
            )
            &&& steps_destination(steps, steps.len(), place) == destination_place(
                transforms,
                width,
                height,
                count,
                place,
            )
        }),
    decreases count,
{
    if count > 0 {
        let before = resolved(transforms, width, height, (count - 1) as nat);
        let steps = resolved(transforms, width, height, count);
        let transform = transforms[count - 1];
        let (w, h) = transformed_size(transforms, width, height, (count - 1) as nat)->Ok_0;
        lemma_resolved(transforms, width, height, (count - 1) as nat, place);
        lemma_resolved(
            transforms,
            width,
            height,
            (count - 1) as nat,
            place_before(transform, w, h, place),
        );
        if let PrimaryItemTransformProperty::CleanAperture(clap) = transform {
            super::mapping::lemma_crop_within(w, h, clap);
        }
        if steps.len() > before.len() {
            lemma_steps_prefix(before, steps, width, height, before.len(), place);
            lemma_steps_prefix(
                before,
                steps,
                width,
                height,
                before.len(),
                place_before(transform, w, h, place),
            );
        }
    }
}

/// Transforms that were resolved for an image, so that pixels can be looked
/// up without an image in between.
#[derive(Clone, Debug, PartialEq, Eq)]
pub struct RgbaTransformPlan {
    pub source_width: u32,
    pub source_height: u32,
    pub destination_width: u32,
    pub destination_height: u32,
    pub steps: Vec<ResolvedRgbaTransformStep>,
}

impl RgbaTransformPlan {
    /// The steps were resolved for the image, and lead to the destination.
    pub open spec fn wf(&self) -> bool {
        steps_size(self.steps@, self.source_width, self.source_height, self.steps@.len()) == Some(
            (self.destination_width, self.destination_height),
        )
    }

    /// Whether a place lies in the image behind the first `count` steps.
    pub open spec fn inside_at(&self, count: nat, place: (int, int)) -> bool {
        match steps_size(self.steps@, self.source_width, self.source_height, count) {
            Some((width, height)) => inside(place, width, height),
            None => false,
        }
    }

    /// Where the pixel at a place of the result comes from.
    pub open spec fn source_of(&self, place: (int, int)) -> (int, int) {
        steps_source(self.steps@, self.steps@.len(), place)
    }

    /// Where the pixel at a place of the image goes.
    pub open spec fn destination_of(&self, place: (int, int)) -> Option<(int, int)> {
        steps_destination(self.steps@, self.steps@.len(), place)
    }

    /// The plan is that of some transforms of an image.
    pub open spec fn plans(
        &self,
        transforms: Seq<PrimaryItemTransformProperty>,
        width: u32,
        height: u32,
    ) -> bool {
        &&& self.source_width == width
        &&& self.source_height == height
        &&& transformed_size(transforms, width, height, transforms.len()) == Ok::<
            (u32, u32),
            TransformGuardError,
        >((self.destination_width, self.destination_height))
        &&& self.steps@ == resolved(transforms, width, height, transforms.len())
    }

    /// The error for a place that lies outside the result.
    pub open spec fn outside_destination(&self, x: usize, y: usize) -> TransformGuardError {
        TransformGuardError::PixelIndexOverflow {
            stage: "direct transform destination",
            x,
            y,
            width: self.destination_width,
            height: self.destination_height,
        }
    }

    /// The error for a place that lies outside the image.
    pub open spec fn outside_source(&self, x: usize, y: usize) -> TransformGuardError {
        TransformGuardError::PixelIndexOverflow {
            stage: "direct transform source",
            x,
            y,
            width: self.source_width,
            height: self.source_height,
        }
    }

    /// Resolves transforms for an image.
    pub fn from_primary_transforms(
        width: u32,
        height: u32,
        transforms: &[PrimaryItemTransformProperty],
    ) -> (result: Result<RgbaTransformPlan, TransformGuardError>)
        requires
            transforms_wf(transforms@),
        ensures
            if width == 0 || height == 0 {
                result == Err::<RgbaTransformPlan, TransformGuardError>(
                    TransformGuardError::EmptyImageGeometry { width, height },
                )
            } else {
                match transformed_size(transforms@, width, height, transforms@.len()) {
                    Err(e) => result == Err::<RgbaTransformPlan, TransformGuardError>(e),
                    Ok(_) => {
                        &&& result is Ok
                        &&& result->Ok_0.plans(transforms@, width, height)
                        &&& result->Ok_0.wf()
                        &&& result->Ok_0.destination_width > 0
                        &&& result->Ok_0.destination_height > 0
                    },
                }
            },
    {
        if width == 0 || height == 0 {
            return Err(TransformGuardError::EmptyImageGeometry { width, height });
        }
        let mut current_width: u32 = width;
        let mut current_height: u32 = height;
        let mut steps: Vec<ResolvedRgbaTransformStep> = Vec::with_capacity(transforms.len());
        let mut k: usize = 0;
        while k < transforms.len()
            invariant
                k <= transforms@.len(),
                width > 0,
                height > 0,
                transforms_wf(transforms@),
                transformed_size(transforms@, width, height, k as nat) == Ok::<
                    (u32, u32),
                    TransformGuardError,
                >((current_width, current_height)),
                steps@ == resolved(transforms@, width, height, k as nat),
            decreases transforms@.len() - k,
        {
            let transform: PrimaryItemTransformProperty = transforms[k];
            proof {
                assert(transforms@[k as int].wf());
                if size_behind(transform, current_width, current_height) is Err {
                    lemma_size_error(transforms@, width, height, (k + 1) as nat, transforms@.len());
                }
            }
            match transform {
                PrimaryItemTransformProperty::CleanAperture(clean_aperture) => {
                    let crop: CleanApertureCropBounds = clean_aperture_crop_bounds(
                        current_width,
                        current_height,
                        clean_aperture,
                    )?;
                    steps.push(
                        ResolvedRgbaTransformStep::CleanAperture {
                            left: crop.left as u32,
                            top: crop.top as u32,
                            right: crop.right as u32,
                            bottom: crop.bottom as u32,
                        },
                    );
                    current_width = crop.width;
                    current_height = crop.height;
                },
                PrimaryItemTransformProperty::Rotation(rotation) => {
                    if !is_identity_rotation(rotation.rotation_ccw_degrees) {
                        let rotation_ccw_degrees: u16 = rotation.rotation_ccw_degrees % 360;
                        match rotation_ccw_degrees {
                            90 | 180 | 270 => {},
                            _ => {
                                return Err(
                                    TransformGuardError::UnsupportedRotation {
                                        rotation_ccw_degrees: rotation.rotation_ccw_degrees,
                                    },
                                );
                            },
                        }
                        steps.push(
                            ResolvedRgbaTransformStep::Rotation {
                                rotation_ccw_degrees,
                                input_width: current_width,
                                input_height: current_height,
                            },
                        );
                        if rotation_ccw_degrees != 180 {
                            let swapped: u32 = current_width;
                            current_width = current_height;
                            current_height = swapped;
                        }
                    }
                },
                PrimaryItemTransformProperty::Mirror(mirror) => {
                    steps.push(
                        ResolvedRgbaTransformStep::Mirror {
                            direction: mirror.direction,
                            width: current_width,
                            height: current_height,
                        },
                    );
                },
            }
            k = k + 1;
        }
        proof {
            lemma_resolved(transforms@, width, height, transforms@.len(), (0, 0));
            lemma_source_place(transforms@, width, height, transforms@.len(), (0, 0));
        }
        Ok(
            RgbaTransformPlan {
                source_width: width,
                source_height: height,
                destination_width: current_width,
                destination_height: current_height,
                steps,
            },
        )
    }

    /// Whether every pixel stays where it is.
    pub fn is_identity(&self) -> (identity: bool)
        ensures
            identity == (self.steps@.len() == 0),
    {
        self.steps.len() == 0
    }

    /// Where the pixel at a place of the result comes from.
    pub(crate) fn source_pixel(&self, x: usize, y: usize) -> (place: (usize, usize))
        requires
            self.wf(),
            x < self.destination_width,
            y < self.destination_height,
        ensures
            (place.0 as int, place.1 as int) == self.source_of((x as int, y as int)),
            inside((place.0 as int, place.1 as int), self.source_width, self.source_height),
    {
        let mut place_x: u32 = x as u32;
        let mut place_y: u32 = y as u32;
        let mut k: usize = self.steps.len();
        while k > 0
            invariant
                k <= self.steps@.len(),
                self.wf(),
                self.inside_at(k as nat, (place_x as int, place_y as int)),
                steps_source(self.steps@, k as nat, (place_x as int, place_y as int))
                    == self.source_of((x as int, y as int)),
            decreases k,
        {
            k = k - 1;
            match self.steps[k] {
                ResolvedRgbaTransformStep::CleanAperture { left, top, .. } => {
                    place_x = place_x + left;
                    place_y = place_y + top;
                },
                ResolvedRgbaTransformStep::Rotation {
                    rotation_ccw_degrees,
                    input_width,
                    input_height,
                } => {
                    let before: (u32, u32) = match rotation_ccw_degrees {
                        90 => (input_width - 1 - place_y, place_x),
                        180 => (input_width - 1 - place_x, input_height - 1 - place_y),
                        _ => (place_y, input_height - 1 - place_x),
                    };
                    place_x = before.0;
                    place_y = before.1;
                },
                ResolvedRgbaTransformStep::Mirror { direction, width, height } => {
                    match direction {
                        ImageMirrorDirection::Horizontal => {
                            place_x = width - 1 - place_x;
                        },
                        ImageMirrorDirection::Vertical => {
                            place_y = height - 1 - place_y;
                        },
                    }
                },
            }
        }
        (place_x as usize, place_y as usize)
    }

    /// Looks up where the pixel at a place of the result comes from. A plan
    /// without steps maps every place to itself.
    pub fn map_destination_pixel(&self, destination_x: usize, destination_y: usize) -> (result:
        Result<(usize, usize), TransformGuardError>)
        requires
            self.wf(),
        ensures
            if self.steps@.len() == 0 {
                result == Ok::<(usize, usize), TransformGuardError>((destination_x, destination_y))
            } else if destination_x >= self.destination_width || destination_y
                >= self.destination_height {
                result == Err::<(usize, usize), TransformGuardError>(
                    self.outside_destination(destination_x, destination_y),
                )
            } else {
                result is Ok && (result->Ok_0.0 as int, result->Ok_0.1 as int) == self.source_of(
                    (destination_x as int, destination_y as int),
                )
            },
            destination_x < self.destination_width && destination_y < self.destination_height
                ==> result is Ok && (result->Ok_0.0 as int, result->Ok_0.1 as int)
                == self.source_of((destination_x as int, destination_y as int)) && inside(
                (result->Ok_0.0 as int, result->Ok_0.1 as int),
                self.source_width,
                self.source_height,
            ),
    {
        if self.is_identity() {
            return Ok((destination_x, destination_y));
        }
        if destination_x >= self.destination_width as usize || destination_y
            >= self.destination_height as usize {
            return Err(
                TransformGuardError::PixelIndexOverflow {
                    stage: "direct transform destination",
                    x: destination_x,
                    y: destination_y,
                    width: self.destination_width,
                    height: self.destination_height,
                },
            );
        }
        Ok(self.source_pixel(destination_x, destination_y))
    }

    /// Looks up where the pixel at a place of the image goes: nowhere where
    /// it is cut off.
    pub fn map_source_pixel(&self, source_x: usize, source_y: usize) -> (result: Result<
        Option<(usize, usize)>,
        TransformGuardError,
    >)
        requires
            self.wf(),
        ensures
            if self.steps@.len() == 0 {
                result == Ok::<Option<(usize, usize)>, TransformGuardError>(
                    Some((source_x, source_y)),
                )
            } else if source_x >= self.source_width || source_y >= self.source_height {
                result == Err::<Option<(usize, usize)>, TransformGuardError>(
                    self.outside_source(source_x, source_y),
                )
            } else {
                match self.destination_of((source_x as int, source_y as int)) {
                    None => result == Ok::<Option<(usize, usize)>, TransformGuardError>(None),
                    Some(place) => {
                        &&& result matches Ok(Some(found))
                        &&& (found.0 as int, found.1 as int) == place
                    },
                }
            },
            source_x < self.source_width && source_y < self.source_height ==> result is Ok && (
            result->Ok_0 matches Some(place) ==> inside(
                (place.0 as int, place.1 as int),
                self.destination_width,
                self.destination_height,
            )),
    {
        if self.is_identity() {
            return Ok(Some((source_x, source_y)));
        }
        if source_x >= self.source_width as usize || source_y >= self.source_height as usize {
            return Err(
                TransformGuardError::PixelIndexOverflow {
                    stage: "direct transform source",
                    x: source_x,
                    y: source_y,
                    width: self.source_width,
                    height: self.source_height,
                },
            );
        }
        let ghost start = (source_x as int, source_y as int);
        let mut place_x: u32 = source_x as u32;
        let mut place_y: u32 = source_y as u32;
        let mut k: usize = 0;
        proof {
            lemma_steps_sizes(self.steps@, self.source_width, self.source_height, 0);
        }
        while k < self.steps.len()
            invariant
                k <= self.steps@.len(),
                self.wf(),
                self.steps@.len() > 0,
                start == (source_x as int, source_y as int),
                source_x < self.source_width,
                source_y < self.source_height,
                self.inside_at(k as nat, (place_x as int, place_y as int)),
                steps_destination(self.steps@, k as nat, start) == Some(
                    (place_x as int, place_y as int),
                ),
            decreases self.steps@.len() - k,
        {
            proof {
                lemma_steps_sizes(
                    self.steps@,
                    self.source_width,
                    self.source_height,
                    (k + 1) as nat,
                );
            }
            match self.steps[k] {
                ResolvedRgbaTransformStep::CleanAperture { left, top, right, bottom } => {
                    if place_x < left || place_x > right || place_y < top || place_y > bottom {
                        proof {
                            lemma_cut_off(self.steps@, (k + 1) as nat, self.steps@.len(), start);
                        }
                        return Ok(None);
                    }
                    place_x = place_x - left;
                    place_y = place_y - top;
                },
                ResolvedRgbaTransformStep::Rotation {
                    rotation_ccw_degrees,
                    input_width,
                    input_height,
                } => {
                    let behind: (u32, u32) = match rotation_ccw_degrees {
                        90 => (place_y, input_width - 1 - place_x),
                        180 => (input_width - 1 - place_x, input_height - 1 - place_y),
                        _ => (input_height - 1 - place_y, place_x),
                    };
                    place_x = behind.0;
                    place_y = behind.1;
                },
                ResolvedRgbaTransformStep::Mirror { direction, width, height } => {
                    match direction {
                        ImageMirrorDirection::Horizontal => {
                            place_x = width - 1 - place_x;
                        },
                        ImageMirrorDirection::Vertical => {
                            place_y = height - 1 - place_y;
                        },
                    }
                },
            }
            k = k + 1;
        }
        Ok(Some((place_x as usize, place_y as usize)))
    }
}

/// Steps that fit an image fit it all the way.
proof fn lemma_steps_sizes(
    steps: Seq<ResolvedRgbaTransformStep>,
    width: u32,
    height: u32,
    few: nat,
)
    requires
        few <= steps.len(),
        steps_size(steps, width, height, steps.len()) is Some,
    ensures
        steps_size(steps, width, height, few) is Some,
    decreases steps.len() - few,
{
    if few < steps.len() {
        lemma_steps_sizes(steps, width, height, few + 1);
    }
}

/// What is cut off stays cut off.
proof fn lemma_cut_off(
    steps: Seq<ResolvedRgbaTransformStep>,
    few: nat,
    many: nat,
    place: (int, int),
)
    requires
        few <= many,
        steps_destination(steps, few, place) is None,
    ensures
        steps_destination(steps, many, place) is None,
    decreases many - few,
{
    if few < many {
        lemma_cut_off(steps, few, (many - 1) as nat, place);
    }
}

/// A plan looks up every pixel where the transforms take it from, and its two
/// directions undo each other.
pub proof fn lemma_plan_places(
    plan: &RgbaTransformPlan,
    transforms: Seq<PrimaryItemTransformProperty>,
    width: u32,
    height: u32,
    place: (int, int),
)
    requires
        plan.plans(transforms, width, height),
    ensures
        plan.source_of(place) == source_place(
            transforms,
            width,
            height,
            transforms.len(),
            place,
        ),
        plan.destination_of(place) == destination_place(
            transforms,
            width,
            height,
            transforms.len(),
            place,
        ),
        inside(place, plan.destination_width, plan.destination_height) ==> inside(
            plan.source_of(place),
            width,
            height,
        ) && plan.destination_of(plan.source_of(place)) == Some(place),
        inside(place, width, height) && plan.destination_of(place) is Some ==> inside(
            plan.destination_of(place)->0,
            plan.destination_width,
            plan.destination_height,
        ) && plan.source_of(plan.destination_of(place)->0) == place,
{
    let count = transforms.len();
    lemma_resolved(transforms, width, height, count, place);
    lemma_source_place(transforms, width, height, count, place);
    lemma_resolved(
        transforms,
        width,
        height,
        count,
        source_place(transforms, width, height, count, place),
    );
    if inside(place, width, height) && plan.destination_of(place) is Some {
        lemma_destination_place(transforms, width, height, count, place);
        lemma_resolved(transforms, width, height, count, plan.destination_of(place)->0);
    }
}

/// The error for interleaved samples of another number than the image needs.
pub open spec fn rgb8_mismatch(actual: int, expected: int) -> DecodeError {
    DecodeError::Unsupported(
        Wording::Template(
            Detail::Two(
                "RGB8 transform input has {} samples, expected {}",
                Arg::Num(actual as i128),
                Arg::Num(expected as i128),
            ),
        ),
    )
}

/// Applies transforms to an image without opacity.
pub fn apply_primary_item_transforms_rgb8(
    width: u32,
    height: u32,
    pixels: Vec<u8>,
    transforms: &[PrimaryItemTransformProperty],
) -> (result: Result<(u32, u32, Vec<u8>), DecodeError>)
    requires
        transforms_wf(transforms@),
    ensures
        match sample_count(width, height, 3) {
            Err(e) => result == Err::<(u32, u32, Vec<u8>), DecodeError>(
                DecodeError::TransformGuard(e),
            ),
            Ok(expected) => if pixels@.len() != expected {
                result == Err::<(u32, u32, Vec<u8>), DecodeError>(
                    rgb8_mismatch(pixels@.len() as int, expected),
                )
            } else if width == 0 || height == 0 {
                result == Err::<(u32, u32, Vec<u8>), DecodeError>(
                    DecodeError::TransformGuard(
                        TransformGuardError::EmptyImageGeometry { width, height },
                    ),
                )
            } else {
                match transformed_size(transforms@, width, height, transforms@.len()) {
                    Err(e) => result == Err::<(u32, u32, Vec<u8>), DecodeError>(
                        DecodeError::TransformGuard(e),
                    ),
                    Ok(_) => result is Ok && transformed(
                        3,
                        transforms@,
                        width,
                        height,
                        pixels@,
                        (result->Ok_0.0, result->Ok_0.1, result->Ok_0.2@),
                        transforms@.len(),
                    ),
                }
            },
        },
{
    let expected: usize = match checked_interleaved_sample_count(width, height, 3) {
        Ok(count) => count,
        Err(e) => {
            return Err(DecodeError::TransformGuard(e));
        },
    };
    if pixels.len() != expected {
        return Err(
            DecodeError::Unsupported(
                Wording::Template(
                    Detail::Two(
                        "RGB8 transform input has {} samples, expected {}",
                        Arg::Num(pixels.len() as i128),
                        Arg::Num(expected as i128),
                    ),
                ),
            ),
        );
    }
    let plan: RgbaTransformPlan = match RgbaTransformPlan::from_primary_transforms(
        width,
        height,
        transforms,
    ) {
        Ok(plan) => plan,
        Err(e) => {
            return Err(DecodeError::TransformGuard(e));
        },
    };
    let ghost map = sources(transforms@, width, height, transforms@.len());
    if plan.is_identity() {
        proof {
            assert forall|k: int| 0 <= k < width * height implies #[trigger] pixel_at(
                pixels@,
                3,
                k,
            ) == pixel_at(
                pixels@,
                3,
                index_of(map(place_of(k, width as int)), width as int),
            ) by {
                lemma_place_of(k, width as int, height as int);
                lemma_plan_places(&plan, transforms@, width, height, place_of(k, width as int));
            }
        }
        return Ok((width, height, pixels));
    }
    let size: (u32, u32) = (plan.destination_width, plan.destination_height);
    let from = |x: usize, y: usize| -> (place: (usize, usize))
        requires
            plan.wf(),
            plan.plans(transforms@, width, height),
            x < plan.destination_width,
            y < plan.destination_height,
        ensures
            (place.0 as int, place.1 as int) == map((x as int, y as int)),
        {
            proof {
                lemma_plan_places(&plan, transforms@, width, height, (x as int, y as int));
            }
            plan.source_pixel(x, y)
        };
    proof {
        assert forall|x: usize, y: usize| x < size.0 && y < size.1 implies #[trigger] from.requires(
            (x, y),
        ) && inside(map((x as int, y as int)), width, height) by {
            lemma_source_place(
                transforms@,
                width,
                height,
                transforms@.len(),
                (x as int, y as int),
            );
        }
        lemma_source_place(transforms@, width, height, transforms@.len(), (0, 0));
    }
    let moved: Vec<u8> = gather_pixels(
        3,
        pixels.as_slice(),
        (width, height),
        size,
        from,
        Ghost(map),
    );
    Ok((size.0, size.1, moved))
}

/// Why an image behind its transforms does not go into an RGBA buffer of
/// `actual` samples, if it does not.
pub open spec fn output_error(
    transforms: Seq<PrimaryItemTransformProperty>,
    width: u32,
    height: u32,
    actual: int,
    stage: &'static str,
) -> Option<TransformGuardError> {
    if width == 0 || height == 0 {
        Some(TransformGuardError::EmptyImageGeometry { width, height })
    } else {
        match transformed_size(transforms, width, height, transforms.len()) {
            Err(e) => Some(e),
            Ok((w, h)) => match sample_count(w, h, 4) {
                Err(e) => Some(e),
                Ok(expected) => if actual != expected {
                    Some(
                        TransformGuardError::RgbaSampleCountMismatch {
                            stage,
                            actual: actual as usize,
                            expected: expected as usize,
                            width: w,
                            height: h,
                        },
                    )
                } else {
                    None
                },
            },
        }
    }
}

/// Resolves transforms for an image that goes into an RGBA buffer of
/// `actual` samples.
pub(crate) fn plan_output(
    width: u32,
    height: u32,
    transforms: &[PrimaryItemTransformProperty],
    actual: usize,
    stage: &'static str,
) -> (result: Result<RgbaTransformPlan, TransformGuardError>)
    requires
        transforms_wf(transforms@),
    ensures
        match output_error(transforms@, width, height, actual as int, stage) {
            Some(e) => result == Err::<RgbaTransformPlan, TransformGuardError>(e),
            None => {
                &&& result is Ok
                &&& result->Ok_0.plans(transforms@, width, height)
                &&& result->Ok_0.wf()
                &&& actual == 4 * (result->Ok_0.destination_width
                    * result->Ok_0.destination_height)
            },
        },
{
    let plan: RgbaTransformPlan = RgbaTransformPlan::from_primary_transforms(
        width,
        height,
        transforms,
    )?;
    let expected: usize = checked_rgba_sample_count(
        plan.destination_width,
        plan.destination_height,
    )?;
    if actual != expected {
        return Err(
            TransformGuardError::RgbaSampleCountMismatch {
                stage,
                actual,
                expected,
                width: plan.destination_width,
                height: plan.destination_height,
            },
        );
    }
    Ok(plan)
}

} // verus!
