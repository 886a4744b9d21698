//! Turning and mirroring as one map from places to places.
#[allow(unused_imports)]
use super::mapping::{
    destination_place, inside, lemma_destination_place, lemma_source_place, size_behind,
    source_place, transformed_size,
};
use super::mapping::{ImageMirrorDirection, PrimaryItemTransformProperty};
use crate::errors::TransformGuardError;
use vstd::prelude::*;

verus! {

/// A coordinate of the result, as a sum over those of the image.
#[derive(Clone, Copy, Debug, PartialEq, Eq, Structural)]
pub struct RgbaOrientationAxis {
    pub from_source_x: i64,
    pub from_source_y: i64,
    pub offset: i64,
}

impl RgbaOrientationAxis {
    /// The coordinate for a place of the image.
    pub open spec fn at(self, place: (int, int)) -> int {
        self.from_source_x * place.0 + self.from_source_y * place.1 + self.offset
    }

    /// The axis follows one axis of the image, in one of its directions.
    pub open spec fn wf(self) -> bool {
        &&& (self.from_source_x == 0 && (self.from_source_y == 1 || self.from_source_y == -1))
            || (self.from_source_y == 0 && (self.from_source_x == 1 || self.from_source_x == -1))
        &&& 0 <= self.offset < 0x1_0000_0000
    }

    /// The axis counted from its other end.
    pub open spec fn flipped(self, dimension: u32) -> RgbaOrientationAxis {
        RgbaOrientationAxis {
            from_source_x: (-self.from_source_x) as i64,
            from_source_y: (-self.from_source_y) as i64,
            offset: (dimension - 1 - self.offset) as i64,
        }
    }
}

/// Turning and mirroring of an image.
#[derive(Clone, Copy, Debug, PartialEq, Eq, Structural)]
pub struct RgbaOrientationTransform {
    pub source_width: u32,
    pub source_height: u32,
    pub destination_width: u32,
    pub destination_height: u32,
    pub x_axis: RgbaOrientationAxis,
    pub y_axis: RgbaOrientationAxis,
}

impl RgbaOrientationTransform {
    /// Where the pixel at a place of the image goes.
    pub open spec fn destination_of(self, place: (int, int)) -> (int, int) {
        (self.x_axis.at(place), self.y_axis.at(place))
    }

    /// Where the pixel at a place of the result comes from.
    pub open spec fn source_of(self, place: (int, int)) -> (int, int) {
        let dx = place.0 - self.x_axis.offset;
        let dy = place.1 - self.y_axis.offset;
        (
            self.x_axis.from_source_x * dx + self.y_axis.from_source_x * dy,
            self.x_axis.from_source_y * dx + self.y_axis.from_source_y * dy,
        )
    }

    /// The axes cross, and the map goes from the image onto the result and
    /// back.
    pub open spec fn wf(self) -> bool {
        &&& self.x_axis.wf()
        &&& self.y_axis.wf()
        &&& self.x_axis.from_source_x == 0 <==> self.y_axis.from_source_y == 0
        &&& forall|place: (int, int)|
            inside(place, self.source_width, self.source_height) ==> inside(
                #[trigger] self.destination_of(place),
                self.destination_width,
                self.destination_height,
            )
        &&& forall|place: (int, int)|
            inside(place, self.destination_width, self.destination_height) ==> inside(
                #[trigger] self.source_of(place),
                self.source_width,
                self.source_height,
            )
        &&& self.source_width * self.source_height == self.destination_width
            * self.destination_height
    }

    /// The error for a coordinate outside the result.
    pub open spec fn outside(self, stage: &'static str, x: usize, y: usize) -> TransformGuardError {
        TransformGuardError::PixelIndexOverflow {
            stage,
            x,
            y,
            width: self.destination_width,
            height: self.destination_height,
        }
    }

    /// Where a pixel goes, or why that cannot be said.
    pub open spec fn mapped(self, x: usize, y: usize) -> Result<(int, int), TransformGuardError> {
        let (to_x, to_y) = self.destination_of((x as int, y as int));
        if x > i64::MAX || y > i64::MAX {
            Err(
                TransformGuardError::PixelIndexOverflow {
                    stage: "direct grid source",
                    x,
                    y,
                    width: self.source_width,
                    height: self.source_height,
                },
            )
        } else if to_x < 0 || to_x >= self.destination_width {
            Err(self.outside("direct grid destination x", x, y))
        } else if to_y < 0 || to_y >= self.destination_height {
            Err(self.outside("direct grid destination y", x, y))
        } else {
            Ok((to_x, to_y))
        }
    }

    /// Looks up where a pixel goes. A coordinate is not so large that adding
    /// to it overflows.
    pub fn map_source_pixel(&self, x: usize, y: usize) -> (result: Result<
        (usize, usize),
        TransformGuardError,
    >)
        requires
            self.x_axis.wf(),
            self.y_axis.wf(),
            x <= 0x7fff_fffe_0000_0000 || x > i64::MAX,
            y <= 0x7fff_fffe_0000_0000 || y > i64::MAX,
        ensures
            match self.mapped(x, y) {
                Ok(place) => result is Ok && (result->Ok_0.0 as int, result->Ok_0.1 as int)
                    == place,
                Err(e) => result == Err::<(usize, usize), TransformGuardError>(e),
            },
    {
        if x as u64 > i64::MAX as u64 || y as u64 > i64::MAX as u64 {
            return Err(
                TransformGuardError::PixelIndexOverflow {
                    stage: "direct grid source",
                    x,
                    y,
                    width: self.source_width,
                    height: self.source_height,
                },
            );
        }
        let to_x: i64 = axis_coordinate(self.x_axis, x as i64, y as i64);
        let to_y: i64 = axis_coordinate(self.y_axis, x as i64, y as i64);
        if to_x < 0 || to_x >= self.destination_width as i64 {
            return Err(
                TransformGuardError::PixelIndexOverflow {
                    stage: "direct grid destination x",
                    x,
                    y,
                    width: self.destination_width,
                    height: self.destination_height,
                },
            );
        }
        if to_y < 0 || to_y >= self.destination_height as i64 {
            return Err(
                TransformGuardError::PixelIndexOverflow {
                    stage: "direct grid destination y",
                    x,
                    y,
                    width: self.destination_width,
                    height: self.destination_height,
                },
            );
        }
        Ok((to_x as usize, to_y as usize))
    }
}

/// The coordinate of an axis for a place of the image.
fn axis_coordinate(axis: RgbaOrientationAxis, x: i64, y: i64) -> (coordinate: i64)
    requires
        axis.wf(),
        0 <= x <= 0x7fff_fffe_0000_0000,
        0 <= y <= 0x7fff_fffe_0000_0000,
    ensures
        coordinate == axis.at((x as int, y as int)),
{
    proof {
        lemma_unit_product(axis.from_source_x as int, x as int);
        lemma_unit_product(axis.from_source_y as int, y as int);
    }
    axis.from_source_x * x + axis.from_source_y * y + axis.offset
}

/// Multiplication by -1, 0 or 1.
proof fn lemma_unit_product(unit: int, value: int)
    requires
        -1 <= unit <= 1,
    ensures
        unit * value == (if unit == 0 {
            0
        } else if unit == 1 {
            value
        } else {
            -value
        }),
{
    assert(unit == 0 ==> unit * value == 0) by (nonlinear_arith);
    assert(unit == 1 ==> unit * value == value) by (nonlinear_arith);
    assert(unit == -1 ==> unit * value == -value) by (nonlinear_arith);
}

/// The coordinate of a flipped axis.
proof fn lemma_flipped(axis: RgbaOrientationAxis, dimension: u32, place: (int, int))
    requires
        axis.wf(),
        axis.offset < dimension,
    ensures
        axis.flipped(dimension).wf(),
        axis.flipped(dimension).offset < dimension,
        axis.flipped(dimension).at(place) == dimension - 1 - axis.at(place),
{
    lemma_unit_product(axis.from_source_x as int, place.0);
    lemma_unit_product(axis.from_source_y as int, place.1);
    lemma_unit_product(-axis.from_source_x, place.0);
    lemma_unit_product(-axis.from_source_y, place.1);
}

/// The axis counted from its other end.
pub fn flipped_orientation_axis(axis: RgbaOrientationAxis, dimension: u32) -> (flipped:
    RgbaOrientationAxis)
    requires
        axis.wf(),
        axis.offset < dimension,
    ensures
        flipped == axis.flipped(dimension),
{
    RgbaOrientationAxis {
        from_source_x: -axis.from_source_x,
        from_source_y: -axis.from_source_y,
        offset: dimension as i64 - 1 - axis.offset,
    }
}

/// What the first `count` transforms come to: nothing where one of them
/// crops, or whether one of them turns or mirrors.
pub open spec fn orientation_outcome(
    transforms: Seq<PrimaryItemTransformProperty>,
    count: nat,
) -> Result<Option<bool>, TransformGuardError>
    decreases count,
{
    if count == 0 {
        Ok(Some(false))
    } else {
        match orientation_outcome(transforms, (count - 1) as nat) {
            Err(e) => Err(e),
            Ok(None) => Ok(None),
            Ok(Some(effective)) => match transforms[count - 1] {
                PrimaryItemTransformProperty::CleanAperture(_) => Ok(None),
                PrimaryItemTransformProperty::Rotation(rotation) => {
                    let degrees = rotation.rotation_ccw_degrees % 360;
                    if degrees == 0 {
                        Ok(Some(effective))
                    } else if degrees == 90 || degrees == 180 || degrees == 270 {
                        Ok(Some(true))
                    } else {
                        Err(
                            TransformGuardError::UnsupportedRotation {
                                rotation_ccw_degrees: rotation.rotation_ccw_degrees,
                            },
                        )
                    }
                },
                PrimaryItemTransformProperty::Mirror(_) => Ok(Some(true)),
            },
        }
    }
}

/// Once the outcome is a crop or an error, it stays so.
proof fn lemma_outcome_stays(
    transforms: Seq<PrimaryItemTransformProperty>,
    few: nat,
    many: nat,
)
    requires
        few <= many,
        orientation_outcome(transforms, few) is Err || orientation_outcome(transforms, few)
            == Ok::<Option<bool>, TransformGuardError>(None),
    ensures
        orientation_outcome(transforms, many) == orientation_outcome(transforms, few),
    decreases many - few,
{
    if few < many {
        lemma_outcome_stays(transforms, few, (many - 1) as nat);
    }
}

impl RgbaOrientationTransform {
    /// The map is that of the first `count` transforms of an image.
    pub open spec fn orients(
        self,
        transforms: Seq<PrimaryItemTransformProperty>,
        width: u32,
        height: u32,
        count: nat,
    ) -> bool {
        &&& self.source_width == width
        &&& self.source_height == height
        &&& transformed_size(transforms, width, height, count) == Ok::<
            (u32, u32),
            TransformGuardError,
        >((self.destination_width, self.destination_height))
        &&& self.x_axis.wf()
        &&& self.y_axis.wf()
        &&& self.x_axis.offset < self.destination_width
        &&& self.y_axis.offset < self.destination_height
        &&& self.x_axis.from_source_x == 0 <==> self.y_axis.from_source_y == 0
        &&& forall|place: (int, int)| #[trigger]
            destination_place(transforms, width, height, count, place) == Some(
                self.destination_of(place),
            )
        &&& width * height == self.destination_width * self.destination_height
    }

    /// One more transform.
    spec fn with(self, transform: PrimaryItemTransformProperty) -> RgbaOrientationTransform {
        let w = self.destination_width;
        let h = self.destination_height;
        match transform {
            PrimaryItemTransformProperty::CleanAperture(_) => self,
            PrimaryItemTransformProperty::Rotation(rotation) => {
                let degrees = rotation.rotation_ccw_degrees % 360;
                if degrees == 90 {
                    RgbaOrientationTransform {
                        destination_width: h,
                        destination_height: w,
                        x_axis: self.y_axis,
                        y_axis: self.x_axis.flipped(w),
                        ..self
                    }
                } else if degrees == 180 {
                    RgbaOrientationTransform {
                        x_axis: self.x_axis.flipped(w),
                        y_axis: self.y_axis.flipped(h),
                        ..self
                    }
                } else if degrees == 270 {
                    RgbaOrientationTransform {
                        destination_width: h,
                        destination_height: w,
                        x_axis: self.y_axis.flipped(h),
                        y_axis: self.x_axis,
                        ..self
                    }
                } else {
                    self
                }
            },
            PrimaryItemTransformProperty::Mirror(mirror) => match mirror.direction {
                ImageMirrorDirection::Horizontal => RgbaOrientationTransform {
                    x_axis: self.x_axis.flipped(w),
                    ..self
                },
                ImageMirrorDirection::Vertical => RgbaOrientationTransform {
                    y_axis: self.y_axis.flipped(h),
                    ..self
                },
            },
        }
    }
}

/// One more transform turns or mirrors the map.
proof fn lemma_orients_more(
    map: RgbaOrientationTransform,
    transforms: Seq<PrimaryItemTransformProperty>,
    width: u32,
    height: u32,
    count: nat,
)
    requires
        count < transforms.len(),
        map.orients(transforms, width, height, count),
        !(transforms[count as int] is CleanAperture),
        size_behind(transforms[count as int], map.destination_width, map.destination_height) is Ok,
    ensures
        map.with(transforms[count as int]).orients(transforms, width, height, count + 1),
{
    let transform = transforms[count as int];
    let w = map.destination_width;
    let h = map.destination_height;
    let next = map.with(transform);
    lemma_flipped(map.x_axis, w, (0, 0));
    lemma_flipped(map.y_axis, h, (0, 0));
    vstd::arithmetic::mul::lemma_mul_is_commutative(w as int, h as int);
    assert forall|place: (int, int)| #[trigger]
        destination_place(transforms, width, height, count + 1, place) == Some(
            next.destination_of(place),
        ) by {
        assert(destination_place(transforms, width, height, count, place) == Some(
            map.destination_of(place),
        ));
        lemma_flipped(map.x_axis, w, place);
        lemma_flipped(map.y_axis, h, place);
    }
}

/// A map that turns and mirrors goes onto the result, and back to where the
/// transforms take each pixel from.
pub proof fn lemma_orientation(
    map: RgbaOrientationTransform,
    transforms: Seq<PrimaryItemTransformProperty>,
    width: u32,
    height: u32,
    count: nat,
)
    requires
        map.orients(transforms, width, height, count),
    ensures
        map.wf(),
        forall|place: (int, int)|
            inside(place, map.destination_width, map.destination_height) ==> #[trigger] map.source_of(
                place,
            ) == source_place(transforms, width, height, count, place),
        forall|place: (int, int)|
            inside(place, width, height) ==> map.source_of(#[trigger] map.destination_of(place))
                == place,
{
    assert forall|place: (int, int)| inside(place, width, height) implies inside(
        #[trigger] map.destination_of(place),
        map.destination_width,
        map.destination_height,
    ) by {
        lemma_destination_place(transforms, width, height, count, place);
    }
    assert forall|place: (int, int)|
        map.source_of(#[trigger] map.destination_of(place)) == place by {
        lemma_there_and_back(map, place);
    }
    assert forall|place: (int, int)|
        inside(place, map.destination_width, map.destination_height) implies inside(
        #[trigger] map.source_of(place),
        width,
        height,
    ) && map.source_of(place) == source_place(transforms, width, height, count, place) by {
        lemma_source_place(transforms, width, height, count, place);
        let source = source_place(transforms, width, height, count, place);
        assert(destination_place(transforms, width, height, count, source) == Some(
            map.destination_of(source),
        ));
        lemma_there_and_back(map, source);
    }
}

/// Going through the map and back.
pub(crate) proof fn lemma_there_and_back(map: RgbaOrientationTransform, place: (int, int))
    requires
        map.x_axis.wf(),
        map.y_axis.wf(),
        map.x_axis.from_source_x == 0 <==> map.y_axis.from_source_y == 0,
    ensures
        map.source_of(map.destination_of(place)) == place,
{
    let (x, y) = place;
    let xx = map.x_axis.from_source_x as int;
    let xy = map.x_axis.from_source_y as int;
    let yx = map.y_axis.from_source_x as int;
    let yy = map.y_axis.from_source_y as int;
    lemma_unit_product(xx, x);
    lemma_unit_product(xy, y);
    lemma_unit_product(yx, x);
    lemma_unit_product(yy, y);
    let dx = xx * x + xy * y;
    let dy = yx * x + yy * y;
    lemma_unit_product(xx, dx);
    lemma_unit_product(xy, dx);
    lemma_unit_product(yx, dy);
    lemma_unit_product(yy, dy);
}

/// Going back through the map and there again.
pub(crate) proof fn lemma_back_and_there(map: RgbaOrientationTransform, place: (int, int))
    requires
        map.x_axis.wf(),
        map.y_axis.wf(),
        map.x_axis.from_source_x == 0 <==> map.y_axis.from_source_y == 0,
    ensures
        map.destination_of(map.source_of(place)) == place,
{
    let dx = place.0 - map.x_axis.offset;
    let dy = place.1 - map.y_axis.offset;
    let xx = map.x_axis.from_source_x as int;
    let xy = map.x_axis.from_source_y as int;
    let yx = map.y_axis.from_source_x as int;
    let yy = map.y_axis.from_source_y as int;
    lemma_unit_product(xx, dx);
    lemma_unit_product(yx, dy);
    lemma_unit_product(xy, dx);
    lemma_unit_product(yy, dy);
    let x = xx * dx + yx * dy;
    let y = xy * dx + yy * dy;
    lemma_unit_product(xx, x);
    lemma_unit_product(xy, y);
    lemma_unit_product(yx, x);
    lemma_unit_product(yy, y);
}

/// A map with one more transform.
fn oriented(map: RgbaOrientationTransform, transform: PrimaryItemTransformProperty) -> (next:
    RgbaOrientationTransform)
    requires
        map.x_axis.wf(),
        map.y_axis.wf(),
        map.x_axis.offset < map.destination_width,
        map.y_axis.offset < map.destination_height,
    ensures
        next == map.with(transform),
{
    let width: u32 = map.destination_width;
    let height: u32 = map.destination_height;
    let mut next: RgbaOrientationTransform = map;
    match transform {
        PrimaryItemTransformProperty::CleanAperture(_) => {},
        PrimaryItemTransformProperty::Rotation(rotation) => {
            match rotation.rotation_ccw_degrees % 360 {
                90 => {
                    let (x_axis, y_axis) = rotate_orientation_axes_90_ccw(
                        map.x_axis,
                        map.y_axis,
                        width,
                    );
                    next.x_axis = x_axis;
                    next.y_axis = y_axis;
                    next.destination_width = height;
                    next.destination_height = width;
                },
                180 => {
                    let (x_axis, y_axis) = rotate_orientation_axes_180(
                        map.x_axis,
                        map.y_axis,
                        width,
                        height,
                    );
                    next.x_axis = x_axis;
                    next.y_axis = y_axis;
                },
                270 => {
                    let (x_axis, y_axis) = rotate_orientation_axes_270_ccw(
                        map.x_axis,
                        map.y_axis,
                        height,
                    );
                    next.x_axis = x_axis;
                    next.y_axis = y_axis;
                    next.destination_width = height;
                    next.destination_height = width;
                },
                _ => {},
            }
        },
        PrimaryItemTransformProperty::Mirror(mirror) => {
            match mirror.direction {
                ImageMirrorDirection::Horizontal => {
                    next.x_axis = flipped_orientation_axis(map.x_axis, width);
                },
                ImageMirrorDirection::Vertical => {
                    next.y_axis = flipped_orientation_axis(map.y_axis, height);
                },
            }
        },
    }
    next
}

/// The axes behind a quarter turn against the clock.
fn rotate_orientation_axes_90_ccw(
    x_axis: RgbaOrientationAxis,
    y_axis: RgbaOrientationAxis,
    width: u32,
) -> (axes: (RgbaOrientationAxis, RgbaOrientationAxis))
    requires
        x_axis.wf(),
        x_axis.offset < width,
    ensures
        axes == (y_axis, x_axis.flipped(width)),
{
    (y_axis, flipped_orientation_axis(x_axis, width))
}

/// The axes behind three quarter turns against the clock.
fn rotate_orientation_axes_270_ccw(
    x_axis: RgbaOrientationAxis,
    y_axis: RgbaOrientationAxis,
    height: u32,
) -> (axes: (RgbaOrientationAxis, RgbaOrientationAxis))
    requires
        y_axis.wf(),
        y_axis.offset < height,
    ensures
        axes == (y_axis.flipped(height), x_axis),
{
    (flipped_orientation_axis(y_axis, height), x_axis)
}

/// The axes behind a half turn.
fn rotate_orientation_axes_180(
    x_axis: RgbaOrientationAxis,
    y_axis: RgbaOrientationAxis,
    width: u32,
    height: u32,
) -> (axes: (RgbaOrientationAxis, RgbaOrientationAxis))
    requires
        x_axis.wf(),
        x_axis.offset < width,
        y_axis.wf(),
        y_axis.offset < height,
    ensures
        axes == (x_axis.flipped(width), y_axis.flipped(height)),
{
    (flipped_orientation_axis(x_axis, width), flipped_orientation_axis(y_axis, height))
}

/// Puts turning and mirroring into one map: nothing where a transform crops
/// or where none turns or mirrors.
pub fn rgba_orientation_transform_from_primary_transforms(
    width: u32,
    height: u32,
    transforms: &[PrimaryItemTransformProperty],
) -> (result: Result<Option<RgbaOrientationTransform>, TransformGuardError>)
    ensures
        if width == 0 || height == 0 {
            result == Err::<Option<RgbaOrientationTransform>, TransformGuardError>(
                TransformGuardError::EmptyImageGeometry { width, height },
            )
        } else {
            match orientation_outcome(transforms@, transforms@.len()) {
                Err(e) => result == Err::<Option<RgbaOrientationTransform>, TransformGuardError>(e),
                Ok(Some(true)) => {
                    &&& result matches Ok(Some(map))
                    &&& map.orients(transforms@, width, height, transforms@.len())
                    &&& map.wf()
                },
                Ok(_) => result == Ok::<Option<RgbaOrientationTransform>, TransformGuardError>(
                    None,
                ),
            }
        },
{
    if width == 0 || height == 0 {
        return Err(TransformGuardError::EmptyImageGeometry { width, height });
    }
    let mut effective: bool = false;
    let mut map: RgbaOrientationTransform = RgbaOrientationTransform {
        source_width: width,
        source_height: height,
        destination_width: width,
        destination_height: height,
        x_axis: RgbaOrientationAxis { from_source_x: 1, from_source_y: 0, offset: 0 },
        y_axis: RgbaOrientationAxis { from_source_x: 0, from_source_y: 1, offset: 0 },
    };
    let mut k: usize = 0;
    while k < transforms.len()
        invariant
            k <= transforms@.len(),
            width > 0,
            height > 0,
            orientation_outcome(transforms@, k as nat) == Ok::<
                Option<bool>,
                TransformGuardError,
            >(Some(effective)),
            map.orients(transforms@, width, height, k as nat),
        decreases transforms@.len() - k,
    {
        let transform: PrimaryItemTransformProperty = transforms[k];
        match transform {
            PrimaryItemTransformProperty::CleanAperture(_) => {
                proof {
                    lemma_outcome_stays(transforms@, (k + 1) as nat, transforms@.len());
                }
                return Ok(None);
            },
            PrimaryItemTransformProperty::Rotation(rotation) => {
                match rotation.rotation_ccw_degrees % 360 {
                    0 => {},
                    90 | 180 | 270 => {
                        effective = true;
                    },
                    _ => {
                        proof {
                            lemma_outcome_stays(transforms@, (k + 1) as nat, transforms@.len());
                        }
                        return Err(
                            TransformGuardError::UnsupportedRotation {
                                rotation_ccw_degrees: rotation.rotation_ccw_degrees,
                            },
                        );
                    },
                }
            },
            PrimaryItemTransformProperty::Mirror(_) => {
                effective = true;
            },
        }
        proof {
            lemma_orients_more(map, transforms@, width, height, k as nat);
        }
        map = oriented(map, transform);
        k = k + 1;
    }
    if !effective {
        return Ok(None);
    }
    proof {
        lemma_orientation(map, transforms@, width, height, transforms@.len());
    }
    Ok(Some(map))
}

} // verus!
