//! Transforms of interleaved pixels.
use super::aperture::{clean_aperture_crop_bounds, CleanApertureCropBounds, ImageCleanApertureProperty};
#[allow(unused_imports)]
use super::aperture::crop_bounds;
#[allow(unused_imports)]
use super::mapping::{
    inside, lemma_places, lemma_size_error, lemma_source_place, place_before, size_behind,
    source_place, transformed_size, transforms_wf,
};
use super::mapping::{
    is_identity_rotation, ImageMirrorDirection, ImageMirrorProperty, ImageRotationProperty,
    PrimaryItemTransformProperty,
};
use crate::errors::TransformGuardError;
use vstd::prelude::*;

verus! {

/// Pixel `index` of interleaved samples.
pub open spec fn pixel_at<T>(samples: Seq<T>, channels: int, index: int) -> Seq<T> {
    samples.subrange(channels * index, channels * index + channels)
}

/// The place of a pixel in an image of `width` columns.
pub open spec fn place_of(index: int, width: int) -> (int, int) {
    (index % width, index / width)
}

/// The index of the pixel at a place of an image of `width` columns.
pub open spec fn index_of(place: (int, int), width: int) -> int {
    place.1 * width + place.0
}

/// Whether the first `count` pixels of an image of `width` columns are those
/// that stand at the places `from` of another image.
pub open spec fn gathered<T>(
    channels: int,
    source: Seq<T>,
    source_width: int,
    result: Seq<T>,
    width: int,
    count: int,
    from: spec_fn((int, int)) -> (int, int),
) -> bool {
    &&& result.len() == channels * count
    &&& forall|k: int|
        0 <= k < count ==> #[trigger] pixel_at(result, channels, k) == pixel_at(
            source,
            channels,
            index_of(from(place_of(k, width)), source_width),
        )
}

/// Where a sequence of transforms takes each pixel from.
pub open spec fn sources(
    transforms: Seq<PrimaryItemTransformProperty>,
    width: u32,
    height: u32,
    count: nat,
) -> spec_fn((int, int)) -> (int, int) {
    |place: (int, int)| source_place(transforms, width, height, count, place)
}

/// The index of a place inside an image, and the place of its index.
pub proof fn lemma_index_of(place: (int, int), width: int, height: int)
    requires
        0 <= place.0 < width,
        0 <= place.1 < height,
    ensures
        0 <= index_of(place, width) < width * height,
        place_of(index_of(place, width), width) == place,
        index_of(place, width) + 1 <= (place.1 + 1) * width <= width * height,
{
    let (x, y) = place;
    assert((y + 1) * width <= height * width) by (nonlinear_arith)
        requires
            y + 1 <= height,
            0 < width,
    ;
    assert((y + 1) * width == y * width + width) by (nonlinear_arith);
    assert(height * width == width * height) by (nonlinear_arith);
    assert(0 <= y * width) by (nonlinear_arith)
        requires
            0 <= y,
            0 < width,
    ;
    vstd::arithmetic::div_mod::lemma_fundamental_div_mod_converse(
        index_of(place, width),
        width,
        y,
        x,
    );
}

/// The place of an index lies inside the image.
pub proof fn lemma_place_of(index: int, width: int, height: int)
    requires
        0 <= index < width * height,
        0 <= width,
        0 <= height,
    ensures
        0 < width,
        0 <= place_of(index, width).0 < width,
        0 <= place_of(index, width).1 < height,
        index_of(place_of(index, width), width) == index,
{
    assert(width > 0) by (nonlinear_arith)
        requires
            0 <= index < width * height,
            0 <= width,
            0 <= height,
    ;
    vstd::arithmetic::div_mod::lemma_fundamental_div_mod(index, width);
    vstd::arithmetic::div_mod::lemma_div_pos_is_pos(index, width);
    vstd::arithmetic::mul::lemma_mul_is_commutative(width, index / width);
    assert(index / width < height) by (nonlinear_arith)
        requires
            index == width * (index / width) + index % width,
            0 <= index % width,
            index < width * height,
            width > 0,
    ;
}

/// The number of samples of an image.
pub open spec fn sample_count(width: u32, height: u32, channels: u64) -> Result<
    int,
    TransformGuardError,
> {
    let count = width * height * channels;
    if count > u64::MAX {
        Err(TransformGuardError::SampleCountOverflow { width, height })
    } else if count > usize::MAX {
        Err(TransformGuardError::SampleCountExceedsAddressSpace { width, height })
    } else {
        Ok(count)
    }
}

/// The number of samples of an image.
pub fn checked_interleaved_sample_count(width: u32, height: u32, channels: u64) -> (result: Result<
    usize,
    TransformGuardError,
>)
    ensures
        match sample_count(width, height, channels) {
            Ok(count) => result is Ok && result->Ok_0 == count,
            Err(e) => result == Err::<usize, TransformGuardError>(e),
        },
{
    proof {
        assert(0 <= width * height <= 0xffff_ffff * 0xffff_ffff) by (nonlinear_arith)
            requires
                0 <= width <= 0xffff_ffff,
                0 <= height <= 0xffff_ffff,
        ;
        assert(0 <= width * height * channels) by (nonlinear_arith)
            requires
                0 <= width * height,
        ;
    }
    let pixel_count: u64 = (width as u64) * (height as u64);
    match pixel_count.checked_mul(channels) {
        None => Err(TransformGuardError::SampleCountOverflow { width, height }),
        Some(count) => if count > usize::MAX as u64 {
            Err(TransformGuardError::SampleCountExceedsAddressSpace { width, height })
        } else {
            Ok(count as usize)
        },
    }
}

/// The number of samples of an image with opacity.
pub fn checked_rgba_sample_count(width: u32, height: u32) -> (result: Result<
    usize,
    TransformGuardError,
>)
    ensures
        match sample_count(width, height, 4) {
            Ok(count) => result is Ok && result->Ok_0 == count,
            Err(e) => result == Err::<usize, TransformGuardError>(e),
        },
{
    checked_interleaved_sample_count(width, height, 4)
}

/// The image that takes each of its pixels from a place of another.
pub(crate) fn gather_pixels<T: Copy, F: Fn(usize, usize) -> (usize, usize)>(
    channels: usize,
    source: &[T],
    source_size: (u32, u32),
    size: (u32, u32),
    from: F,
    Ghost(map): Ghost<spec_fn((int, int)) -> (int, int)>,
) -> (result: Vec<T>)
    requires
        0 < channels <= 4,
        source@.len() == channels * (source_size.0 * source_size.1),
        size.0 * size.1 * channels <= usize::MAX,
        forall|x: usize, y: usize|
            x < size.0 && y < size.1 ==> #[trigger] from.requires((x, y)) && inside(
                map((x as int, y as int)),
                source_size.0,
                source_size.1,
            ),
        forall|x: usize, y: usize, place: (usize, usize)| #[trigger]
            from.ensures((x, y), place) ==> (place.0 as int, place.1 as int) == map(
                (x as int, y as int),
            ),
    ensures
        gathered(
            channels as int,
            source@,
            source_size.0 as int,
            result@,
            size.0 as int,
            size.0 * size.1,
            map,
        ),
{
    let mut result: Vec<T> = Vec::new();
    let width: usize = size.0 as usize;
    let height: usize = size.1 as usize;
    let source_width: usize = source_size.0 as usize;
    let total: usize = source.len();
    let mut y: usize = 0;
    assert(0 * width == 0);
    while y < height
        invariant
            y <= height,
            width == size.0,
            height == size.1,
            source_width == source_size.0,
            0 < channels <= 4,
            total == source@.len(),
            source@.len() == channels * (source_size.0 * source_size.1),
            size.0 * size.1 * channels <= usize::MAX,
            forall|x: usize, y: usize|
                x < size.0 && y < size.1 ==> #[trigger] from.requires((x, y)) && inside(
                    map((x as int, y as int)),
                    source_size.0,
                    source_size.1,
                ),
            forall|x: usize, y: usize, place: (usize, usize)| #[trigger]
                from.ensures((x, y), place) ==> (place.0 as int, place.1 as int) == map(
                    (x as int, y as int),
                ),
            gathered(
                channels as int,
                source@,
                source_size.0 as int,
                result@,
                size.0 as int,
                y * width,
                map,
            ),
        decreases height - y,
    {
        let mut x: usize = 0;
        while x < width
            invariant
                x <= width,
                y < height,
                width == size.0,
                height == size.1,
                source_width == source_size.0,
                0 < channels <= 4,
                total == source@.len(),
                source@.len() == channels * (source_size.0 * source_size.1),
                size.0 * size.1 * channels <= usize::MAX,
                forall|x: usize, y: usize|
                    x < size.0 && y < size.1 ==> #[trigger] from.requires((x, y)) && inside(
                        map((x as int, y as int)),
                        source_size.0,
                        source_size.1,
                    ),
                forall|x: usize, y: usize, place: (usize, usize)| #[trigger]
                    from.ensures((x, y), place) ==> (place.0 as int, place.1 as int) == map(
                        (x as int, y as int),
                    ),
                gathered(
                    channels as int,
                    source@,
                    source_size.0 as int,
                    result@,
                    size.0 as int,
                    y * width + x,
                    map,
                ),
            decreases width - x,
        {
            assert(from.requires((x, y)));
            let (source_x, source_y) = from(x, y);
            let ghost index = index_of((source_x as int, source_y as int), source_width as int);
            let ghost here = (x as int, y as int);
            proof {
                assert(inside(map(here), source_size.0, source_size.1));
                lemma_index_of(
                    (source_x as int, source_y as int),
                    source_size.0 as int,
                    source_size.1 as int,
                );
                lemma_index_of(here, width as int, height as int);
                lemma_channel_bounds(
                    index,
                    source_size.0 * source_size.1,
                    channels as int,
                    source@.len() as int,
                );
                assert(0 <= source_y * source_width) by (nonlinear_arith);
                assert(index <= channels * index) by (nonlinear_arith)
                    requires
                        0 <= index,
                        1 <= channels,
                ;
                vstd::arithmetic::mul::lemma_mul_is_commutative(channels as int, index);
            }
            let start: usize = (source_y * source_width + source_x) * channels;
            let ghost before = result@;
            let mut c: usize = 0;
            while c < channels
                invariant
                    c <= channels,
                    channels <= 4,
                    total == source@.len(),
                    start + channels <= total,
                    result@ == before + source@.subrange(start as int, start + c),
                decreases channels - c,
            {
                result.push(source[start + c]);
                c = c + 1;
                assert(result@ =~= before + source@.subrange(start as int, start + c));
            }
            proof {
                let count = y * width + x;
                assert(count == index_of(here, width as int));
                assert(start == channels * index);
                assert(before.len() == channels * count);
                assert(channels * (count + 1) == channels * count + channels) by (nonlinear_arith);
                assert forall|k: int| 0 <= k < count + 1 implies #[trigger] pixel_at(
                    result@,
                    channels as int,
                    k,
                ) == pixel_at(
                    source@,
                    channels as int,
                    index_of(map(place_of(k, size.0 as int)), source_size.0 as int),
                ) by {
                    if k < count {
                        lemma_channel_bounds(k, count, channels as int, before.len() as int);
                        assert(pixel_at(result@, channels as int, k) =~= pixel_at(
                            before,
                            channels as int,
                            k,
                        ));
                    } else {
                        assert(pixel_at(result@, channels as int, k) =~= pixel_at(
                            source@,
                            channels as int,
                            index,
                        ));
                    }
                }
            }
            x = x + 1;
        }
        proof {
            assert(y * width + width == (y + 1) * width) by (nonlinear_arith);
        }
        y = y + 1;
    }
    proof {
        vstd::arithmetic::mul::lemma_mul_is_commutative(height as int, width as int);
    }
    result
}

/// The samples of a pixel stand within those of the image.
pub proof fn lemma_channel_bounds(index: int, pixels: int, channels: int, samples: int)
    requires
        0 <= index < pixels,
        0 < channels,
        samples == channels * pixels,
    ensures
        0 <= channels * index,
        channels * index + channels <= samples,
{
    assert(0 <= channels * index && channels * index + channels <= channels * pixels)
        by (nonlinear_arith)
        requires
            0 <= index < pixels,
            0 < channels,
    ;
}

/// Taking pixels twice is taking them once.
pub proof fn lemma_gathered_twice<T>(
    channels: int,
    source: Seq<T>,
    source_width: int,
    middle: Seq<T>,
    middle_size: (u32, u32),
    result: Seq<T>,
    size: (u32, u32),
    first: spec_fn((int, int)) -> (int, int),
    second: spec_fn((int, int)) -> (int, int),
    both: spec_fn((int, int)) -> (int, int),
)
    requires
        channels > 0,
        gathered(
            channels,
            source,
            source_width,
            middle,
            middle_size.0 as int,
            middle_size.0 * middle_size.1,
            first,
        ),
        gathered(
            channels,
            middle,
            middle_size.0 as int,
            result,
            size.0 as int,
            size.0 * size.1,
            second,
        ),
        forall|place: (int, int)|
            inside(place, size.0, size.1) ==> inside(
                #[trigger] second(place),
                middle_size.0,
                middle_size.1,
            ) && both(place) == first(second(place)),
    ensures
        gathered(channels, source, source_width, result, size.0 as int, size.0 * size.1, both),
{
    assert forall|k: int| 0 <= k < size.0 * size.1 implies #[trigger] pixel_at(result, channels, k)
        == pixel_at(
        source,
        channels,
        index_of(both(place_of(k, size.0 as int)), source_width),
    ) by {
        lemma_place_of(k, size.0 as int, size.1 as int);
        let place = place_of(k, size.0 as int);
        let between = second(place);
        lemma_index_of(between, middle_size.0 as int, middle_size.1 as int);
        let m = index_of(between, middle_size.0 as int);
        assert(pixel_at(middle, channels, m) == pixel_at(
            source,
            channels,
            index_of(first(place_of(m, middle_size.0 as int)), source_width),
        ));
    }
}

/// An image takes its pixels from where they stand.
pub proof fn lemma_gathered_identity<T>(channels: int, source: Seq<T>, size: (u32, u32))
    requires
        channels > 0,
        source.len() == channels * (size.0 * size.1),
    ensures
        gathered(
            channels,
            source,
            size.0 as int,
            source,
            size.0 as int,
            size.0 * size.1,
            |place: (int, int)| place,
        ),
{
    assert forall|k: int| 0 <= k < size.0 * size.1 implies #[trigger] pixel_at(source, channels, k)
        == pixel_at(source, channels, index_of(place_of(k, size.0 as int), size.0 as int)) by {
        lemma_place_of(k, size.0 as int, size.1 as int);
    }
}

/// Where one transform takes each pixel from.
pub open spec fn one_source(
    transform: PrimaryItemTransformProperty,
    width: u32,
    height: u32,
) -> spec_fn((int, int)) -> (int, int) {
    |place: (int, int)| place_before(transform, width, height, place)
}

/// A rotation by an angle.
pub open spec fn rotation_by(degrees: u16) -> PrimaryItemTransformProperty {
    PrimaryItemTransformProperty::Rotation(ImageRotationProperty { rotation_ccw_degrees: degrees })
}

/// A mirroring in a direction.
pub open spec fn mirror_in(direction: ImageMirrorDirection) -> PrimaryItemTransformProperty {
    PrimaryItemTransformProperty::Mirror(ImageMirrorProperty { direction })
}

/// Rotates an image against the clock.
pub fn rotate_rgba_ccw<T: Copy>(
    width: u32,
    height: u32,
    pixels: &[T],
    rotation_ccw_degrees: u16,
) -> (result: Result<(u32, u32, Vec<T>), TransformGuardError>)
    requires
        pixels@.len() == 4 * (width * height),
    ensures
        match size_behind(rotation_by(rotation_ccw_degrees), width, height) {
            Err(e) => result == Err::<(u32, u32, Vec<T>), TransformGuardError>(e),
            Ok((w, h)) => result is Ok && result->Ok_0.0 == w && result->Ok_0.1 == h && gathered(
                4,
                pixels@,
                width as int,
                result->Ok_0.2@,
                w as int,
                w * h,
                one_source(rotation_by(rotation_ccw_degrees), width, height),
            ),
        },
{
    let ghost total = pixels.len();
    let normalized: u16 = rotation_ccw_degrees % 360;
    let ghost rotation = rotation_by(rotation_ccw_degrees);
    let ghost map = one_source(rotation, width, height);
    let size: (u32, u32) = match normalized {
        90 | 270 => (height, width),
        0 | 180 => (width, height),
        _ => {
            return Err(TransformGuardError::UnsupportedRotation { rotation_ccw_degrees });
        },
    };
    let from = |x: usize, y: usize| -> (place: (usize, usize))
        requires
            x < size.0 && y < size.1,
            size_behind(rotation, width, height) == Ok::<(u32, u32), TransformGuardError>(size),
        ensures
            (place.0 as int, place.1 as int) == map((x as int, y as int)),
        {
            match normalized {
                90 => (width as usize - 1 - y, x),
                180 => (width as usize - 1 - x, height as usize - 1 - y),
                270 => (y, height as usize - 1 - x),
                _ => (x, y),
            }
        };
    proof {
        assert forall|x: usize, y: usize| x < size.0 && y < size.1 implies #[trigger] from.requires(
            (x, y),
        ) && inside(map((x as int, y as int)), width, height) by {
            lemma_places(rotation, width, height, (x as int, y as int));
        }
        vstd::arithmetic::mul::lemma_mul_is_commutative(width as int, height as int);
    }
    let rotated: Vec<T> = gather_pixels(4, pixels, (width, height), size, from, Ghost(map));
    Ok((size.0, size.1, rotated))
}

/// Mirrors an image.
pub fn mirror_rgba<T: Copy>(
    width: u32,
    height: u32,
    pixels: &[T],
    direction: ImageMirrorDirection,
) -> (mirrored: Vec<T>)
    requires
        pixels@.len() == 4 * (width * height),
    ensures
        gathered(
            4,
            pixels@,
            width as int,
            mirrored@,
            width as int,
            width * height,
            one_source(mirror_in(direction), width, height),
        ),
{
    let ghost total = pixels.len();
    let ghost mirror = mirror_in(direction);
    let ghost map = one_source(mirror, width, height);
    let from = |x: usize, y: usize| -> (place: (usize, usize))
        requires
            x < width && y < height,
        ensures
            (place.0 as int, place.1 as int) == map((x as int, y as int)),
        {
            match direction {
                ImageMirrorDirection::Horizontal => (width as usize - 1 - x, y),
                ImageMirrorDirection::Vertical => (x, height as usize - 1 - y),
            }
        };
    proof {
        assert forall|x: usize, y: usize| x < width && y < height implies #[trigger] from.requires(
            (x, y),
        ) && inside(map((x as int, y as int)), width, height) by {
            lemma_places(mirror, width, height, (x as int, y as int));
        }
    }
    gather_pixels(4, pixels, (width, height), (width, height), from, Ghost(map))
}

/// Crops an image to its clean aperture.
pub fn crop_rgba_by_clean_aperture<T: Copy>(
    width: u32,
    height: u32,
    pixels: Vec<T>,
    clean_aperture: ImageCleanApertureProperty,
) -> (result: Result<(u32, u32, Vec<T>), TransformGuardError>)
    requires
        clean_aperture.wf(),
    ensures
        match sample_count(width, height, 4) {
            Err(e) => result == Err::<(u32, u32, Vec<T>), TransformGuardError>(e),
            Ok(expected) => if pixels@.len() != expected {
                result == Err::<(u32, u32, Vec<T>), TransformGuardError>(
                    TransformGuardError::RgbaSampleCountMismatch {
                        stage: "clean-aperture input",
                        actual: pixels@.len() as usize,
                        expected: expected as usize,
                        width,
                        height,
                    },
                )
            } else {
                match crop_bounds(width, height, clean_aperture) {
                    Err(e) => result == Err::<(u32, u32, Vec<T>), TransformGuardError>(e),
                    Ok(crop) => {
                        &&& result is Ok
                        &&& result->Ok_0.0 == crop.width
                        &&& result->Ok_0.1 == crop.height
                        &&& gathered(
                            4,
                            pixels@,
                            width as int,
                            result->Ok_0.2@,
                            crop.width as int,
                            crop.width * crop.height,
                            one_source(
                                PrimaryItemTransformProperty::CleanAperture(clean_aperture),
                                width,
                                height,
                            ),
                        )
                    },
                }
            },
        },
{
    let expected: usize = checked_rgba_sample_count(width, height)?;
    if pixels.len() != expected {
        return Err(
            TransformGuardError::RgbaSampleCountMismatch {
                stage: "clean-aperture input",
                actual: pixels.len(),
                expected,
                width,
                height,
            },
        );
    }
    let crop: CleanApertureCropBounds = clean_aperture_crop_bounds(width, height, clean_aperture)?;
    let ghost clap = PrimaryItemTransformProperty::CleanAperture(clean_aperture);
    let ghost map = one_source(clap, width, height);
    if crop.left == 0 && crop.top == 0 && crop.width == width && crop.height == height {
        proof {
            lemma_gathered_identity(4, pixels@, (width, height));
            assert forall|k: int| 0 <= k < width * height implies #[trigger] pixel_at(pixels@, 4, k)
                == pixel_at(
                pixels@,
                4,
                index_of(map(place_of(k, width as int)), width as int),
            ) by {
                lemma_place_of(k, width as int, height as int);
            }
        }
        return Ok((width, height, pixels));
    }
    let left: usize = crop.left as usize;
    let top: usize = crop.top as usize;
    let from = |x: usize, y: usize| -> (place: (usize, usize))
        requires
            x < crop.width && y < crop.height,
            crop.within(width, height),
            crop_bounds(width, height, clean_aperture) == Ok::<
                CleanApertureCropBounds,
                TransformGuardError,
            >(crop),
            left == crop.left && top == crop.top,
        ensures
            (place.0 as int, place.1 as int) == map((x as int, y as int)),
        { (x + left, y + top) };
    proof {
        assert forall|x: usize, y: usize| x < crop.width && y < crop.height implies
            #[trigger] from.requires((x, y)) && inside(
            map((x as int, y as int)),
            width,
            height,
        ) by {
            lemma_places(clap, width, height, (x as int, y as int));
        }
        lemma_places(clap, width, height, (0, 0));
        assert(crop.width * crop.height * 4 <= width * height * 4);
    }
    let cropped: Vec<T> = gather_pixels(
        4,
        pixels.as_slice(),
        (width, height),
        (crop.width, crop.height),
        from,
        Ghost(map),
    );
    Ok((crop.width, crop.height, cropped))
}

/// What an image is after its transforms: the pixels come from where they
/// stood.
pub open spec fn transformed<T>(
    channels: int,
    transforms: Seq<PrimaryItemTransformProperty>,
    width: u32,
    height: u32,
    pixels: Seq<T>,
    result: (u32, u32, Seq<T>),
    count: nat,
) -> bool {
    &&& transformed_size(transforms, width, height, count) == Ok::<
        (u32, u32),
        TransformGuardError,
    >((result.0, result.1))
    &&& gathered(
        channels,
        pixels,
        width as int,
        result.2,
        result.0 as int,
        result.0 * result.1,
        sources(transforms, width, height, count),
    )
}

/// One more transform.
proof fn lemma_one_more<T>(
    transforms: Seq<PrimaryItemTransformProperty>,
    width: u32,
    height: u32,
    pixels: Seq<T>,
    middle: (u32, u32, Seq<T>),
    result: (u32, u32, Seq<T>),
    count: nat,
)
    requires
        count < transforms.len(),
        transformed(4, transforms, width, height, pixels, middle, count),
        size_behind(transforms[count as int], middle.0, middle.1) == Ok::<
            (u32, u32),
            TransformGuardError,
        >((result.0, result.1)),
        gathered(
            4,
            middle.2,
            middle.0 as int,
            result.2,
            result.0 as int,
            result.0 * result.1,
            one_source(transforms[count as int], middle.0, middle.1),
        ),
    ensures
        transformed(4, transforms, width, height, pixels, result, count + 1),
{
    let first = sources(transforms, width, height, count);
    let second = one_source(transforms[count as int], middle.0, middle.1);
    let both = sources(transforms, width, height, count + 1);
    assert forall|place: (int, int)| inside(place, result.0, result.1) implies inside(
        #[trigger] second(place),
        middle.0,
        middle.1,
    ) && both(place) == first(second(place)) by {
        lemma_places(transforms[count as int], middle.0, middle.1, place);
    }
    lemma_gathered_twice(
        4,
        pixels,
        width as int,
        middle.2,
        (middle.0, middle.1),
        result.2,
        (result.0, result.1),
        first,
        second,
        both,
    );
}

/// Applies transforms to an image, one after the other.
pub fn apply_primary_item_transforms_rgba<T: Copy>(
    width: u32,
    height: u32,
    pixels: Vec<T>,
    transforms: &[PrimaryItemTransformProperty],
) -> (result: Result<(u32, u32, Vec<T>), TransformGuardError>)
    requires
        transforms_wf(transforms@),
    ensures
        match sample_count(width, height, 4) {
            Err(e) => result == Err::<(u32, u32, Vec<T>), TransformGuardError>(e),
            Ok(expected) => if pixels@.len() != expected {
                result == Err::<(u32, u32, Vec<T>), TransformGuardError>(
                    TransformGuardError::RgbaSampleCountMismatch {
                        stage: "transform input",
                        actual: pixels@.len() as usize,
                        expected: expected as usize,
                        width,
                        height,
                    },
                )
            } else {
                match transformed_size(transforms@, width, height, transforms@.len()) {
                    Err(e) => result == Err::<(u32, u32, Vec<T>), TransformGuardError>(e),
                    Ok(_) => result is Ok && transformed(
                        4,
                        transforms@,
                        width,
                        height,
                        pixels@,
                        (result->Ok_0.0, result->Ok_0.1, result->Ok_0.2@),
                        transforms@.len(),
                    ),
                }
            },
        },
{
    let expected: usize = checked_rgba_sample_count(width, height)?;
    if pixels.len() != expected {
        return Err(
            TransformGuardError::RgbaSampleCountMismatch {
                stage: "transform input",
                actual: pixels.len(),
                expected,
                width,
                height,
            },
        );
    }
    let ghost source = pixels@;
    let mut current_width: u32 = width;
    let mut current_height: u32 = height;
    let mut current_pixels: Vec<T> = pixels;
    proof {
        lemma_gathered_identity(4, source, (width, height));
        assert(gathered(
            4,
            source,
            width as int,
            source,
            width as int,
            width * height,
            sources(transforms@, width, height, 0),
        )) by {
            assert forall|k: int| 0 <= k < width * height implies #[trigger] pixel_at(source, 4, k)
                == pixel_at(
                source,
                4,
                index_of(
                    (sources(transforms@, width, height, 0))(place_of(k, width as int)),
                    width as int,
                ),
            ) by {
                lemma_place_of(k, width as int, height as int);
            }
        }
    }
    let mut k: usize = 0;
    while k < transforms.len()
        invariant
            k <= transforms@.len(),
            transforms_wf(transforms@),
            expected == width * height * 4,
            source == pixels@,
            source.len() == expected,
            sample_count(width, height, 4) == Ok::<int, TransformGuardError>(expected as int),
            transformed(
                4,
                transforms@,
                width,
                height,
                source,
                (current_width, current_height, current_pixels@),
                k as nat,
            ),
        decreases transforms@.len() - k,
    {
        let transform: PrimaryItemTransformProperty = transforms[k];
        let ghost middle = (current_width, current_height, current_pixels@);
        proof {
            assert(transforms@[k as int].wf());
            lemma_source_place(transforms@, width, height, k as nat, (0, 0));
            assert(current_width * current_height * 4 <= width * height * 4);
            if size_behind(transform, current_width, current_height) is Err {
                lemma_size_error(transforms@, width, height, (k + 1) as nat, transforms@.len());
            }
        }
        match transform {
            PrimaryItemTransformProperty::CleanAperture(clean_aperture) => {
                let (next_width, next_height, next_pixels) = crop_rgba_by_clean_aperture(
                    current_width,
                    current_height,
                    current_pixels,
                    clean_aperture,
                )?;
                current_width = next_width;
                current_height = next_height;
                current_pixels = next_pixels;
            },
            PrimaryItemTransformProperty::Rotation(rotation) => {
                if is_identity_rotation(rotation.rotation_ccw_degrees) {
                    proof {
                        lemma_still(current_pixels@, current_width, current_height, transform);
                    }
                } else {
                    let (next_width, next_height, next_pixels) = rotate_rgba_ccw(
                        current_width,
                        current_height,
                        current_pixels.as_slice(),
                        rotation.rotation_ccw_degrees,
                    )?;
                    current_width = next_width;
                    current_height = next_height;
                    current_pixels = next_pixels;
                }
            },
            PrimaryItemTransformProperty::Mirror(mirror) => {
                current_pixels = mirror_rgba(
                    current_width,
                    current_height,
                    current_pixels.as_slice(),
                    mirror.direction,
                );
            },
        }
        proof {
            lemma_one_more(
                transforms@,
                width,
                height,
                source,
                middle,
                (current_width, current_height, current_pixels@),
                k as nat,
            );
        }
        k = k + 1;
    }
    Ok((current_width, current_height, current_pixels))
}

/// A full turn leaves an image as it is.
proof fn lemma_still<T>(
    pixels: Seq<T>,
    width: u32,
    height: u32,
    transform: PrimaryItemTransformProperty,
)
    requires
        pixels.len() == 4 * (width * height),
        transform matches PrimaryItemTransformProperty::Rotation(rotation)
            && rotation.rotation_ccw_degrees % 360 == 0,
    ensures
        gathered(
            4,
            pixels,
            width as int,
            pixels,
            width as int,
            width * height,
            one_source(transform, width, height),
        ),
{
    assert forall|k: int| 0 <= k < width * height implies #[trigger] pixel_at(pixels, 4, k)
        == pixel_at(
        pixels,
        4,
        index_of(
            (one_source(transform, width, height))(place_of(k, width as int)),
            width as int,
        ),
    ) by {
        lemma_place_of(k, width as int, height as int);
    }
}

} // verus!
