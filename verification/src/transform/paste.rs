//! Pasting tiles onto a canvas.
#[allow(unused_imports)]
use super::mapping::inside;
use super::mapping::PrimaryItemTransformProperty;
use super::orientation::RgbaOrientationTransform;
#[allow(unused_imports)]
use super::orientation::lemma_orientation;
#[allow(unused_imports)]
use super::pixels::{
    gathered, index_of, lemma_channel_bounds, lemma_index_of, lemma_place_of, pixel_at, place_of,
    sources,
};
#[allow(unused_imports)]
use crate::errors::bad_frame;
use super::plan::RgbaTransformPlan;
#[allow(unused_imports)]
use super::plan::lemma_plan_places;
use crate::errors::{invalid_frame, DecodeHeicError};
use crate::output::{ByteOrder, RgbaSampleOutput};
use crate::text::{Arg, Detail};
use vstd::prelude::*;

verus! {

/// Whether a tile at `origin` covers a place.
pub open spec fn covers(origin: (u32, u32), size: (u32, u32), place: (int, int)) -> bool {
    origin.0 <= place.0 < origin.0 + size.0 && origin.1 <= place.1 < origin.1 + size.1
}

/// A canvas with the first `rows` rows of a tile pasted onto it, and the first
/// `columns` pixels of the next. Pixel `i` of the canvas shows the place
/// `from` of it; those that the tile does not cover stay.
pub open spec fn pasted_part<T>(
    channels: int,
    source: Seq<T>,
    size: (u32, u32),
    canvas: Seq<T>,
    canvas_width: int,
    origin: (u32, u32),
    from: spec_fn((int, int)) -> (int, int),
    rows: int,
    columns: int,
) -> Seq<T> {
    Seq::new(
        canvas.len(),
        |i: int|
            {
                let place = from(place_of(i / channels, canvas_width));
                let x = place.0 - origin.0;
                let y = place.1 - origin.1;
                if covers(origin, size, place) && (y < rows || (y == rows && x < columns)) {
                    source[channels * index_of((x, y), size.0 as int) + i % channels]
                } else {
                    canvas[i]
                }
            },
    )
}

/// A canvas with a tile pasted onto it.
pub open spec fn pasted<T>(
    channels: int,
    source: Seq<T>,
    size: (u32, u32),
    canvas: Seq<T>,
    canvas_width: int,
    origin: (u32, u32),
    from: spec_fn((int, int)) -> (int, int),
) -> Seq<T> {
    pasted_part(channels, source, size, canvas, canvas_width, origin, from, size.1 as int, 0)
}

/// Every pixel shows its own place.
pub open spec fn own_place() -> spec_fn((int, int)) -> (int, int) {
    |place: (int, int)| place
}

/// The places that the pixels of a turned canvas show.
pub open spec fn turned(map: RgbaOrientationTransform) -> spec_fn((int, int)) -> (int, int) {
    |place: (int, int)| map.source_of(place)
}

/// A sample's pixel and channel.
pub proof fn lemma_sample(index: int, pixel: int, channel: int, channels: int)
    requires
        0 <= pixel,
        0 <= channel < channels,
        index == channels * pixel + channel,
    ensures
        index / channels == pixel,
        index % channels == channel,
{
    vstd::arithmetic::mul::lemma_mul_is_commutative(channels, pixel);
    vstd::arithmetic::div_mod::lemma_fundamental_div_mod_converse(index, channels, pixel, channel);
}

/// One more pixel of a tile.
proof fn lemma_one_more_pixel<T>(
    channels: int,
    source: Seq<T>,
    size: (u32, u32),
    canvas: Seq<T>,
    canvas_size: (u32, u32),
    origin: (u32, u32),
    from: spec_fn((int, int)) -> (int, int),
    rows: int,
    columns: int,
    target: (int, int),
    before: Seq<T>,
    after: Seq<T>,
)
    requires
        channels > 0,
        canvas.len() == channels * (canvas_size.0 * canvas_size.1),
        inside(target, canvas_size.0, canvas_size.1),
        0 <= rows < size.1,
        0 <= columns < size.0,
        from(target) == (origin.0 + columns, origin.1 + rows),
        forall|place: (int, int)|
            inside(place, canvas_size.0, canvas_size.1) && #[trigger] from(place) == from(target)
                ==> place == target,
        before == pasted_part(
            channels,
            source,
            size,
            canvas,
            canvas_size.0 as int,
            origin,
            from,
            rows,
            columns,
        ),
        after.len() == canvas.len(),
        forall|i: int|
            0 <= i < canvas.len() ==> #[trigger] after[i] == (if i / channels == index_of(
                target,
                canvas_size.0 as int,
            ) {
                source[channels * index_of((columns, rows), size.0 as int) + i % channels]
            } else {
                before[i]
            }),
    ensures
        after == pasted_part(
            channels,
            source,
            size,
            canvas,
            canvas_size.0 as int,
            origin,
            from,
            rows,
            columns + 1,
        ),
{
    let expected = pasted_part(
        channels,
        source,
        size,
        canvas,
        canvas_size.0 as int,
        origin,
        from,
        rows,
        columns + 1,
    );
    let width = canvas_size.0 as int;
    let height = canvas_size.1 as int;
    lemma_index_of(target, width, height);
    assert forall|i: int| 0 <= i < canvas.len() implies after[i] == expected[i] by {
        let pixel = i / channels;
        vstd::arithmetic::div_mod::lemma_fundamental_div_mod(i, channels);
        vstd::arithmetic::div_mod::lemma_div_pos_is_pos(i, channels);
        assert(pixel < width * height) by (nonlinear_arith)
            requires
                i == channels * pixel + i % channels,
                0 <= i % channels,
                i < channels * (width * height),
                channels > 0,
        ;
        lemma_place_of(pixel, width, height);
        let place = place_of(pixel, width);
        if pixel == index_of(target, width) {
            assert(place == target);
        } else {
            assert(place != target);
            assert(from(place) != from(target));
        }
    }
    assert(after =~= expected);
}

/// Whether `place` is where the place `at` of the canvas goes, if it goes
/// anywhere.
pub open spec fn leads(
    place: Option<(usize, usize)>,
    at: (usize, usize),
    destination_size: (u32, u32),
    from: spec_fn((int, int)) -> (int, int),
) -> bool {
    match place {
        Some((x, y)) => inside((x as int, y as int), destination_size.0, destination_size.1)
            && from((x as int, y as int)) == (at.0 as int, at.1 as int),
        None => forall|other: (int, int)|
            inside(other, destination_size.0, destination_size.1) ==> #[trigger] from(other) != (
                at.0 as int,
                at.1 as int,
            ),
    }
}

/// A pixel that goes nowhere changes nothing.
proof fn lemma_no_pixel<T>(
    channels: int,
    source: Seq<T>,
    size: (u32, u32),
    canvas: Seq<T>,
    canvas_size: (u32, u32),
    origin: (u32, u32),
    from: spec_fn((int, int)) -> (int, int),
    rows: int,
    columns: int,
)
    requires
        channels > 0,
        canvas.len() == channels * (canvas_size.0 * canvas_size.1),
        forall|place: (int, int)|
            inside(place, canvas_size.0, canvas_size.1) ==> #[trigger] from(place) != (
                origin.0 + columns,
                origin.1 + rows,
            ),
    ensures
        pasted_part(
            channels,
            source,
            size,
            canvas,
            canvas_size.0 as int,
            origin,
            from,
            rows,
            columns + 1,
        ) == pasted_part(
            channels,
            source,
            size,
            canvas,
            canvas_size.0 as int,
            origin,
            from,
            rows,
            columns,
        ),
{
    let more = pasted_part(
        channels,
        source,
        size,
        canvas,
        canvas_size.0 as int,
        origin,
        from,
        rows,
        columns + 1,
    );
    let same = pasted_part(
        channels,
        source,
        size,
        canvas,
        canvas_size.0 as int,
        origin,
        from,
        rows,
        columns,
    );
    assert forall|i: int| 0 <= i < canvas.len() implies more[i] == same[i] by {
        let pixels = canvas_size.0 * canvas_size.1;
        vstd::arithmetic::div_mod::lemma_fundamental_div_mod(i, channels);
        assert(0 <= i / channels < pixels) by (nonlinear_arith)
            requires
                0 <= i < channels * pixels,
                channels > 0,
        ;
        lemma_place_of(i / channels, canvas_size.0 as int, canvas_size.1 as int);
        assert(from(place_of(i / channels, canvas_size.0 as int)) != (
            origin.0 + columns,
            origin.1 + rows,
        ));
    }
    assert(more =~= same);
}

/// Pastes the pixels of a tile one by one: `to` says where the pixel of the
/// canvas at a place stands, and `from` which place it shows.
pub(crate) fn paste_pixels<
    T: Copy,
    O: RgbaSampleOutput<T> + ?Sized,
    F: Fn(usize, usize) -> Option<(usize, usize)>,
>(
    channels: usize,
    source: &[T],
    size: (u32, u32),
    destination: &mut O,
    order: ByteOrder,
    destination_size: (u32, u32),
    canvas_size: (u32, u32),
    origin: (u32, u32),
    to: F,
    Ghost(from): Ghost<spec_fn((int, int)) -> (int, int)>,
)
    requires
        0 < channels <= 4,
        source@.len() == channels * (size.0 * size.1),
        old(destination).samples(order).len() == channels * (destination_size.0 * destination_size.1),
        origin.0 < canvas_size.0,
        origin.1 < canvas_size.1,
        forall|x: usize, y: usize|
            x < canvas_size.0 && y < canvas_size.1 ==> #[trigger] to.requires((x, y)),
        forall|x: usize, y: usize, place: Option<(usize, usize)>| #[trigger]
            to.ensures((x, y), place) ==> leads(place, (x, y), destination_size, from),
        forall|place: (int, int)|
            inside(place, destination_size.0, destination_size.1) ==> inside(
                #[trigger] from(place),
                canvas_size.0,
                canvas_size.1,
            ),
        forall|first: (int, int), second: (int, int)|
            inside(first, destination_size.0, destination_size.1) && inside(
                second,
                destination_size.0,
                destination_size.1,
            ) && #[trigger] from(first) == #[trigger] from(second) ==> first == second,
    ensures
        final(destination).rest() == old(destination).rest(),
        final(destination).samples(order) == pasted(
            channels as int,
            source@,
            size,
            old(destination).samples(order),
            destination_size.0 as int,
            origin,
            from,
        ),
{
    let ghost canvas = destination.samples(order);
    let source_total: usize = source.len();
    let total: usize = destination.sample_len();
    let left_columns: u32 = canvas_size.0 - origin.0;
    let left_rows: u32 = canvas_size.1 - origin.1;
    let copy_width: u32 = if size.0 < left_columns {
        size.0
    } else {
        left_columns
    };
    let copy_rows: u32 = if size.1 < left_rows {
        size.1
    } else {
        left_rows
    };
    let mut row: u32 = 0;
    proof {
        assert(canvas =~= pasted_part(
            channels as int,
            source@,
            size,
            canvas,
            destination_size.0 as int,
            origin,
            from,
            0,
            0,
        ));
    }
    while row < copy_rows
        invariant
            row <= copy_rows,
            copy_rows <= size.1,
            origin.1 + copy_rows <= canvas_size.1,
            copy_width <= size.0,
            origin.0 + copy_width <= canvas_size.0,
            copy_width == size.0 || origin.0 + copy_width == canvas_size.0,
            0 < channels <= 4,
            source_total == source@.len(),
            total == canvas.len(),
            source@.len() == channels * (size.0 * size.1),
            canvas.len() == channels * (destination_size.0 * destination_size.1),
            destination.samples(order).len() == canvas.len(),
            destination.rest() == old(destination).rest(),
            forall|x: usize, y: usize|
                x < canvas_size.0 && y < canvas_size.1 ==> #[trigger] to.requires((x, y)),
            forall|x: usize, y: usize, place: Option<(usize, usize)>| #[trigger]
                to.ensures((x, y), place) ==> leads(place, (x, y), destination_size, from),
            forall|place: (int, int)|
                inside(place, destination_size.0, destination_size.1) ==> inside(
                    #[trigger] from(place),
                    canvas_size.0,
                    canvas_size.1,
                ),
            forall|first: (int, int), second: (int, int)|
                inside(first, destination_size.0, destination_size.1) && inside(
                    second,
                    destination_size.0,
                    destination_size.1,
                ) && #[trigger] from(first) == #[trigger] from(second) ==> first == second,
            destination.samples(order) == pasted_part(
                channels as int,
                source@,
                size,
                canvas,
                destination_size.0 as int,
                origin,
                from,
                row as int,
                0,
            ),
        decreases copy_rows - row,
    {
        let mut column: u32 = 0;
        while column < copy_width
            invariant
                column <= copy_width,
                row < copy_rows,
                copy_rows <= size.1,
                origin.1 + copy_rows <= canvas_size.1,
                copy_width <= size.0,
                origin.0 + copy_width <= canvas_size.0,
                0 < channels <= 4,
                source_total == source@.len(),
                total == canvas.len(),
                source@.len() == channels * (size.0 * size.1),
                canvas.len() == channels * (destination_size.0 * destination_size.1),
                destination.samples(order).len() == canvas.len(),
                destination.rest() == old(destination).rest(),
                forall|x: usize, y: usize|
                    x < canvas_size.0 && y < canvas_size.1 ==> #[trigger] to.requires((x, y)),
                forall|x: usize, y: usize, place: Option<(usize, usize)>| #[trigger]
                    to.ensures((x, y), place) ==> leads(place, (x, y), destination_size, from),
                forall|first: (int, int), second: (int, int)|
                    inside(first, destination_size.0, destination_size.1) && inside(
                        second,
                        destination_size.0,
                        destination_size.1,
                    ) && #[trigger] from(first) == #[trigger] from(second) ==> first == second,
                destination.samples(order) == pasted_part(
                    channels as int,
                    source@,
                    size,
                    canvas,
                    destination_size.0 as int,
                    origin,
                    from,
                    row as int,
                    column as int,
                ),
            decreases copy_width - column,
        {
            let x: usize = origin.0 as usize + column as usize;
            let y: usize = origin.1 as usize + row as usize;
            assert(to.requires((x, y)));
            if let Some((to_x, to_y)) = to(x, y) {
                let ghost target = (to_x as int, to_y as int);
                let ghost from_index = index_of((column as int, row as int), size.0 as int);
                let ghost to_index = index_of(target, destination_size.0 as int);
                proof {
                    lemma_index_of((column as int, row as int), size.0 as int, size.1 as int);
                    lemma_index_of(target, destination_size.0 as int, destination_size.1 as int);
                    lemma_channel_bounds(
                        from_index,
                        size.0 * size.1,
                        channels as int,
                        source@.len() as int,
                    );
                    lemma_channel_bounds(
                        to_index,
                        destination_size.0 * destination_size.1,
                        channels as int,
                        canvas.len() as int,
                    );
                    assert(0 <= row * size.0 && 0 <= to_y * destination_size.0) by (nonlinear_arith);
                    assert(from_index <= channels * from_index && to_index <= channels * to_index)
                        by (nonlinear_arith)
                        requires
                            0 <= from_index,
                            0 <= to_index,
                            1 <= channels,
                    ;
                }
                let start: usize = channels * (row as usize * size.0 as usize + column as usize);
                let target_start: usize = channels * (to_y * destination_size.0 as usize + to_x);
                let ghost before = destination.samples(order);
                let mut c: usize = 0;
                while c < channels
                    invariant
                        c <= channels,
                        0 < channels <= 4,
                        source_total == source@.len(),
                        total == destination.samples(order).len(),
                        start + channels <= source_total,
                        target_start + channels <= total,
                        destination.samples(order).len() == before.len(),
                        destination.rest() == old(destination).rest(),
                        forall|i: int|
                            0 <= i < before.len() ==> #[trigger] destination.samples(order)[i] == (if target_start <= i
                                < target_start + c {
                                source@[start + (i - target_start)]
                            } else {
                                before[i]
                            }),
                    decreases channels - c,
                {
                    destination.write_sample(order, target_start + c, source[start + c]);
                    c = c + 1;
                }
                proof {
                    assert forall|i: int| 0 <= i < canvas.len() implies #[trigger] destination.samples(order)[i] == (
                    if i / channels as int == to_index {
                        source@[channels * from_index + i % channels as int]
                    } else {
                        before[i]
                    }) by {
                        vstd::arithmetic::div_mod::lemma_fundamental_div_mod(i, channels as int);
                        if target_start <= i < target_start + channels {
                            lemma_sample(i, to_index, i - target_start, channels as int);
                        } else {
                            assert(i / channels as int != to_index);
                        }
                    }
                    lemma_one_more_pixel(
                        channels as int,
                        source@,
                        size,
                        canvas,
                        destination_size,
                        origin,
                        from,
                        row as int,
                        column as int,
                        target,
                        before,
                        destination.samples(order),
                    );
                }
            } else {
                proof {
                    lemma_no_pixel(
                        channels as int,
                        source@,
                        size,
                        canvas,
                        destination_size,
                        origin,
                        from,
                        row as int,
                        column as int,
                    );
                }
            }
            column = column + 1;
        }
        proof {
            lemma_next_row(
                channels as int,
                source@,
                size,
                canvas,
                destination_size,
                canvas_size,
                origin,
                from,
                row as int,
                copy_width as int,
            );
        }
        row = row + 1;
    }
    proof {
        lemma_last_row(
            channels as int,
            source@,
            size,
            canvas,
            destination_size,
            canvas_size,
            origin,
            from,
            copy_rows as int,
        );
    }
}

/// The place that a sample shows lies on the canvas.
proof fn lemma_shown_place<T>(
    channels: int,
    canvas: Seq<T>,
    destination_size: (u32, u32),
    canvas_size: (u32, u32),
    from: spec_fn((int, int)) -> (int, int),
    i: int,
)
    requires
        channels > 0,
        canvas.len() == channels * (destination_size.0 * destination_size.1),
        0 <= i < canvas.len(),
        forall|place: (int, int)|
            inside(place, destination_size.0, destination_size.1) ==> inside(
                #[trigger] from(place),
                canvas_size.0,
                canvas_size.1,
            ),
    ensures
        inside(
            from(place_of(i / channels, destination_size.0 as int)),
            canvas_size.0,
            canvas_size.1,
        ),
{
    let pixel = i / channels;
    let width = destination_size.0 as int;
    let height = destination_size.1 as int;
    vstd::arithmetic::div_mod::lemma_fundamental_div_mod(i, channels);
    vstd::arithmetic::div_mod::lemma_div_pos_is_pos(i, channels);
    assert(pixel < width * height) by (nonlinear_arith)
        requires
            i == channels * pixel + i % channels,
            0 <= i % channels,
            i < channels * (width * height),
            channels > 0,
    ;
    lemma_place_of(pixel, width, height);
}

/// The end of one row is the beginning of the next.
proof fn lemma_next_row<T>(
    channels: int,
    source: Seq<T>,
    size: (u32, u32),
    canvas: Seq<T>,
    destination_size: (u32, u32),
    canvas_size: (u32, u32),
    origin: (u32, u32),
    from: spec_fn((int, int)) -> (int, int),
    row: int,
    columns: int,
)
    requires
        channels > 0,
        canvas.len() == channels * (destination_size.0 * destination_size.1),
        columns == size.0 || origin.0 + columns == canvas_size.0,
        forall|place: (int, int)|
            inside(place, destination_size.0, destination_size.1) ==> inside(
                #[trigger] from(place),
                canvas_size.0,
                canvas_size.1,
            ),
    ensures
        pasted_part(
            channels,
            source,
            size,
            canvas,
            destination_size.0 as int,
            origin,
            from,
            row,
            columns,
        ) == pasted_part(
            channels,
            source,
            size,
            canvas,
            destination_size.0 as int,
            origin,
            from,
            row + 1,
            0,
        ),
{
    let width = destination_size.0 as int;
    let here = pasted_part(channels, source, size, canvas, width, origin, from, row, columns);
    let next = pasted_part(channels, source, size, canvas, width, origin, from, row + 1, 0);
    assert forall|i: int| 0 <= i < canvas.len() implies here[i] == next[i] by {
        lemma_shown_place(channels, canvas, destination_size, canvas_size, from, i);
    }
    assert(here =~= next);
}

/// Rows behind the end of the canvas are not shown.
proof fn lemma_last_row<T>(
    channels: int,
    source: Seq<T>,
    size: (u32, u32),
    canvas: Seq<T>,
    destination_size: (u32, u32),
    canvas_size: (u32, u32),
    origin: (u32, u32),
    from: spec_fn((int, int)) -> (int, int),
    rows: int,
)
    requires
        channels > 0,
        canvas.len() == channels * (destination_size.0 * destination_size.1),
        rows == size.1 || origin.1 + rows == canvas_size.1,
        forall|place: (int, int)|
            inside(place, destination_size.0, destination_size.1) ==> inside(
                #[trigger] from(place),
                canvas_size.0,
                canvas_size.1,
            ),
    ensures
        pasted_part(
            channels,
            source,
            size,
            canvas,
            destination_size.0 as int,
            origin,
            from,
            rows,
            0,
        ) == pasted(channels, source, size, canvas, destination_size.0 as int, origin, from),
{
    let width = destination_size.0 as int;
    let here = pasted_part(channels, source, size, canvas, width, origin, from, rows, 0);
    let all = pasted(channels, source, size, canvas, width, origin, from);
    assert forall|i: int| 0 <= i < canvas.len() implies here[i] == all[i] by {
        lemma_shown_place(channels, canvas, destination_size, canvas_size, from, i);
    }
    assert(here =~= all);
}

/// A tile that begins outside the canvas covers nothing of it.
proof fn lemma_paste_outside<T>(
    channels: int,
    source: Seq<T>,
    size: (u32, u32),
    canvas: Seq<T>,
    destination_size: (u32, u32),
    canvas_size: (u32, u32),
    origin: (u32, u32),
    from: spec_fn((int, int)) -> (int, int),
)
    requires
        channels > 0,
        canvas.len() == channels * (destination_size.0 * destination_size.1),
        origin.0 >= canvas_size.0 || origin.1 >= canvas_size.1,
        forall|place: (int, int)|
            inside(place, destination_size.0, destination_size.1) ==> inside(
                #[trigger] from(place),
                canvas_size.0,
                canvas_size.1,
            ),
    ensures
        pasted(channels, source, size, canvas, destination_size.0 as int, origin, from) == canvas,
{
    let after = pasted(channels, source, size, canvas, destination_size.0 as int, origin, from);
    assert forall|i: int| 0 <= i < canvas.len() implies after[i] == canvas[i] by {
        lemma_shown_place(channels, canvas, destination_size, canvas_size, from, i);
    }
    assert(after =~= canvas);
}

/// Pastes a tile onto a canvas.
pub(crate) fn paste_upright<T: Copy, O: RgbaSampleOutput<T> + ?Sized>(
    channels: usize,
    source: &[T],
    size: (u32, u32),
    destination: &mut O,
    order: ByteOrder,
    canvas_size: (u32, u32),
    origin: (u32, u32),
)
    requires
        0 < channels <= 4,
        source@.len() == channels * (size.0 * size.1),
        old(destination).samples(order).len() == channels * (canvas_size.0 * canvas_size.1),
    ensures
        final(destination).rest() == old(destination).rest(),
        final(destination).samples(order) == pasted(
            channels as int,
            source@,
            size,
            old(destination).samples(order),
            canvas_size.0 as int,
            origin,
            own_place(),
        ),
{
    if origin.0 >= canvas_size.0 || origin.1 >= canvas_size.1 {
        proof {
            lemma_paste_outside(
                channels as int,
                source@,
                size,
                destination.samples(order),
                canvas_size,
                canvas_size,
                origin,
                own_place(),
            );
        }
        return;
    }
    let to = |x: usize, y: usize| -> (place: Option<(usize, usize)>)
        requires
            x < canvas_size.0,
            y < canvas_size.1,
        ensures
            place == Some((x, y)),
            x < canvas_size.0,
            y < canvas_size.1,
        { Some((x, y)) };
    paste_pixels(
        channels,
        source,
        size,
        destination,
        order,
        canvas_size,
        canvas_size,
        origin,
        to,
        Ghost(own_place()),
    );
}

/// Pastes a tile onto a canvas that is turned and mirrored, pixel by pixel.
pub(crate) fn paste_turned<T: Copy, O: RgbaSampleOutput<T> + ?Sized>(
    channels: usize,
    source: &[T],
    size: (u32, u32),
    destination: &mut O,
    order: ByteOrder,
    orientation_transform: &RgbaOrientationTransform,
    origin: (u32, u32),
)
    requires
        0 < channels <= 4,
        orientation_transform.wf(),
        source@.len() == channels * (size.0 * size.1),
        old(destination).samples(order).len() == channels * (
        orientation_transform.destination_width * orientation_transform.destination_height),
    ensures
        final(destination).rest() == old(destination).rest(),
        final(destination).samples(order) == pasted(
            channels as int,
            source@,
            size,
            old(destination).samples(order),
            orientation_transform.destination_width as int,
            origin,
            turned(*orientation_transform),
        ),
{
    let map: RgbaOrientationTransform = *orientation_transform;
    if origin.0 >= map.source_width || origin.1 >= map.source_height {
        proof {
            lemma_paste_outside(
                channels as int,
                source@,
                size,
                destination.samples(order),
                (map.destination_width, map.destination_height),
                (map.source_width, map.source_height),
                origin,
                turned(map),
            );
        }
        return;
    }
    let to = |x: usize, y: usize| -> (place: Option<(usize, usize)>)
        requires
            map.wf(),
            x < map.source_width,
            y < map.source_height,
        ensures
            place is Some,
            leads(
                place,
                (x, y),
                (map.destination_width, map.destination_height),
                turned(map),
            ),
        {
            proof {
                assert(inside(
                    map.destination_of((x as int, y as int)),
                    map.destination_width,
                    map.destination_height,
                ));
                super::orientation::lemma_there_and_back(map, (x as int, y as int));
            }
            match map.map_source_pixel(x, y) {
                Ok(place) => Some(place),
                Err(_) => None,
            }
        };
    proof {
        assert forall|first: (int, int), second: (int, int)| #[trigger]
            map.source_of(first) == #[trigger] map.source_of(second) implies first == second by {
            super::orientation::lemma_back_and_there(map, first);
            super::orientation::lemma_back_and_there(map, second);
        }
    }
    paste_pixels(
        channels,
        source,
        size,
        destination,
        order,
        (map.destination_width, map.destination_height),
        (map.source_width, map.source_height),
        origin,
        to,
        Ghost(turned(map)),
    );
}

/// The places that the pixels of a planned image show.
pub open spec fn planned(plan: &RgbaTransformPlan) -> spec_fn((int, int)) -> (int, int) {
    |place: (int, int)| plan.source_of(place)
}

/// Whether a plan takes every pixel of its result from a pixel of the image,
/// and tells of every pixel of the image where it goes.
pub open spec fn plan_is_exact(plan: &RgbaTransformPlan) -> bool {
    &&& forall|place: (int, int)|
        inside(place, plan.destination_width, plan.destination_height) ==> inside(
            #[trigger] plan.source_of(place),
            plan.source_width,
            plan.source_height,
        ) && plan.destination_of(plan.source_of(place)) == Some(place)
    &&& forall|place: (int, int)|
        inside(place, plan.source_width, plan.source_height) && (
        #[trigger] plan.destination_of(place)) is Some ==> inside(
            plan.destination_of(place)->0,
            plan.destination_width,
            plan.destination_height,
        ) && plan.source_of(plan.destination_of(place)->0) == place
}

/// Plans are exact.
pub proof fn lemma_plan_is_exact(
    plan: &RgbaTransformPlan,
    transforms: Seq<PrimaryItemTransformProperty>,
    width: u32,
    height: u32,
)
    requires
        plan.plans(transforms, width, height),
    ensures
        plan_is_exact(plan),
{
    assert forall|place: (int, int)|
        inside(place, plan.destination_width, plan.destination_height) implies inside(
        #[trigger] plan.source_of(place),
        plan.source_width,
        plan.source_height,
    ) && plan.destination_of(plan.source_of(place)) == Some(place) by {
        lemma_plan_places(plan, transforms, width, height, place);
    }
    assert forall|place: (int, int)|
        inside(place, plan.source_width, plan.source_height) && (
        #[trigger] plan.destination_of(place)) is Some implies inside(
        plan.destination_of(place)->0,
        plan.destination_width,
        plan.destination_height,
    ) && plan.source_of(plan.destination_of(place)->0) == place by {
        lemma_plan_places(plan, transforms, width, height, place);
    }
}

/// Pastes a tile onto a canvas behind a resolved plan, pixel by pixel.
pub(crate) fn paste_planned<T: Copy, O: RgbaSampleOutput<T> + ?Sized>(
    channels: usize,
    source: &[T],
    size: (u32, u32),
    destination: &mut O,
    order: ByteOrder,
    plan: &RgbaTransformPlan,
    origin: (u32, u32),
)
    requires
        0 < channels <= 4,
        plan.wf(),
        plan_is_exact(plan),
        source@.len() == channels * (size.0 * size.1),
        old(destination).samples(order).len() == channels * (plan.destination_width
            * plan.destination_height),
    ensures
        final(destination).rest() == old(destination).rest(),
        final(destination).samples(order) == pasted(
            channels as int,
            source@,
            size,
            old(destination).samples(order),
            plan.destination_width as int,
            origin,
            planned(plan),
        ),
{
    let ghost from = planned(plan);
    proof {
        assert forall|first: (int, int), second: (int, int)|
            inside(first, plan.destination_width, plan.destination_height) && inside(
                second,
                plan.destination_width,
                plan.destination_height,
            ) && #[trigger] from(first) == #[trigger] from(second) implies first == second by {
            assert(plan.destination_of(plan.source_of(first)) == Some(first));
            assert(plan.destination_of(plan.source_of(second)) == Some(second));
        }
    }
    if origin.0 >= plan.source_width || origin.1 >= plan.source_height {
        proof {
            lemma_paste_outside(
                channels as int,
                source@,
                size,
                destination.samples(order),
                (plan.destination_width, plan.destination_height),
                (plan.source_width, plan.source_height),
                origin,
                from,
            );
        }
        return;
    }
    let to = |x: usize, y: usize| -> (place: Option<(usize, usize)>)
        requires
            plan.wf(),
            plan_is_exact(plan),
            x < plan.source_width,
            y < plan.source_height,
        ensures
            leads(
                place,
                (x, y),
                (plan.destination_width, plan.destination_height),
                planned(plan),
            ),
        {
            let found: Option<(usize, usize)> = match plan.map_source_pixel(x, y) {
                Ok(place) => place,
                Err(_) => None,
            };
            proof {
                let at = (x as int, y as int);
                if plan.steps@.len() == 0 {
                    assert(plan.source_of(at) == at);
                }
                if found is None {
                    assert forall|other: (int, int)|
                        inside(
                            other,
                            plan.destination_width,
                            plan.destination_height,
                        ) implies #[trigger] planned(plan)(other) != at by {
                        assert(plan.destination_of(plan.source_of(other)) == Some(other));
                    }
                }
            }
            found
        };
    paste_pixels(
        channels,
        source,
        size,
        destination,
        order,
        (plan.destination_width, plan.destination_height),
        (plan.source_width, plan.source_height),
        origin,
        to,
        Ghost(from),
    );
}

/// What is wrong with the samples of an image that is pasted or pasted onto.
pub open spec fn paste_buffer_error(
    actual: int,
    width: u32,
    height: u32,
    plane: &'static str,
    role: &'static str,
) -> Option<DecodeHeicError> {
    if width * height * 4 > usize::MAX {
        Some(
            bad_frame(
                Detail::Four(
                    "{} {} sample count overflow for {}x{}",
                    Arg::Word(plane),
                    Arg::Word(role),
                    Arg::Num(width as i128),
                    Arg::Num(height as i128),
                ),
            ),
        )
    } else if actual != width * height * 4 {
        Some(
            bad_frame(
                Detail::Four(
                    "{} {} has {} samples, expected {}",
                    Arg::Word(plane),
                    Arg::Word(role),
                    Arg::Num(actual as i128),
                    Arg::Num((width * height * 4) as i128),
                ),
            ),
        )
    } else {
        None
    }
}

/// Checks the samples of an image that is pasted or pasted onto.
pub fn validate_rgba_paste_buffer_len(
    actual_len: usize,
    width: u32,
    height: u32,
    plane: &'static str,
    role: &'static str,
) -> (result: Result<(), DecodeHeicError>)
    ensures
        match paste_buffer_error(actual_len as int, width, height, plane, role) {
            Some(e) => result == Err::<(), DecodeHeicError>(e),
            None => result is Ok,
        },
{
    proof {
        assert(0 <= width * height <= width * height * 4) by (nonlinear_arith);
    }
    let expected: Option<usize> = match (width as usize).checked_mul(height as usize) {
        Some(pixels) => pixels.checked_mul(4),
        None => None,
    };
    match expected {
        None => invalid_frame(
            Detail::Four(
                "{} {} sample count overflow for {}x{}",
                Arg::Word(plane),
                Arg::Word(role),
                Arg::Num(width as i128),
                Arg::Num(height as i128),
            ),
        ),
        Some(expected_samples) => if actual_len != expected_samples {
            invalid_frame(
                Detail::Four(
                    "{} {} has {} samples, expected {}",
                    Arg::Word(plane),
                    Arg::Word(role),
                    Arg::Num(actual_len as i128),
                    Arg::Num(expected_samples as i128),
                ),
            )
        } else {
            Ok(())
        },
    }
}

/// What is wrong with the samples of a tile or of the canvas, where the tile
/// lies on the canvas.
pub open spec fn paste_error(
    source_len: int,
    size: (u32, u32),
    destination_len: int,
    destination_size: (u32, u32),
    plane: &'static str,
) -> Option<DecodeHeicError> {
    match paste_buffer_error(source_len, size.0, size.1, plane, "source") {
        Some(e) => Some(e),
        None => paste_buffer_error(
            destination_len,
            destination_size.0,
            destination_size.1,
            plane,
            "destination",
        ),
    }
}

/// Pastes a tile onto a canvas. What lies outside the canvas is cut off.
pub fn paste_rgba_tile_with_clip<T: Copy>(
    source: &[T],
    source_width: u32,
    source_height: u32,
    destination: &mut [T],
    destination_width: u32,
    destination_height: u32,
    x_origin: u32,
    y_origin: u32,
    plane: &'static str,
) -> (result: Result<(), DecodeHeicError>)
    ensures
        if x_origin >= destination_width || y_origin >= destination_height {
            result is Ok && final(destination)@ == old(destination)@
        } else {
            match paste_error(
                source@.len() as int,
                (source_width, source_height),
                old(destination)@.len() as int,
                (destination_width, destination_height),
                plane,
            ) {
                Some(e) => result == Err::<(), DecodeHeicError>(e) && final(destination)@ == old(
                    destination,
                )@,
                None => result is Ok && final(destination)@ == pasted(
                    4,
                    source@,
                    (source_width, source_height),
                    old(destination)@,
                    destination_width as int,
                    (x_origin, y_origin),
                    own_place(),
                ),
            }
        },
{
    if x_origin >= destination_width || y_origin >= destination_height {
        return Ok(());
    }
    validate_rgba_paste_buffer_len(source.len(), source_width, source_height, plane, "source")?;
    validate_rgba_paste_buffer_len(
        destination.len(),
        destination_width,
        destination_height,
        plane,
        "destination",
    )?;
    paste_upright(
        4,
        source,
        (source_width, source_height),
        destination,
        ByteOrder::LittleEndian,
        (destination_width, destination_height),
        (x_origin, y_origin),
    );
    Ok(())
}

/// Pastes a tile onto a canvas that is turned and mirrored, pixel by pixel.
pub fn paste_transformed_rgba_tile_with_clip<T: Copy>(
    source: &[T],
    source_width: u32,
    source_height: u32,
    destination: &mut [T],
    orientation_transform: &RgbaOrientationTransform,
    x_origin: u32,
    y_origin: u32,
    plane: &'static str,
) -> (result: Result<(), DecodeHeicError>)
    requires
        orientation_transform.wf(),
    ensures
        if x_origin >= orientation_transform.source_width || y_origin
            >= orientation_transform.source_height {
            result is Ok && final(destination)@ == old(destination)@
        } else {
            match paste_error(
                source@.len() as int,
                (source_width, source_height),
                old(destination)@.len() as int,
                (orientation_transform.destination_width, orientation_transform.destination_height),
                plane,
            ) {
                Some(e) => result == Err::<(), DecodeHeicError>(e) && final(destination)@ == old(
                    destination,
                )@,
                None => result is Ok && final(destination)@ == pasted(
                    4,
                    source@,
                    (source_width, source_height),
                    old(destination)@,
                    orientation_transform.destination_width as int,
                    (x_origin, y_origin),
                    turned(*orientation_transform),
                ),
            }
        },
{
    let map: RgbaOrientationTransform = *orientation_transform;
    if x_origin >= map.source_width || y_origin >= map.source_height {
        return Ok(());
    }
    validate_rgba_paste_buffer_len(source.len(), source_width, source_height, plane, "source")?;
    validate_rgba_paste_buffer_len(
        destination.len(),
        map.destination_width,
        map.destination_height,
        plane,
        "destination",
    )?;
    paste_turned(
        4,
        source,
        (source_width, source_height),
        destination,
        ByteOrder::LittleEndian,
        orientation_transform,
        (x_origin, y_origin),
    );
    Ok(())
}

/// Pasting a tile onto a turned canvas is pasting it and then turning.
pub proof fn lemma_paste_then_turn<T>(
    source: Seq<T>,
    size: (u32, u32),
    canvas: Seq<T>,
    origin: (u32, u32),
    map: RgbaOrientationTransform,
    transforms: Seq<PrimaryItemTransformProperty>,
    turned_canvas: Seq<T>,
    turned_after: Seq<T>,
)
    requires
        map.orients(transforms, map.source_width, map.source_height, transforms.len()),
        source.len() == 4 * (size.0 * size.1),
        canvas.len() == 4 * (map.source_width * map.source_height),
        // The canvas, turned.
        gathered(
            4,
            canvas,
            map.source_width as int,
            turned_canvas,
            map.destination_width as int,
            map.destination_width * map.destination_height,
            sources(transforms, map.source_width, map.source_height, transforms.len()),
        ),
        // The canvas with the tile, turned.
        gathered(
            4,
            pasted(4, source, size, canvas, map.source_width as int, origin, own_place()),
            map.source_width as int,
            turned_after,
            map.destination_width as int,
            map.destination_width * map.destination_height,
            sources(transforms, map.source_width, map.source_height, transforms.len()),
        ),
    ensures
        turned_after == pasted(
            4,
            source,
            size,
            turned_canvas,
            map.destination_width as int,
            origin,
            turned(map),
        ),
{
    let width = map.destination_width as int;
    let height = map.destination_height as int;
    let from = sources(transforms, map.source_width, map.source_height, transforms.len());
    let after = pasted(4, source, size, canvas, map.source_width as int, origin, own_place());
    let direct = pasted(4, source, size, turned_canvas, width, origin, turned(map));
    lemma_orientation(map, transforms, map.source_width, map.source_height, transforms.len());
    assert forall|i: int| 0 <= i < 4 * (width * height) implies turned_after[i] == direct[i] by {
        let pixel = i / 4;
        let channel = i % 4;
        lemma_place_of(pixel, width, height);
        let place = place_of(pixel, width);
        let shown = from(place);
        assert(map.source_of(place) == shown);
        assert(inside(shown, map.source_width, map.source_height));
        let index = index_of(shown, map.source_width as int);
        lemma_index_of(shown, map.source_width as int, map.source_height as int);
        lemma_channel_bounds(
            index,
            map.source_width * map.source_height,
            4,
            canvas.len() as int,
        );
        assert(pixel_at(turned_after, 4, pixel) == pixel_at(after, 4, index));
        assert(pixel_at(turned_canvas, 4, pixel) == pixel_at(canvas, 4, index));
        assert(turned_after[i] == pixel_at(turned_after, 4, pixel)[channel]);
        assert(turned_canvas[i] == pixel_at(turned_canvas, 4, pixel)[channel]);
        assert(after[4 * index + channel] == pixel_at(after, 4, index)[channel]);
        assert(canvas[4 * index + channel] == pixel_at(canvas, 4, index)[channel]);
        lemma_sample(4 * index + channel, index, channel, 4);
    }
    assert(turned_after =~= direct);
}

} // verus!
