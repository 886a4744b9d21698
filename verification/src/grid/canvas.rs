//! What the canvas of a grid shows while tiles are pasted onto it.
#[allow(unused_imports)]
use super::layout::{HeicGridDescriptor, HeicGridTileReference};
use crate::output::SampleScale;
#[allow(unused_imports)]
use crate::transform::mapping::inside;
#[allow(unused_imports)]
use crate::transform::paste::{covers, lemma_sample, own_place, pasted};
#[allow(unused_imports)]
use crate::transform::pixels::{
    gathered, index_of, lemma_channel_bounds, lemma_index_of, lemma_place_of, pixel_at, place_of,
};
#[allow(unused_imports)]
use crate::types::{HeicView, PlaneView};
use crate::ycbcr::PreparedYcbcrToRgb;
#[allow(unused_imports)]
use crate::yuv::heic::heic_image;
#[allow(unused_imports)]
use crate::yuv::image::YuvImage;
use vstd::prelude::*;

verus! {

/// A tile as it is converted: with the range and the matrix of the grid.
pub open spec fn converted_tile(tile: HeicView, reference: HeicGridTileReference) -> HeicView {
    HeicView {
        ycbcr_range: reference.conversion_ycbcr_range,
        ycbcr_matrix: reference.conversion_ycbcr_matrix,
        ..tile
    }
}

/// A plane of one sample, which is zero.
pub open spec fn zero_plane() -> PlaneView {
    PlaneView { width: 1, height: 1, samples: seq![0u16] }
}

/// The image of one pixel whose colour the uncovered pixels of a grid have:
/// every sample is zero.
pub open spec fn gap_view(reference: HeicGridTileReference) -> HeicView {
    let chroma = if reference.layout is Yuv400 {
        None
    } else {
        Some(zero_plane())
    };
    HeicView {
        width: 1,
        height: 1,
        bit_depth_luma: reference.bit_depth_luma,
        bit_depth_chroma: reference.bit_depth_chroma,
        layout: reference.layout,
        ycbcr_range: reference.conversion_ycbcr_range,
        ycbcr_matrix: reference.conversion_ycbcr_matrix,
        y_plane: zero_plane(),
        u_plane: chroma,
        v_plane: chroma,
    }
}

/// A grid and its tiles, row by row.
pub struct GridView {
    pub descriptor: HeicGridDescriptor,
    pub reference: HeicGridTileReference,
    pub tiles: Seq<HeicView>,
}

impl GridView {
    /// The column and row of the tile that a place of the image lies in.
    pub open spec fn cell(self, place: (int, int)) -> (int, int) {
        (
            place.0 / self.reference.tile_width as int,
            place.1 / self.reference.tile_height as int,
        )
    }

    /// Whether a place of the image lies in one of the first `count` tiles.
    pub open spec fn covered(self, place: (int, int), count: int) -> bool {
        let (column, row) = self.cell(place);
        column < self.descriptor.columns && row < self.descriptor.rows && row
            * self.descriptor.columns + column < count
    }

    /// The image whose pixel a place of the grid shows: that of its tile, or
    /// of the gap where there is none.
    pub open spec fn image_at(self, place: (int, int)) -> YuvImage {
        let (column, row) = self.cell(place);
        if self.covered(place, self.tiles.len() as int) {
            heic_image(
                converted_tile(
                    self.tiles[row * self.descriptor.columns + column],
                    self.reference,
                ),
                None,
            )
        } else {
            heic_image(gap_view(self.reference), None)
        }
    }

    /// The place of that pixel in that image.
    pub open spec fn place_in(self, place: (int, int)) -> (int, int) {
        if self.covered(place, self.tiles.len() as int) {
            (
                place.0 % self.reference.tile_width as int,
                place.1 % self.reference.tile_height as int,
            )
        } else {
            (0, 0)
        }
    }
}

/// Whether the samples from `start` on are the scaled colour of a pixel, and
/// its opacity.
pub open spec fn pixel_shown<
    T: Copy,
    S: SampleScale<T>,
    F: Fn(PreparedYcbcrToRgb, i32, i32, i32) -> (u16, u16, u16),
>(
    image: YuvImage,
    float_kernel: F,
    place: (int, int),
    channels: int,
    samples: Seq<T>,
    start: int,
    opacity: T,
) -> bool {
    let depth = image.converter.bit_depth;
    &&& exists|rgb: (u16, u16, u16)|
        {
            &&& #[trigger] image.rgb_is(float_kernel, place, rgb)
            &&& samples[start] == S::scaled(rgb.0, depth)
            &&& samples[start + 1] == S::scaled(rgb.1, depth)
            &&& samples[start + 2] == S::scaled(rgb.2, depth)
        }
    &&& channels == 4 ==> samples[start + 3] == opacity
}

/// Whether `samples` show the tiles of a grid, each pixel that of the place
/// `from` of the grid. Those that no tile covers are only asked for where the
/// canvas was filled.
pub open spec fn painted<
    T: Copy,
    S: SampleScale<T>,
    F: Fn(PreparedYcbcrToRgb, i32, i32, i32) -> (u16, u16, u16),
>(
    grid: GridView,
    filled: bool,
    float_kernel: F,
    channels: int,
    samples: Seq<T>,
    size: (u32, u32),
    from: spec_fn((int, int)) -> (int, int),
    opacity: spec_fn((int, int)) -> T,
) -> bool {
    &&& samples.len() == channels * (size.0 * size.1)
    &&& forall|k: int|
        0 <= k < size.0 * size.1 && (filled || grid.covered(
            from(place_of(k, size.0 as int)),
            grid.tiles.len() as int,
        )) ==> pixel_shown::<T, S, F>(
            grid.image_at(from(place_of(k, size.0 as int))),
            float_kernel,
            grid.place_in(from(place_of(k, size.0 as int))),
            channels,
            samples,
            channels * k,
            opacity(from(#[trigger] place_of(k, size.0 as int))),
        )
}

/// Samples that agree from their starts on show the same pixel.
pub proof fn lemma_pixel_moved<
    T: Copy,
    S: SampleScale<T>,
    F: Fn(PreparedYcbcrToRgb, i32, i32, i32) -> (u16, u16, u16),
>(
    image: YuvImage,
    float_kernel: F,
    place: (int, int),
    channels: int,
    before: Seq<T>,
    start: int,
    after: Seq<T>,
    target: int,
    opacity: T,
)
    requires
        3 <= channels <= 4,
        pixel_shown::<T, S, F>(image, float_kernel, place, channels, before, start, opacity),
        forall|c: int| 0 <= c < channels ==> #[trigger] after[target + c] == before[start + c],
    ensures
        pixel_shown::<T, S, F>(image, float_kernel, place, channels, after, target, opacity),
{
    let depth = image.converter.bit_depth;
    let rgb = choose|rgb: (u16, u16, u16)|
        {
            &&& #[trigger] image.rgb_is(float_kernel, place, rgb)
            &&& before[start] == S::scaled(rgb.0, depth)
            &&& before[start + 1] == S::scaled(rgb.1, depth)
            &&& before[start + 2] == S::scaled(rgb.2, depth)
        };
    assert(after[target + 0] == before[start + 0]);
    assert(after[target + 1] == before[start + 1]);
    assert(after[target + 2] == before[start + 2]);
    if channels == 4 {
        assert(after[target + 3] == before[start + 3]);
    }
    assert(image.rgb_is(float_kernel, place, rgb));
}

/// A place lies in a tile if and only if its column and row are those of the
/// tile.
pub proof fn lemma_cell(position: int, size: int, cell: int)
    requires
        0 <= position,
        0 < size,
        0 <= cell,
    ensures
        (cell * size <= position < cell * size + size) == (position / size == cell),
        position / size == cell ==> position % size == position - cell * size,
        0 <= position % size < size,
        0 <= position / size,
{
    vstd::arithmetic::div_mod::lemma_fundamental_div_mod(position, size);
    vstd::arithmetic::div_mod::lemma_mod_bound(position, size);
    vstd::arithmetic::div_mod::lemma_div_pos_is_pos(position, size);
    let q = position / size;
    let r = position % size;
    assert(size * q == q * size) by (nonlinear_arith);
    if cell * size <= position < cell * size + size {
        assert(q == cell) by (nonlinear_arith)
            requires
                q * size + r == position,
                0 <= r < size,
                cell * size <= position,
                position < cell * size + size,
                0 < size,
        ;
    }
}

/// The tiles of a grid with one more.
pub open spec fn with_tile(grid: GridView, tile: HeicView) -> GridView {
    GridView { tiles: grid.tiles.push(tile), ..grid }
}

/// Pasting the next tile at its place paints the grid with one tile more.
pub proof fn lemma_paint<
    T: Copy,
    S: SampleScale<T>,
    F: Fn(PreparedYcbcrToRgb, i32, i32, i32) -> (u16, u16, u16),
>(
    grid: GridView,
    tile: HeicView,
    filled: bool,
    float_kernel: F,
    channels: int,
    source: Seq<T>,
    before: Seq<T>,
    after: Seq<T>,
    size: (u32, u32),
    from: spec_fn((int, int)) -> (int, int),
    opacity: spec_fn((int, int)) -> T,
    origin: (u32, u32),
)
    requires
        3 <= channels <= 4,
        painted::<T, S, F>(grid, filled, float_kernel, channels, before, size, from, opacity),
        grid.tiles.len() < grid.descriptor.rows * grid.descriptor.columns,
        grid.descriptor.columns > 0,
        tile.width == grid.reference.tile_width,
        tile.height == grid.reference.tile_height,
        0 < tile.width,
        0 < tile.height,
        origin.0 == (grid.tiles.len() as int % grid.descriptor.columns as int) * tile.width,
        origin.1 == (grid.tiles.len() as int / grid.descriptor.columns as int) * tile.height,
        source.len() == channels * (tile.width * tile.height),
        forall|place: (int, int)|
            inside(place, size.0, size.1) ==> inside(
                #[trigger] from(place),
                grid.descriptor.output_width,
                grid.descriptor.output_height,
            ),
        forall|x: int, y: int|
            0 <= x < tile.width && 0 <= y < tile.height && inside(
                (origin.0 + x, origin.1 + y),
                grid.descriptor.output_width,
                grid.descriptor.output_height,
            ) ==> pixel_shown::<T, S, F>(
                heic_image(converted_tile(tile, grid.reference), None),
                float_kernel,
                (x, y),
                channels,
                source,
                channels * #[trigger] index_of((x, y), tile.width as int),
                opacity((origin.0 + x, origin.1 + y)),
            ),
        after == pasted(
            channels,
            source,
            (tile.width, tile.height),
            before,
            size.0 as int,
            origin,
            from,
        ),
    ensures
        painted::<T, S, F>(
            with_tile(grid, tile),
            filled,
            float_kernel,
            channels,
            after,
            size,
            from,
            opacity,
        ),
{
    let next = with_tile(grid, tile);
    let n = grid.tiles.len() as int;
    let columns = grid.descriptor.columns as int;
    let tile_width = tile.width as int;
    let tile_height = tile.height as int;
    let column = n % columns;
    let row = n / columns;
    vstd::arithmetic::div_mod::lemma_fundamental_div_mod(n, columns);
    vstd::arithmetic::div_mod::lemma_mod_bound(n, columns);
    vstd::arithmetic::div_mod::lemma_div_pos_is_pos(n, columns);
    assert(n == row * columns + column) by (nonlinear_arith)
        requires
            n == columns * row + column,
    ;
    assert(row < grid.descriptor.rows) by (nonlinear_arith)
        requires
            row * columns + column < grid.descriptor.rows * columns,
            0 <= column,
            columns > 0,
    ;
    assert forall|k: int|
        0 <= k < size.0 * size.1 && (filled || next.covered(
            from(place_of(k, size.0 as int)),
            next.tiles.len() as int,
        )) implies pixel_shown::<T, S, F>(
        next.image_at(from(place_of(k, size.0 as int))),
        float_kernel,
        next.place_in(from(place_of(k, size.0 as int))),
        channels,
        after,
        channels * k,
        opacity(from(#[trigger] place_of(k, size.0 as int))),
    ) by {
        let place = from(place_of(k, size.0 as int));
        lemma_place_of(k, size.0 as int, size.1 as int);
        lemma_cell(place.0, tile_width, column);
        lemma_cell(place.1, tile_height, row);
        lemma_channel_bounds(k, size.0 * size.1, channels, before.len() as int);
        let (c, r) = grid.cell(place);
        let index = r * columns + c;
        if covers(origin, (tile.width, tile.height), place) {
            assert(c == column && r == row);
            assert(next.covered(place, n + 1));
            assert(next.tiles[n] == tile);
            let x = place.0 - origin.0;
            let y = place.1 - origin.1;
            assert(next.place_in(place) == (x, y));
            let j = index_of((x, y), tile_width);
            lemma_index_of((x, y), tile_width, tile_height);
            lemma_channel_bounds(j, tile_width * tile_height, channels, source.len() as int);
            assert((origin.0 + x, origin.1 + y) == place);
            assert(pixel_shown::<T, S, F>(
                heic_image(converted_tile(tile, grid.reference), None),
                float_kernel,
                (x, y),
                channels,
                source,
                channels * index_of((x, y), tile.width as int),
                opacity((origin.0 + x, origin.1 + y)),
            ));
            assert forall|ch: int| 0 <= ch < channels implies #[trigger] after[channels * k + ch]
                == source[channels * j + ch] by {
                lemma_sample(channels * k + ch, k, ch, channels);
            }
            lemma_pixel_moved::<T, S, F>(
                heic_image(converted_tile(tile, grid.reference), None),
                float_kernel,
                (x, y),
                channels,
                source,
                channels * j,
                after,
                channels * k,
                opacity(place),
            );
        } else {
            assert(!(c == column && r == row));
            if c < columns && r < grid.descriptor.rows && index == n {
                assert(c == column && r == row) by (nonlinear_arith)
                    requires
                        r * columns + c == row * columns + column,
                        0 <= c < columns,
                        0 <= column < columns,
                        0 <= r,
                        0 <= row,
                ;
            }
            assert(next.covered(place, n + 1) == grid.covered(place, n));
            if grid.covered(place, n) {
                assert(0 <= index) by (nonlinear_arith)
                    requires
                        index == r * columns + c,
                        0 <= r,
                        0 <= c,
                        0 <= columns,
                ;
                assert(next.tiles[index] == grid.tiles[index]);
            }
            assert(next.image_at(place) == grid.image_at(place));
            assert(next.place_in(place) == grid.place_in(place));
            assert forall|ch: int| 0 <= ch < channels implies #[trigger] after[channels * k + ch]
                == before[channels * k + ch] by {
                lemma_sample(channels * k + ch, k, ch, channels);
            }
            lemma_pixel_moved::<T, S, F>(
                grid.image_at(place),
                float_kernel,
                grid.place_in(place),
                channels,
                before,
                channels * k,
                after,
                channels * k,
                opacity(place),
            );
        }
    }
}

/// Where the tiles leave nothing uncovered, every place lies in a tile.
pub proof fn lemma_tiles_cover(grid: GridView, place: (int, int))
    requires
        super::layout::tiles_cover(grid.descriptor, grid.reference),
        grid.tiles.len() == grid.descriptor.rows * grid.descriptor.columns,
        0 < grid.reference.tile_width,
        0 < grid.reference.tile_height,
        inside(place, grid.descriptor.output_width, grid.descriptor.output_height),
    ensures
        grid.covered(place, grid.tiles.len() as int),
{
    let columns = grid.descriptor.columns as int;
    let rows = grid.descriptor.rows as int;
    let tile_width = grid.reference.tile_width as int;
    let tile_height = grid.reference.tile_height as int;
    let (c, r) = grid.cell(place);
    lemma_cell(place.0, tile_width, c);
    lemma_cell(place.1, tile_height, r);
    assert(c < columns) by (nonlinear_arith)
        requires
            c * tile_width <= place.0,
            place.0 < columns * tile_width,
            0 < tile_width,
    ;
    assert(r < rows) by (nonlinear_arith)
        requires
            r * tile_height <= place.1,
            place.1 < rows * tile_height,
            0 < tile_height,
    ;
    assert(r * columns + c < rows * columns) by (nonlinear_arith)
        requires
            0 <= c < columns,
            0 <= r < rows,
    ;
}

/// A canvas that the tiles of a grid cover shows the whole grid, filled or
/// not.
pub proof fn lemma_painted_cover<
    T: Copy,
    S: SampleScale<T>,
    F: Fn(PreparedYcbcrToRgb, i32, i32, i32) -> (u16, u16, u16),
>(
    grid: GridView,
    float_kernel: F,
    channels: int,
    samples: Seq<T>,
    size: (u32, u32),
    from: spec_fn((int, int)) -> (int, int),
    opacity: spec_fn((int, int)) -> T,
)
    requires
        painted::<T, S, F>(grid, false, float_kernel, channels, samples, size, from, opacity),
        super::layout::tiles_cover(grid.descriptor, grid.reference),
        grid.tiles.len() == grid.descriptor.rows * grid.descriptor.columns,
        0 < grid.reference.tile_width,
        0 < grid.reference.tile_height,
        forall|place: (int, int)|
            inside(place, size.0, size.1) ==> inside(
                #[trigger] from(place),
                grid.descriptor.output_width,
                grid.descriptor.output_height,
            ),
    ensures
        painted::<T, S, F>(grid, true, float_kernel, channels, samples, size, from, opacity),
{
    assert forall|k: int| 0 <= k < size.0 * size.1 implies grid.covered(
        from(#[trigger] place_of(k, size.0 as int)),
        grid.tiles.len() as int,
    ) by {
        lemma_place_of(k, size.0 as int, size.1 as int);
        lemma_tiles_cover(grid, from(place_of(k, size.0 as int)));
    }
}

/// What a canvas shows depends only on where its pixels come from.
pub proof fn lemma_painted_same<
    T: Copy,
    S: SampleScale<T>,
    F: Fn(PreparedYcbcrToRgb, i32, i32, i32) -> (u16, u16, u16),
>(
    grid: GridView,
    filled: bool,
    float_kernel: F,
    channels: int,
    samples: Seq<T>,
    size: (u32, u32),
    from: spec_fn((int, int)) -> (int, int),
    other: spec_fn((int, int)) -> (int, int),
    opacity: spec_fn((int, int)) -> T,
)
    requires
        painted::<T, S, F>(grid, filled, float_kernel, channels, samples, size, from, opacity),
        forall|place: (int, int)|
            inside(place, size.0, size.1) ==> #[trigger] from(place) == other(place),
    ensures
        painted::<T, S, F>(grid, filled, float_kernel, channels, samples, size, other, opacity),
{
    assert forall|k: int|
        0 <= k < size.0 * size.1 && (filled || grid.covered(
            other(place_of(k, size.0 as int)),
            grid.tiles.len() as int,
        )) implies pixel_shown::<T, S, F>(
        grid.image_at(other(place_of(k, size.0 as int))),
        float_kernel,
        grid.place_in(other(place_of(k, size.0 as int))),
        channels,
        samples,
        channels * k,
        opacity(other(#[trigger] place_of(k, size.0 as int))),
    ) by {
        lemma_place_of(k, size.0 as int, size.1 as int);
        assert(from(place_of(k, size.0 as int)) == other(place_of(k, size.0 as int)));
    }
}

/// Whether the samples of the pixels that no tile of a grid covers are as they
/// were.
pub open spec fn untouched<T>(
    grid: GridView,
    channels: int,
    before: Seq<T>,
    after: Seq<T>,
    width: int,
    from: spec_fn((int, int)) -> (int, int),
) -> bool {
    &&& after.len() == before.len()
    &&& forall|i: int|
        0 <= i < before.len() && !grid.covered(
            from(place_of(i / channels, width)),
            grid.tiles.len() as int,
        ) ==> #[trigger] after[i] == before[i]
}

/// Pasting the next tile at its place touches nothing that lies outside of it.
pub proof fn lemma_paint_outside<T>(
    grid: GridView,
    tile: HeicView,
    channels: int,
    source: Seq<T>,
    start: Seq<T>,
    before: Seq<T>,
    after: Seq<T>,
    size: (u32, u32),
    from: spec_fn((int, int)) -> (int, int),
    origin: (u32, u32),
)
    requires
        0 < channels,
        start.len() == channels * (size.0 * size.1),
        untouched(grid, channels, start, before, size.0 as int, from),
        grid.tiles.len() < grid.descriptor.rows * grid.descriptor.columns,
        grid.descriptor.columns > 0,
        tile.width == grid.reference.tile_width,
        tile.height == grid.reference.tile_height,
        0 < tile.width,
        0 < tile.height,
        origin.0 == (grid.tiles.len() as int % grid.descriptor.columns as int) * tile.width,
        origin.1 == (grid.tiles.len() as int / grid.descriptor.columns as int) * tile.height,
        after == pasted(
            channels,
            source,
            (tile.width, tile.height),
            before,
            size.0 as int,
            origin,
            from,
        ),
    ensures
        untouched(with_tile(grid, tile), channels, start, after, size.0 as int, from),
{
    let next = with_tile(grid, tile);
    let n = grid.tiles.len() as int;
    let columns = grid.descriptor.columns as int;
    let column = n % columns;
    let row = n / columns;
    vstd::arithmetic::div_mod::lemma_fundamental_div_mod(n, columns);
    vstd::arithmetic::div_mod::lemma_mod_bound(n, columns);
    vstd::arithmetic::div_mod::lemma_div_pos_is_pos(n, columns);
    assert(n == row * columns + column) by (nonlinear_arith)
        requires
            n == columns * row + column,
    ;
    assert(row < grid.descriptor.rows) by (nonlinear_arith)
        requires
            row * columns + column < grid.descriptor.rows * columns,
            0 <= column,
            columns > 0,
    ;
    assert forall|i: int|
        0 <= i < start.len() && !next.covered(
            from(place_of(i / channels, size.0 as int)),
            next.tiles.len() as int,
        ) implies #[trigger] after[i] == start[i] by {
        let place = from(place_of(i / channels, size.0 as int));
        if covers(origin, (tile.width, tile.height), place) {
            lemma_cell(place.0, tile.width as int, column);
            lemma_cell(place.1, tile.height as int, row);
            assert(grid.cell(place) == (column, row));
        }
        assert(!grid.covered(place, n));
        assert(before[i] == start[i]);
    }
}

/// An image that gathers the pixels of a painted canvas shows the grid too.
pub proof fn lemma_painted_gathered<
    T: Copy,
    S: SampleScale<T>,
    F: Fn(PreparedYcbcrToRgb, i32, i32, i32) -> (u16, u16, u16),
>(
    grid: GridView,
    float_kernel: F,
    channels: int,
    samples: Seq<T>,
    canvas: (u32, u32),
    result: Seq<T>,
    size: (u32, u32),
    from: spec_fn((int, int)) -> (int, int),
    opacity: spec_fn((int, int)) -> T,
)
    requires
        3 <= channels <= 4,
        painted::<T, S, F>(
            grid,
            true,
            float_kernel,
            channels,
            samples,
            canvas,
            own_place(),
            opacity,
        ),
        gathered(
            channels,
            samples,
            canvas.0 as int,
            result,
            size.0 as int,
            size.0 * size.1,
            from,
        ),
        forall|place: (int, int)|
            inside(place, size.0, size.1) ==> inside(#[trigger] from(place), canvas.0, canvas.1),
    ensures
        painted::<T, S, F>(grid, true, float_kernel, channels, result, size, from, opacity),
{
    assert forall|k: int| 0 <= k < size.0 * size.1 implies pixel_shown::<T, S, F>(
        grid.image_at(from(place_of(k, size.0 as int))),
        float_kernel,
        grid.place_in(from(place_of(k, size.0 as int))),
        channels,
        result,
        channels * k,
        opacity(from(#[trigger] place_of(k, size.0 as int))),
    ) by {
        lemma_place_of(k, size.0 as int, size.1 as int);
        let place = from(place_of(k, size.0 as int));
        let j = index_of(place, canvas.0 as int);
        lemma_index_of(place, canvas.0 as int, canvas.1 as int);
        assert(own_place()(place_of(j, canvas.0 as int)) == place);
        lemma_channel_bounds(j, canvas.0 * canvas.1, channels, samples.len() as int);
        lemma_channel_bounds(k, size.0 * size.1, channels, result.len() as int);
        assert(pixel_at(result, channels, k) == pixel_at(samples, channels, j));
        assert forall|c: int| 0 <= c < channels implies #[trigger] result[channels * k + c]
            == samples[channels * j + c] by {
            assert(pixel_at(result, channels, k)[c] == result[channels * k + c]);
            assert(pixel_at(samples, channels, j)[c] == samples[channels * j + c]);
        }
        lemma_pixel_moved::<T, S, F>(
            grid.image_at(place),
            float_kernel,
            grid.place_in(place),
            channels,
            samples,
            channels * j,
            result,
            channels * k,
            opacity(place),
        );
    }
}

/// A painted canvas with the opacity of each pixel replaced shows the grid
/// with the new opacity.
pub proof fn lemma_painted_opacity<
    T: Copy,
    S: SampleScale<T>,
    F: Fn(PreparedYcbcrToRgb, i32, i32, i32) -> (u16, u16, u16),
>(
    grid: GridView,
    float_kernel: F,
    before: Seq<T>,
    after: Seq<T>,
    size: (u32, u32),
    from: spec_fn((int, int)) -> (int, int),
    opacity: spec_fn((int, int)) -> T,
    other: spec_fn((int, int)) -> T,
)
    requires
        painted::<T, S, F>(grid, true, float_kernel, 4, before, size, from, opacity),
        after.len() == before.len(),
        forall|i: int|
            0 <= i < before.len() ==> #[trigger] after[i] == if i % 4 == 3 {
                other(from(place_of(i / 4, size.0 as int)))
            } else {
                before[i]
            },
    ensures
        painted::<T, S, F>(grid, true, float_kernel, 4, after, size, from, other),
{
    assert forall|k: int| 0 <= k < size.0 * size.1 implies pixel_shown::<T, S, F>(
        grid.image_at(from(place_of(k, size.0 as int))),
        float_kernel,
        grid.place_in(from(place_of(k, size.0 as int))),
        4,
        after,
        4 * k,
        other(from(#[trigger] place_of(k, size.0 as int))),
    ) by {
        let place = from(place_of(k, size.0 as int));
        let image = grid.image_at(place);
        let local = grid.place_in(place);
        let depth = image.converter.bit_depth;
        assert(pixel_shown::<T, S, F>(
            image,
            float_kernel,
            local,
            4,
            before,
            4 * k,
            opacity(place),
        ));
        let rgb = choose|rgb: (u16, u16, u16)|
            {
                &&& #[trigger] image.rgb_is(float_kernel, local, rgb)
                &&& before[4 * k] == S::scaled(rgb.0, depth)
                &&& before[4 * k + 1] == S::scaled(rgb.1, depth)
                &&& before[4 * k + 2] == S::scaled(rgb.2, depth)
            };
        assert(image.rgb_is(float_kernel, local, rgb));
        assert(after[4 * k] == before[4 * k]);
        assert(after[4 * k + 1] == before[4 * k + 1]);
        assert(after[4 * k + 2] == before[4 * k + 2]);
        assert((4 * k + 3) / 4 == k);
        assert(after[4 * k + 3] == other(place));
    }
}

/// A canvas filled with the colour of the gap shows a grid without tiles.
pub proof fn lemma_painted_gap<
    T: Copy,
    S: SampleScale<T>,
    F: Fn(PreparedYcbcrToRgb, i32, i32, i32) -> (u16, u16, u16),
>(
    grid: GridView,
    float_kernel: F,
    channels: int,
    pixel: Seq<T>,
    samples: Seq<T>,
    size: (u32, u32),
    from: spec_fn((int, int)) -> (int, int),
    opacity: spec_fn((int, int)) -> T,
)
    requires
        3 <= channels <= 4,
        grid.tiles.len() == 0,
        0 < grid.reference.tile_width,
        0 < grid.reference.tile_height,
        pixel.len() == channels,
        heic_image(gap_view(grid.reference), None).shows::<T, S, F>(
            float_kernel,
            (0, 0),
            channels,
            pixel,
            0,
        ),
        samples.len() == channels * (size.0 * size.1),
        forall|k: int, c: int|
            0 <= k < size.0 * size.1 && 0 <= c < channels ==> #[trigger] samples[channels * k + c]
                == pixel[c],
        forall|place: (int, int)| #[trigger] opacity(place) == S::opaque_value(),
        forall|place: (int, int)|
            inside(place, size.0, size.1) ==> inside(
                #[trigger] from(place),
                grid.descriptor.output_width,
                grid.descriptor.output_height,
            ),
    ensures
        painted::<T, S, F>(grid, true, float_kernel, channels, samples, size, from, opacity),
{
    let image = heic_image(gap_view(grid.reference), None);
    assert forall|k: int| 0 <= k < size.0 * size.1 implies pixel_shown::<T, S, F>(
        grid.image_at(from(place_of(k, size.0 as int))),
        float_kernel,
        grid.place_in(from(place_of(k, size.0 as int))),
        channels,
        samples,
        channels * k,
        opacity(from(#[trigger] place_of(k, size.0 as int))),
    ) by {
        let place = from(place_of(k, size.0 as int));
        lemma_place_of(k, size.0 as int, size.1 as int);
        let (c, r) = grid.cell(place);
        lemma_cell(place.0, grid.reference.tile_width as int, c);
        lemma_cell(place.1, grid.reference.tile_height as int, r);
        assert(0 <= r * grid.descriptor.columns + c) by (nonlinear_arith)
            requires
                0 <= r,
                0 <= c,
        ;
        assert(pixel_shown::<T, S, F>(
            image,
            float_kernel,
            (0, 0),
            channels,
            pixel,
            0,
            S::opaque_value(),
        ));
        assert forall|ch: int| 0 <= ch < channels implies #[trigger] samples[channels * k + ch]
            == pixel[0 + ch] by {}
        lemma_pixel_moved::<T, S, F>(
            image,
            float_kernel,
            (0, 0),
            channels,
            pixel,
            0,
            samples,
            channels * k,
            S::opaque_value(),
        );
    }
}

} // verus!
