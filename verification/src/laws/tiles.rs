//! Where the samples of tiles and crops go.
#[allow(unused_imports)]
use crate::grid::canvas::GridView;
#[allow(unused_imports)]
use crate::grid::layout::HeicGridDescriptor;
#[allow(unused_imports)]
use crate::grid::planes::{
    blank_canvas, grid_sample, plane_pasted, planes_show, tile_pasted, PlaneKind,
};
use crate::laws::places::lemma_row_major;
#[allow(unused_imports)]
use crate::transform::aperture::CleanApertureCropBounds;
#[allow(unused_imports)]
use crate::transform::paste::own_place;
#[allow(unused_imports)]
use crate::transform::pixels::place_of;
#[allow(unused_imports)]
use crate::types::{HeicPixelLayout, HeicView, PlaneView};
#[allow(unused_imports)]
use crate::ycbcr::{prepared, transform_of};
#[allow(unused_imports)]
use crate::yuv::crop::cropped;
#[allow(unused_imports)]
use crate::yuv::image::chroma_size;
use vstd::prelude::*;

verus! {

/// The place of a tile's pixel on the canvas, and the tile and the place of
/// the canvas's pixel.
proof fn lemma_cell(tile: int, cell: int, inner: int)
    requires
        0 <= inner < tile,
        0 <= cell,
    ensures
        (cell * tile + inner) / tile == cell,
        (cell * tile + inner) % tile == inner,
{
    vstd::arithmetic::div_mod::lemma_fundamental_div_mod_converse(
        cell * tile + inner,
        tile,
        cell,
        inner,
    );
}

/// The tiles of a grid stand row by row: the pixel in column `i` and row `j`
/// of the tile in column `column` and row `row` of the grid, which is tile
/// `row * columns + column`, is the pixel of the image that many tiles and
/// pixels to the right and down. It has the samples of that tile, and the
/// range and the matrix of the grid.
pub proof fn lemma_tile_shown_at(grid: GridView, column: int, row: int, i: int, j: int)
    requires
        0 <= column < grid.descriptor.columns,
        0 <= row < grid.descriptor.rows,
        grid.tiles.len() == grid.descriptor.rows * grid.descriptor.columns,
        0 <= i < grid.reference.tile_width,
        0 <= j < grid.reference.tile_height,
    ensures
        ({
            let place = (
                column * grid.reference.tile_width + i,
                row * grid.reference.tile_height + j,
            );
            let tile = grid.tiles[row * grid.descriptor.columns + column];
            let image = grid.image_at(place);
            &&& grid.place_in(place) == (i, j)
            &&& image.width == tile.width
            &&& image.height == tile.height
            &&& image.luma == tile.y_plane.samples
            &&& tile.layout is Yuv400 ==> image.chroma is None
            &&& !(tile.layout is Yuv400) ==> image.chroma is Some && image.chroma->0.u
                == tile.u_plane->0.samples && image.chroma->0.v == tile.v_plane->0.samples
            &&& image.converter == prepared(
                tile.bit_depth_luma,
                grid.reference.conversion_ycbcr_range,
                transform_of(grid.reference.conversion_ycbcr_matrix)->Ok_0,
                tile.layout == HeicPixelLayout::Yuv420,
            )
            &&& image.opacity is None
        }),
{
    lemma_cell(grid.reference.tile_width as int, column, i);
    lemma_cell(grid.reference.tile_height as int, row, j);
    lemma_row_major(
        column,
        row,
        grid.descriptor.columns as int,
        grid.descriptor.rows as int,
    );
    assert(grid.descriptor.columns * grid.descriptor.rows == grid.descriptor.rows
        * grid.descriptor.columns) by (nonlinear_arith);
}

/// A pixel right of or below all tiles has no sample: luma, and chroma where
/// there is any, are zero.
pub proof fn lemma_gap_shown_at(grid: GridView, x: int, y: int)
    requires
        grid.reference.tile_width > 0,
        grid.reference.tile_height > 0,
        0 <= x,
        0 <= y,
        x >= grid.descriptor.columns * grid.reference.tile_width || y >= grid.descriptor.rows
            * grid.reference.tile_height,
    ensures
        grid.image_at((x, y)).luma == seq![0u16],
        grid.place_in((x, y)) == (0int, 0int),
        grid.image_at((x, y)).chroma matches Some(chroma) ==> chroma.u == seq![0u16] && chroma.v
            == seq![0u16],
{
    if x >= grid.descriptor.columns * grid.reference.tile_width {
        lemma_beyond(x, grid.reference.tile_width as int, grid.descriptor.columns as int);
    } else {
        lemma_beyond(y, grid.reference.tile_height as int, grid.descriptor.rows as int);
    }
}

/// What lies behind `count` tiles lies in none of them.
proof fn lemma_beyond(place: int, tile: int, count: int)
    requires
        tile > 0,
        place >= count * tile,
    ensures
        place / tile >= count,
{
    vstd::arithmetic::div_mod::lemma_fundamental_div_mod(place, tile);
    let cell = place / tile;
    let rest = place % tile;
    assert(cell >= count) by (nonlinear_arith)
        requires
            tile > 0,
            0 <= rest < tile,
            place == tile * cell + rest,
            place >= count * tile,
    ;
}

/// The planes of a grid's image show its tiles: in luma, the pixel in column
/// `i` and row `j` of tile `row * columns + column` stands that many tiles and
/// pixels to the right and down; in 4:4:4 so do the samples of U and V, each
/// taken from the plane of the same name.
pub proof fn lemma_planes_of_tiles(
    grid: GridView,
    image: HeicView,
    column: int,
    row: int,
    i: int,
    j: int,
)
    requires
        planes_show(grid, image),
        0 <= column < grid.descriptor.columns,
        0 <= row < grid.descriptor.rows,
        grid.tiles.len() == grid.descriptor.rows * grid.descriptor.columns,
        0 <= i < grid.reference.tile_width,
        0 <= j < grid.reference.tile_height,
        column * grid.reference.tile_width + i < grid.descriptor.output_width,
        row * grid.reference.tile_height + j < grid.descriptor.output_height,
    ensures
        ({
            let tile = grid.tiles[row * grid.descriptor.columns + column];
            let (x, y) = (
                column * grid.reference.tile_width + i,
                row * grid.reference.tile_height + j,
            );
            let at = y * grid.descriptor.output_width + x;
            let from = j * grid.reference.tile_width + i;
            &&& image.y_plane.samples[at] == tile.y_plane.samples[from]
            &&& grid.reference.layout is Yuv444 ==> image.u_plane->0.samples[at]
                == tile.u_plane->0.samples[from] && image.v_plane->0.samples[at]
                == tile.v_plane->0.samples[from]
        }),
{
    let (tile_width, tile_height) = (
        grid.reference.tile_width as int,
        grid.reference.tile_height as int,
    );
    let x = column * tile_width + i;
    let y = row * tile_height + j;
    let (width, height) = (
        grid.descriptor.output_width as int,
        grid.descriptor.output_height as int,
    );
    lemma_cell(tile_width, column, i);
    lemma_cell(tile_height, row, j);
    assert(0 <= x && 0 <= y) by (nonlinear_arith)
        requires
            0 <= column,
            0 <= row,
            0 < tile_width,
            0 < tile_height,
            0 <= i,
            0 <= j,
            x == column * tile_width + i,
            y == row * tile_height + j,
    ;
    lemma_row_major(x, y, width, height);
    lemma_row_major(column, row, grid.descriptor.columns as int, grid.descriptor.rows as int);
    assert(grid.descriptor.columns * grid.descriptor.rows == grid.descriptor.rows
        * grid.descriptor.columns) by (nonlinear_arith);
    assert(chroma_size(width, 1) == width && chroma_size(height, 1) == height && chroma_size(
        tile_width,
        1,
    ) == tile_width);
    let at = y * width + x;
    assert(place_of(at, width) == (x, y));
    assert(x * 1 == x && y * 1 == y && i / 1 == i && j / 1 == j);
    assert(image.y_plane.samples[at] == grid_sample(grid, PlaneKind::Luma, (x, y)));
    if grid.reference.layout is Yuv444 {
        assert(image.u_plane->0.samples[at] == grid_sample(grid, PlaneKind::U, (x, y)));
        assert(image.v_plane->0.samples[at] == grid_sample(grid, PlaneKind::V, (x, y)));
    }
}

/// In 4:2:0, a chroma sample of a grid's image with tiles of even size comes
/// from the tile that many half tiles to the right and down: U from U and V
/// from V.
pub proof fn lemma_shared_planes_of_tiles(
    grid: GridView,
    image: HeicView,
    half: (int, int),
    column: int,
    row: int,
    i: int,
    j: int,
)
    requires
        planes_show(grid, image),
        grid.reference.layout is Yuv420,
        grid.reference.tile_width == 2 * half.0,
        grid.reference.tile_height == 2 * half.1,
        0 <= column < grid.descriptor.columns,
        0 <= row < grid.descriptor.rows,
        grid.tiles.len() == grid.descriptor.rows * grid.descriptor.columns,
        0 <= i < half.0,
        0 <= j < half.1,
        2 * (column * half.0 + i) < grid.descriptor.output_width,
        2 * (row * half.1 + j) < grid.descriptor.output_height,
    ensures
        ({
            let tile = grid.tiles[row * grid.descriptor.columns + column];
            let at = (row * half.1 + j) * ((grid.descriptor.output_width + 1) / 2) + (column
                * half.0 + i);
            let from = j * half.0 + i;
            &&& image.u_plane->0.samples[at] == tile.u_plane->0.samples[from]
            &&& image.v_plane->0.samples[at] == tile.v_plane->0.samples[from]
        }),
{
    let (tile_width, tile_height) = (
        grid.reference.tile_width as int,
        grid.reference.tile_height as int,
    );
    let x = column * half.0 + i;
    let y = row * half.1 + j;
    let width = (grid.descriptor.output_width + 1) / 2;
    let height = (grid.descriptor.output_height + 1) / 2;
    assert(x * 2 == column * tile_width + 2 * i && y * 2 == row * tile_height + 2 * j && 0 <= x
        && 0 <= y) by (nonlinear_arith)
        requires
            x == column * half.0 + i,
            y == row * half.1 + j,
            tile_width == 2 * half.0,
            tile_height == 2 * half.1,
            0 <= column,
            0 <= row,
            0 <= i < half.0,
            0 <= j < half.1,
    ;
    lemma_cell(tile_width, column, 2 * i);
    lemma_cell(tile_height, row, 2 * j);
    lemma_row_major(x, y, width, height);
    lemma_row_major(column, row, grid.descriptor.columns as int, grid.descriptor.rows as int);
    assert(grid.descriptor.columns * grid.descriptor.rows == grid.descriptor.rows
        * grid.descriptor.columns) by (nonlinear_arith);
    assert(chroma_size(grid.descriptor.output_width as int, 2) == width && chroma_size(
        grid.descriptor.output_height as int,
        2,
    ) == height && chroma_size(tile_width, 2) == half.0);
    let at = y * width + x;
    assert(place_of(at, width) == (x, y));
    assert((2 * i) / 2 == i && (2 * j) / 2 == j);
    assert(image.u_plane->0.samples[at] == grid_sample(grid, PlaneKind::U, (x, y)));
    assert(image.v_plane->0.samples[at] == grid_sample(grid, PlaneKind::V, (x, y)));
}

/// In 4:2:2, a chroma sample of a grid's image with tiles of even width comes
/// from the tile that many half tiles to the right and tiles down: U from U and
/// V from V.
pub proof fn lemma_paired_planes_of_tiles(
    grid: GridView,
    image: HeicView,
    half: (int, int),
    column: int,
    row: int,
    i: int,
    j: int,
)
    requires
        planes_show(grid, image),
        grid.reference.layout is Yuv422,
        grid.reference.tile_width == 2 * half.0,
        grid.reference.tile_height == half.1,
        0 <= column < grid.descriptor.columns,
        0 <= row < grid.descriptor.rows,
        grid.tiles.len() == grid.descriptor.rows * grid.descriptor.columns,
        0 <= i < half.0,
        0 <= j < half.1,
        2 * (column * half.0 + i) < grid.descriptor.output_width,
        row * half.1 + j < grid.descriptor.output_height,
    ensures
        ({
            let tile = grid.tiles[row * grid.descriptor.columns + column];
            let at = (row * half.1 + j) * ((grid.descriptor.output_width + 1) / 2) + (column
                * half.0 + i);
            let from = j * half.0 + i;
            &&& image.u_plane->0.samples[at] == tile.u_plane->0.samples[from]
            &&& image.v_plane->0.samples[at] == tile.v_plane->0.samples[from]
        }),
{
    let (tile_width, tile_height) = (
        grid.reference.tile_width as int,
        grid.reference.tile_height as int,
    );
    let x = column * half.0 + i;
    let y = row * half.1 + j;
    let width = (grid.descriptor.output_width + 1) / 2;
    let height = grid.descriptor.output_height as int;
    assert(x * 2 == column * tile_width + 2 * i && y == row * tile_height + j && 0 <= x
        && 0 <= y) by (nonlinear_arith)
        requires
            x == column * half.0 + i,
            y == row * half.1 + j,
            tile_width == 2 * half.0,
            tile_height == half.1,
            0 <= column,
            0 <= row,
            0 <= i < half.0,
            0 <= j < half.1,
    ;
    lemma_cell(tile_width, column, 2 * i);
    lemma_cell(tile_height, row, j);
    lemma_row_major(x, y, width, height);
    lemma_row_major(column, row, grid.descriptor.columns as int, grid.descriptor.rows as int);
    assert(grid.descriptor.columns * grid.descriptor.rows == grid.descriptor.rows
        * grid.descriptor.columns) by (nonlinear_arith);
    assert(chroma_size(grid.descriptor.output_width as int, 2) == width && chroma_size(
        grid.descriptor.output_height as int,
        1,
    ) == height && chroma_size(tile_width, 2) == half.0);
    let at = y * width + x;
    assert(place_of(at, width) == (x, y));
    assert((2 * i) / 2 == i && j / 1 == j && y * 1 == y);
    assert(image.u_plane->0.samples[at] == grid_sample(grid, PlaneKind::U, (x, y)));
    assert(image.v_plane->0.samples[at] == grid_sample(grid, PlaneKind::V, (x, y)));
}

/// A plane that is pasted onto another covers it from its origin on, as far as
/// both reach; what it does not cover stays.
pub proof fn lemma_pasted_plane(
    source: PlaneView,
    destination: PlaneView,
    origin: (u32, u32),
    x: int,
    y: int,
)
    requires
        destination.samples.len() == destination.width * destination.height,
        0 <= x < destination.width,
        0 <= y < destination.height,
    ensures
        ({
            let result = plane_pasted(source, destination, origin);
            let at = y * destination.width + x;
            &&& result.width == destination.width
            &&& result.height == destination.height
            &&& result.samples.len() == destination.samples.len()
            &&& origin.0 <= x < origin.0 + source.width && origin.1 <= y < origin.1 + source.height
                ==> result.samples[at] == source.samples[(y - origin.1) * source.width + (x
                - origin.0)]
            &&& !(origin.0 <= x < origin.0 + source.width && origin.1 <= y < origin.1
                + source.height) ==> result.samples[at] == destination.samples[at]
        }),
{
    lemma_row_major(x, y, destination.width as int, destination.height as int);
    let at = y * destination.width + x;
    assert(at / 1 == at && at % 1 == 0);
    assert(place_of(at, destination.width as int) == (x, y));
    assert(own_place()(place_of(at, destination.width as int)) == (x, y));
}

/// A tile is pasted plane by plane: its luma at its origin, and its U and V
/// planes onto the planes of the same name, at half the column of the origin
/// where two columns share a sample, and at half the row where two rows do.
pub proof fn lemma_pasted_tile(canvas: HeicView, tile: HeicView, origin: (u32, u32))
    ensures
        ({
            let result = tile_pasted(canvas, tile, origin);
            let at = match canvas.layout {
                HeicPixelLayout::Yuv420 => (origin.0 / 2, origin.1 / 2),
                HeicPixelLayout::Yuv422 => (origin.0 / 2, origin.1),
                _ => origin,
            };
            &&& result.width == canvas.width
            &&& result.height == canvas.height
            &&& result.layout == canvas.layout
            &&& result.y_plane == plane_pasted(tile.y_plane, canvas.y_plane, origin)
            &&& canvas.layout is Yuv400 ==> result.u_plane == canvas.u_plane && result.v_plane
                == canvas.v_plane
            &&& !(canvas.layout is Yuv400) ==> result.u_plane == Some(
                plane_pasted(tile.u_plane->0, canvas.u_plane->0, at),
            ) && result.v_plane == Some(plane_pasted(tile.v_plane->0, canvas.v_plane->0, at))
        }),
{
    assert(origin.0 as int / 1 == origin.0 && origin.1 as int / 1 == origin.1);
}

/// The canvas of a grid has the size of the image, the layout, bit depths and
/// colours of its first tile, and nothing but zeros.
pub proof fn lemma_blank_canvas(descriptor: HeicGridDescriptor, tile: HeicView, k: int)
    requires
        0 <= k,
    ensures
        ({
            let canvas = blank_canvas(descriptor, tile);
            &&& canvas.width == descriptor.output_width
            &&& canvas.height == descriptor.output_height
            &&& canvas.layout == tile.layout
            &&& canvas.bit_depth_luma == tile.bit_depth_luma
            &&& canvas.bit_depth_chroma == tile.bit_depth_chroma
            &&& canvas.ycbcr_range == tile.ycbcr_range
            &&& canvas.ycbcr_matrix == tile.ycbcr_matrix
            &&& canvas.y_plane.width == descriptor.output_width
            &&& canvas.y_plane.height == descriptor.output_height
            &&& canvas.y_plane.samples.len() == descriptor.output_width * descriptor.output_height
            &&& k < canvas.y_plane.samples.len() ==> canvas.y_plane.samples[k] == 0
            &&& canvas.u_plane is None <==> tile.layout is Yuv400
            &&& canvas.v_plane == canvas.u_plane
            &&& tile.layout is Yuv420 ==> canvas.u_plane->0.width == (descriptor.output_width + 1)
                / 2 && canvas.u_plane->0.height == (descriptor.output_height + 1) / 2
            &&& tile.layout is Yuv422 ==> canvas.u_plane->0.width == (descriptor.output_width + 1)
                / 2 && canvas.u_plane->0.height == descriptor.output_height
            &&& tile.layout is Yuv444 ==> canvas.u_plane->0.width == descriptor.output_width
                && canvas.u_plane->0.height == descriptor.output_height
        }),
{
    let (w, h) = (descriptor.output_width as int, descriptor.output_height as int);
    assert(chroma_size(w, 1) == w && chroma_size(h, 1) == h);
    assert(chroma_size(w, 2) == (w + 1) / 2 && chroma_size(h, 2) == (h + 1) / 2);
    assert(0 <= w * h) by (nonlinear_arith)
        requires
            0 <= w,
            0 <= h,
    ;
}

/// A cropped image keeps its colours. The pixel in column `x` and row `y` of
/// its luma stood that many columns and rows from where the crop begins, and
/// so did the samples of U and V, each in its own plane, from half the column
/// and row where they are shared.
pub proof fn lemma_cropped_planes(
    decoded: HeicView,
    crop: CleanApertureCropBounds,
    x: int,
    y: int,
)
    requires
        crop.within(decoded.width, decoded.height),
        decoded.y_plane.width == decoded.width,
        0 <= x,
        0 <= y,
    ensures
        ({
            let result = cropped(decoded, crop);
            &&& result.width == crop.right - crop.left + 1
            &&& result.height == crop.bottom - crop.top + 1
            &&& result.layout == decoded.layout
            &&& result.bit_depth_luma == decoded.bit_depth_luma
            &&& result.bit_depth_chroma == decoded.bit_depth_chroma
            &&& result.ycbcr_range == decoded.ycbcr_range
            &&& result.ycbcr_matrix == decoded.ycbcr_matrix
            &&& x < result.width && y < result.height ==> result.y_plane.samples[y * result.width
                + x] == decoded.y_plane.samples[(crop.top + y) * decoded.width + (crop.left + x)]
            &&& decoded.layout is Yuv444 && decoded.u_plane->0.width == decoded.width
                && decoded.v_plane->0.width == decoded.width && x < result.width && y
                < result.height ==> result.u_plane->0.samples[y * result.width + x]
                == decoded.u_plane->0.samples[(crop.top + y) * decoded.width + (crop.left + x)]
                && result.v_plane->0.samples[y * result.width + x]
                == decoded.v_plane->0.samples[(crop.top + y) * decoded.width + (crop.left + x)]
            &&& decoded.layout is Yuv420 && decoded.u_plane->0.width == (decoded.width + 1) / 2
                && decoded.v_plane->0.width == (decoded.width + 1) / 2 && 2 * x < result.width && 2
                * y < result.height ==> {
                let wide = (result.width + 1) / 2;
                let from = (crop.top as int / 2 + y) * ((decoded.width + 1) / 2) + (
                crop.left as int / 2 + x);
                &&& result.u_plane->0.samples[y * wide + x] == decoded.u_plane->0.samples[from]
                &&& result.v_plane->0.samples[y * wide + x] == decoded.v_plane->0.samples[from]
            }
        }),
{
    let result = cropped(decoded, crop);
    let (w, h) = (crop.width as int, crop.height as int);
    assert(chroma_size(w, 1) == w && chroma_size(h, 1) == h);
    assert(chroma_size(w, 2) == (w + 1) / 2 && chroma_size(h, 2) == (h + 1) / 2);
    assert(crop.left as int / 1 == crop.left && crop.top as int / 1 == crop.top);
    if x < w && y < h {
        lemma_row_major(x, y, w, h);
    }
    if 2 * x < w && 2 * y < h {
        lemma_row_major(x, y, (w + 1) / 2, (h + 1) / 2);
    }
}

} // verus!
