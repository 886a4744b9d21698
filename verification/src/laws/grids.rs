//! What a grid asks of its tiles.
#[allow(unused_imports)]
use crate::grid::layout::{
    alignment_error, canvas_reference, empty_error, first_tile_error, mismatch_error, origin_error,
    tile_count_error, tile_reference, tiles_cover, HeicGridDescriptor, HeicGridTileReference,
};
#[allow(unused_imports)]
use crate::types::{HeicPixelLayout, HeicView, PrimaryItemColorProperties};
use vstd::prelude::*;

verus! {

/// A grid of equal tiles that are not empty and that together cover the image
/// is never refused for the size of its first tile. It is refused exactly
/// where a tile is empty, or where tiles that are one column wider, or one row
/// higher, would not reach past the image.
pub proof fn lemma_first_tile_size(descriptor: HeicGridDescriptor, tile: HeicView)
    requires
        descriptor.rows > 0,
        descriptor.columns > 0,
    ensures
        tile.width > 0 && tile.height > 0 && descriptor.columns * tile.width
            >= descriptor.output_width && descriptor.rows * tile.height
            >= descriptor.output_height ==> first_tile_error(descriptor, tile) is None,
        first_tile_error(descriptor, tile) is Some <==> tile.width == 0 || tile.height == 0
            || descriptor.columns * (tile.width + 1) <= descriptor.output_width || descriptor.rows
            * (tile.height + 1) <= descriptor.output_height,
{
    lemma_too_small(
        tile.width as int,
        descriptor.columns as int,
        descriptor.output_width as int,
    );
    lemma_too_small(tile.height as int, descriptor.rows as int, descriptor.output_height as int);
}

/// A tile is smaller than its share where one that is larger by one is not
/// larger than it.
proof fn lemma_too_small(tile: int, count: int, output: int)
    requires
        count > 0,
        tile >= 0,
        output >= 0,
    ensures
        tile < output / count <==> count * (tile + 1) <= output,
        count * tile >= output ==> !(tile < output / count),
{
    vstd::arithmetic::div_mod::lemma_fundamental_div_mod(output, count);
    let share = output / count;
    let rest = output % count;
    assert(tile < share <==> count * (tile + 1) <= output) by (nonlinear_arith)
        requires
            count > 0,
            output == count * share + rest,
            0 <= rest < count,
    ;
    assert(count * (tile + 1) == count * tile + count) by (nonlinear_arith);
}

/// A grid is accepted with one tile for each of its places, and with no other
/// number; it is empty where its image has no column or no row.
pub proof fn lemma_tile_count(descriptor: HeicGridDescriptor, tiles: int)
    ensures
        tile_count_error(descriptor, tiles) is None <==> tiles == descriptor.rows
            * descriptor.columns,
        empty_error(descriptor) is None <==> descriptor.output_width > 0
            && descriptor.output_height > 0,
{
}

/// Tiles cover the image exactly where every pixel of it lies in one of them:
/// the pixel in column `x` and row `y` lies in tile column `x / tile_width`
/// and tile row `y / tile_height`.
pub proof fn lemma_every_pixel_covered(
    descriptor: HeicGridDescriptor,
    reference: HeicGridTileReference,
)
    requires
        reference.tile_width > 0,
        reference.tile_height > 0,
        descriptor.output_width > 0,
        descriptor.output_height > 0,
    ensures
        tiles_cover(descriptor, reference) <==> ((descriptor.output_width - 1)
            / (reference.tile_width as int)) < descriptor.columns && ((descriptor.output_height
            - 1) / (reference.tile_height as int)) < descriptor.rows,
{
    lemma_last_place(
        descriptor.output_width as int,
        reference.tile_width as int,
        descriptor.columns as int,
    );
    lemma_last_place(
        descriptor.output_height as int,
        reference.tile_height as int,
        descriptor.rows as int,
    );
}

/// `count` tiles reach past the last of `output` places where it lies in one
/// of them.
proof fn lemma_last_place(output: int, tile: int, count: int)
    requires
        output > 0,
        tile > 0,
        count >= 0,
    ensures
        count * tile >= output <==> (output - 1) / tile < count,
{
    vstd::arithmetic::div_mod::lemma_fundamental_div_mod(output - 1, tile);
    let place = (output - 1) / tile;
    let rest = (output - 1) % tile;
    assert(count * tile >= output <==> place < count) by (nonlinear_arith)
        requires
            tile > 0,
            output - 1 == tile * place + rest,
            0 <= rest < tile,
    ;
}

/// The tiles of a grid have the size, the layout, the bit depths and the
/// colours of its first tile. They are converted as the colours of the grid
/// say, and as those of the tile where the grid says nothing.
pub proof fn lemma_reference_of_first_tile(tile: HeicView, colr: &PrimaryItemColorProperties)
    ensures
        ({
            let reference = tile_reference(tile, colr);
            &&& reference.tile_width == tile.width
            &&& reference.tile_height == tile.height
            &&& reference.layout == tile.layout
            &&& reference.bit_depth_luma == tile.bit_depth_luma
            &&& reference.bit_depth_chroma == tile.bit_depth_chroma
            &&& reference.ycbcr_range == tile.ycbcr_range
            &&& reference.ycbcr_matrix == tile.ycbcr_matrix
            &&& match colr.nclx {
                Some(nclx) => if nclx.is_undefined {
                    &&& reference.conversion_ycbcr_range == tile.ycbcr_range
                    &&& reference.conversion_ycbcr_matrix == tile.ycbcr_matrix
                } else {
                    &&& reference.conversion_ycbcr_range is Full <==> nclx.full_range_flag
                    &&& reference.conversion_ycbcr_matrix.matrix_coefficients
                        == nclx.matrix_coefficients
                    &&& reference.conversion_ycbcr_matrix.colour_primaries == nclx.colour_primaries
                },
                None => {
                    &&& reference.conversion_ycbcr_range == tile.ycbcr_range
                    &&& reference.conversion_ycbcr_matrix == tile.ycbcr_matrix
                },
            }
        }),
{
}

/// A tile matches its own reference at every place of the grid, and another
/// tile matches it exactly where the two have the same size, layout, bit
/// depths, range and matrix.
pub proof fn lemma_tiles_match(
    tile: HeicView,
    other: HeicView,
    colr: &PrimaryItemColorProperties,
    index: int,
)
    ensures
        mismatch_error(tile, tile_reference(tile, colr), index) is None,
        mismatch_error(other, tile_reference(tile, colr), index) is None <==> other.width
            == tile.width && other.height == tile.height && other.layout == tile.layout
            && other.bit_depth_luma == tile.bit_depth_luma && other.bit_depth_chroma
            == tile.bit_depth_chroma && other.ycbcr_range == tile.ycbcr_range && other.ycbcr_matrix
            == tile.ycbcr_matrix,
{
}

/// A tile matches a canvas exactly where it has the given size, and the
/// layout, bit depths, range and matrix of the canvas.
pub proof fn lemma_tile_matches_canvas(
    canvas: HeicView,
    tile_width: u32,
    tile_height: u32,
    tile: HeicView,
    index: int,
)
    ensures
        mismatch_error(tile, canvas_reference(canvas, tile_width, tile_height), index) is None
            <==> tile.width == tile_width && tile.height == tile_height && tile.layout
            == canvas.layout && tile.bit_depth_luma == canvas.bit_depth_luma
            && tile.bit_depth_chroma == canvas.bit_depth_chroma && tile.ycbcr_range
            == canvas.ycbcr_range && tile.ycbcr_matrix == canvas.ycbcr_matrix,
        canvas_reference(canvas, tile_width, tile_height).conversion_ycbcr_range
            == canvas.ycbcr_range,
        canvas_reference(canvas, tile_width, tile_height).conversion_ycbcr_matrix
            == canvas.ycbcr_matrix,
{
}

/// The place of a tile can be written down where the products of its column
/// and the width, and of its row and the height, fit in 32 bits. It may begin
/// in any column and row where no chroma sample is shared, in even columns
/// where two columns share one, and in even rows where two rows share one.
pub proof fn lemma_tile_places(
    tile_width: u32,
    tile_height: u32,
    row: int,
    column: int,
    layout: HeicPixelLayout,
    origin: (int, int),
)
    ensures
        origin_error(tile_width, tile_height, row, column) is None <==> column * tile_width
            < 0x1_0000_0000 && row * tile_height < 0x1_0000_0000,
        alignment_error(layout, origin) is None <==> ((layout is Yuv420 || layout is Yuv422)
            ==> origin.0 % 2 == 0) && (layout is Yuv420 ==> origin.1 % 2 == 0),
{
}

} // verus!
