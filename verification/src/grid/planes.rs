//! Grids as images of luma and chroma planes.
#[allow(unused_imports)]
use super::canvas::{converted_tile, lemma_cell, with_tile, GridView};
#[allow(unused_imports)]
use super::layout::{
    alignment_error, canvas_reference, empty_error, first_tile_error, mismatch_error, origin_error,
    tile_count_error,
};
use super::layout::{
    check_not_empty, check_tile_count, heic_grid_tile_origin,
    validate_decoded_heic_grid_first_tile, validate_decoded_heic_grid_tile_reference,
    validate_heic_grid_tile_origin_alignment, HeicGridDescriptor, HeicGridTileReference,
};
#[allow(unused_imports)]
use super::tiles::{produced, tile_views, tiles_tried};
use crate::errors::{invalid_frame, DecodeHeicError};
#[allow(unused_imports)]
use crate::errors::{bad_frame, first};
use crate::output::ByteOrder;
use crate::text::{Arg, Detail};
#[allow(unused_imports)]
use crate::transform::mapping::inside;
use crate::transform::paste::paste_upright;
#[allow(unused_imports)]
use crate::transform::paste::{covers, own_place, pasted};
#[allow(unused_imports)]
use crate::transform::pixels::{index_of, lemma_index_of, lemma_place_of, place_of};
use crate::types::{DecodedHeicImage, HeicPixelLayout, HeicPlane};
#[allow(unused_imports)]
use crate::types::{HeicView, PlaneView};
use crate::ycbcr::PreparedYcbcrToRgb;
use crate::yuv::heic::{
    heic_chroma_dimensions, heic_chroma_subsampling, heic_sample_count, require_heic_chroma_planes,
    validate_heic_plane_dimensions,
};
#[allow(unused_imports)]
use crate::yuv::heic::{
    chroma_dimensions, chroma_presence_error, count_error, heic_image, plane_size_error,
    shared_chroma,
};
#[allow(unused_imports)]
use crate::yuv::image::{chroma_size, lemma_chroma_place};
use vstd::prelude::*;

verus! {

/// The error for a plane with another number of samples than its size asks
/// for.
pub open spec fn buffer_len_error(
    plane: PlaneView,
    name: &'static str,
    overflow: &'static str,
    mismatch: &'static str,
) -> Option<DecodeHeicError> {
    if plane.width * plane.height > usize::MAX {
        Some(
            bad_frame(
                Detail::Three(
                    overflow,
                    Arg::Word(name),
                    Arg::Num(plane.width as i128),
                    Arg::Num(plane.height as i128),
                ),
            ),
        )
    } else if plane.samples.len() != plane.width * plane.height {
        Some(
            bad_frame(
                Detail::Three(
                    mismatch,
                    Arg::Word(name),
                    Arg::Num(plane.samples.len() as i128),
                    Arg::Num((plane.width * plane.height) as i128),
                ),
            ),
        )
    } else {
        None
    }
}

/// Checks that a plane has as many samples as its size asks for.
fn check_buffer_len(
    plane: &HeicPlane,
    name: &'static str,
    overflow: &'static str,
    mismatch: &'static str,
) -> (result: Result<(), DecodeHeicError>)
    ensures
        match buffer_len_error(plane@, name, overflow, mismatch) {
            Some(e) => result == Err::<(), DecodeHeicError>(e),
            None => result is Ok,
        },
{
    proof {
        assert(0 <= plane.width * plane.height) by (nonlinear_arith);
    }
    let count: usize = match (plane.width as usize).checked_mul(plane.height as usize) {
        None => {
            return invalid_frame(
                Detail::Three(
                    overflow,
                    Arg::Word(name),
                    Arg::Num(plane.width as i128),
                    Arg::Num(plane.height as i128),
                ),
            );
        },
        Some(count) => count,
    };
    if plane.samples.len() != count {
        return invalid_frame(
            Detail::Three(
                mismatch,
                Arg::Word(name),
                Arg::Num(plane.samples.len() as i128),
                Arg::Num(count as i128),
            ),
        );
    }
    Ok(())
}

/// Why a plane cannot be pasted onto another, if it cannot.
pub open spec fn plane_paste_error(
    source: PlaneView,
    destination: PlaneView,
    origin: (int, int),
    name: &'static str,
) -> Option<DecodeHeicError> {
    if origin.0 >= destination.width || origin.1 >= destination.height {
        None
    } else {
        first(
            buffer_len_error(
                source,
                name,
                "{} source sample count overflow for {}x{}",
                "{} source plane has {} samples, expected {}",
            ),
            buffer_len_error(
                destination,
                name,
                "{} destination sample count overflow for {}x{}",
                "{} destination plane has {} samples, expected {}",
            ),
        )
    }
}

/// A plane with another pasted onto it; what lies outside is cut off.
pub open spec fn plane_pasted(
    source: PlaneView,
    destination: PlaneView,
    origin: (u32, u32),
) -> PlaneView {
    if origin.0 >= destination.width || origin.1 >= destination.height {
        destination
    } else {
        PlaneView {
            samples: pasted(
                1,
                source.samples,
                (source.width, source.height),
                destination.samples,
                destination.width as int,
                origin,
                own_place(),
            ),
            ..destination
        }
    }
}

/// Pastes a plane onto another; what lies outside is cut off.
pub fn paste_heic_plane_with_clip(
    source: &HeicPlane,
    destination: &mut HeicPlane,
    x_origin: u32,
    y_origin: u32,
    plane: &'static str,
) -> (result: Result<(), DecodeHeicError>)
    ensures
        match plane_paste_error(
            source@,
            old(destination)@,
            (x_origin as int, y_origin as int),
            plane,
        ) {
            Some(e) => result == Err::<(), DecodeHeicError>(e) && final(destination)@ == old(
                destination,
            )@,
            None => result is Ok && final(destination)@ == plane_pasted(
                source@,
                old(destination)@,
                (x_origin, y_origin),
            ),
        },
{
    if x_origin >= destination.width || y_origin >= destination.height {
        return Ok(());
    }
    check_buffer_len(
        source,
        plane,
        "{} source sample count overflow for {}x{}",
        "{} source plane has {} samples, expected {}",
    )?;
    check_buffer_len(
        destination,
        plane,
        "{} destination sample count overflow for {}x{}",
        "{} destination plane has {} samples, expected {}",
    )?;
    let size: (u32, u32) = (destination.width, destination.height);
    paste_upright::<u16, [u16]>(
        1,
        source.samples.as_slice(),
        (source.width, source.height),
        destination.samples.as_mut_slice(),
        ByteOrder::LittleEndian,
        size,
        (x_origin, y_origin),
    );
    Ok(())
}

/// The error for a canvas without a chroma plane.
pub open spec fn missing_output(plane: Option<PlaneView>, template: &'static str) -> Option<
    DecodeHeicError,
> {
    if plane is None {
        Some(bad_frame(Detail::Plain(template)))
    } else {
        None
    }
}

/// Why the luma plane of a tile cannot be pasted onto a canvas, if it cannot.
pub open spec fn luma_paste_error(
    canvas: HeicView,
    tile: HeicView,
    tile_size: (u32, u32),
    row: int,
    column: int,
    tile_index: int,
) -> Option<DecodeHeicError> {
    let origin = (column * tile_size.0, row * tile_size.1);
    first(
        mismatch_error(tile, canvas_reference(canvas, tile_size.0, tile_size.1), tile_index),
        first(
            plane_size_error(
                tile.y_plane,
                tile.width as int,
                tile.height as int,
                "grid tile Y",
            ),
            first(
                origin_error(tile_size.0, tile_size.1, row, column),
                plane_paste_error(tile.y_plane, canvas.y_plane, origin, "grid tile Y"),
            ),
        ),
    )
}

/// Why the first chroma plane of a tile cannot be pasted onto a canvas, if it
/// cannot.
pub open spec fn u_paste_error(canvas: HeicView, tile: HeicView, origin: (int, int)) -> Option<
    DecodeHeicError,
> {
    let (across, down) = shared_chroma(canvas.layout);
    let (width, height) = chroma_dimensions(tile.width, tile.height, tile.layout);
    first(
        alignment_error(canvas.layout, origin),
        first(
            chroma_presence_error(tile),
            first(
                plane_size_error(tile.u_plane->0, width, height, "grid tile U"),
                first(
                    plane_size_error(tile.v_plane->0, width, height, "grid tile V"),
                    first(
                        missing_output(
                            canvas.u_plane,
                            "missing output U plane for non-monochrome grid",
                        ),
                        plane_paste_error(
                            tile.u_plane->0,
                            canvas.u_plane->0,
                            (origin.0 / across, origin.1 / down),
                            "grid tile U",
                        ),
                    ),
                ),
            ),
        ),
    )
}

/// Why the second chroma plane of a tile cannot be pasted onto a canvas, if it
/// cannot.
pub open spec fn v_paste_error(canvas: HeicView, tile: HeicView, origin: (int, int)) -> Option<
    DecodeHeicError,
> {
    let (across, down) = shared_chroma(canvas.layout);
    first(
        missing_output(canvas.v_plane, "missing output V plane for non-monochrome grid"),
        plane_paste_error(
            tile.v_plane->0,
            canvas.v_plane->0,
            (origin.0 / across, origin.1 / down),
            "grid tile V",
        ),
    )
}

/// Why a tile cannot be pasted onto the planes of a canvas, if it cannot.
pub open spec fn tile_paste_error(
    canvas: HeicView,
    tile: HeicView,
    tile_size: (u32, u32),
    row: int,
    column: int,
    tile_index: int,
) -> Option<DecodeHeicError> {
    let origin = (column * tile_size.0, row * tile_size.1);
    first(
        luma_paste_error(canvas, tile, tile_size, row, column, tile_index),
        if canvas.layout is Yuv400 {
            None
        } else {
            first(u_paste_error(canvas, tile, origin), v_paste_error(canvas, tile, origin))
        },
    )
}

/// What a canvas holds where a tile could not be pasted onto it: the planes
/// that were pasted before the error was met stay pasted.
pub open spec fn tile_half_pasted(
    canvas: HeicView,
    tile: HeicView,
    tile_size: (u32, u32),
    row: int,
    column: int,
    tile_index: int,
) -> HeicView {
    let origin = (column * tile_size.0, row * tile_size.1);
    let pasted = tile_pasted(canvas, tile, (origin.0 as u32, origin.1 as u32));
    if luma_paste_error(canvas, tile, tile_size, row, column, tile_index) is Some {
        canvas
    } else if u_paste_error(canvas, tile, origin) is Some {
        HeicView { y_plane: pasted.y_plane, ..canvas }
    } else {
        HeicView { y_plane: pasted.y_plane, u_plane: pasted.u_plane, ..canvas }
    }
}

/// A canvas with a tile pasted onto its planes.
pub open spec fn tile_pasted(canvas: HeicView, tile: HeicView, origin: (u32, u32)) -> HeicView {
    let (across, down) = shared_chroma(canvas.layout);
    let chroma_origin = ((origin.0 as int / across) as u32, (origin.1 as int / down) as u32);
    HeicView {
        y_plane: plane_pasted(tile.y_plane, canvas.y_plane, origin),
        u_plane: if canvas.layout is Yuv400 {
            canvas.u_plane
        } else {
            Some(plane_pasted(tile.u_plane->0, canvas.u_plane->0, chroma_origin))
        },
        v_plane: if canvas.layout is Yuv400 {
            canvas.v_plane
        } else {
            Some(plane_pasted(tile.v_plane->0, canvas.v_plane->0, chroma_origin))
        },
        ..canvas
    }
}

/// Pastes a tile onto the planes of a canvas. Where it fails, what was pasted
/// before stays pasted.
pub fn paste_decoded_heic_grid_tile(
    tile: &DecodedHeicImage,
    output: &mut DecodedHeicImage,
    tile_width: u32,
    tile_height: u32,
    row: usize,
    column: usize,
    tile_index: usize,
) -> (result: Result<(), DecodeHeicError>)
    ensures
        match tile_paste_error(
            old(output)@,
            tile@,
            (tile_width, tile_height),
            row as int,
            column as int,
            tile_index as int,
        ) {
            Some(e) => {
                &&& result == Err::<(), DecodeHeicError>(e)
                &&& final(output)@ == tile_half_pasted(
                    old(output)@,
                    tile@,
                    (tile_width, tile_height),
                    row as int,
                    column as int,
                    tile_index as int,
                )
            },
            None => {
                &&& result is Ok
                &&& final(output)@ == tile_pasted(
                    old(output)@,
                    tile@,
                    ((column * tile_width) as u32, (row * tile_height) as u32),
                )
            },
        },
{
    let reference: HeicGridTileReference = HeicGridTileReference::from_output_canvas(
        output,
        tile_width,
        tile_height,
    );
    validate_decoded_heic_grid_tile_reference(tile, &reference, tile_index)?;
    validate_heic_plane_dimensions(&tile.y_plane, tile.width, tile.height, "grid tile Y")?;
    let (x_origin, y_origin): (u32, u32) = heic_grid_tile_origin(
        tile_width,
        tile_height,
        row,
        column,
    )?;
    paste_heic_plane_with_clip(
        &tile.y_plane,
        &mut output.y_plane,
        x_origin,
        y_origin,
        "grid tile Y",
    )?;
    if matches!(output.layout, HeicPixelLayout::Yuv400) {
        return Ok(());
    }
    let (across, down): (u32, u32) = heic_chroma_subsampling(output.layout);
    validate_heic_grid_tile_origin_alignment(output.layout, x_origin, y_origin)?;
    let (u_plane, v_plane, width, height): (&HeicPlane, &HeicPlane, u32, u32) =
        require_heic_chroma_planes(tile)?;
    validate_heic_plane_dimensions(u_plane, width, height, "grid tile U")?;
    validate_heic_plane_dimensions(v_plane, width, height, "grid tile V")?;
    let chroma_x: u32 = x_origin / across;
    let chroma_y: u32 = y_origin / down;
    match &mut output.u_plane {
        None => {
            return invalid_frame(
                Detail::Plain("missing output U plane for non-monochrome grid"),
            );
        },
        Some(plane) => {
            paste_heic_plane_with_clip(u_plane, plane, chroma_x, chroma_y, "grid tile U")?;
        },
    }
    match &mut output.v_plane {
        None => {
            return invalid_frame(
                Detail::Plain("missing output V plane for non-monochrome grid"),
            );
        },
        Some(plane) => {
            paste_heic_plane_with_clip(v_plane, plane, chroma_x, chroma_y, "grid tile V")?;
        },
    }
    Ok(())
}

/// A plane of zeros.
pub open spec fn blank_plane(width: u32, height: u32) -> PlaneView {
    PlaneView {
        width,
        height,
        samples: Seq::new((width * height) as nat, |i: int| 0u16),
    }
}

/// The canvas of a grid before any tile is pasted onto it.
pub open spec fn blank_canvas(descriptor: HeicGridDescriptor, tile: HeicView) -> HeicView {
    let (width, height) = chroma_dimensions(
        descriptor.output_width,
        descriptor.output_height,
        tile.layout,
    );
    let chroma = if tile.layout is Yuv400 {
        None
    } else {
        Some(blank_plane(width as u32, height as u32))
    };
    HeicView {
        width: descriptor.output_width,
        height: descriptor.output_height,
        bit_depth_luma: tile.bit_depth_luma,
        bit_depth_chroma: tile.bit_depth_chroma,
        layout: tile.layout,
        ycbcr_range: tile.ycbcr_range,
        ycbcr_matrix: tile.ycbcr_matrix,
        y_plane: blank_plane(descriptor.output_width, descriptor.output_height),
        u_plane: chroma,
        v_plane: chroma,
    }
}

/// Why a grid has no canvas, if it has none.
pub open spec fn canvas_error(descriptor: HeicGridDescriptor, tile: HeicView) -> Option<
    DecodeHeicError,
> {
    let (width, height) = chroma_dimensions(
        descriptor.output_width,
        descriptor.output_height,
        tile.layout,
    );
    first(
        first_tile_error(descriptor, tile),
        first(
            count_error(
                descriptor.output_width as int,
                descriptor.output_height as int,
                "grid output Y",
            ),
            if tile.layout is Yuv400 {
                None
            } else {
                count_error(width, height, "grid output U/V")
            },
        ),
    )
}

/// The canvas of a grid, by its first tile.
pub fn create_decoded_heic_grid_output(
    descriptor: &HeicGridDescriptor,
    first_tile: &DecodedHeicImage,
) -> (result: Result<DecodedHeicImage, DecodeHeicError>)
    requires
        descriptor.rows > 0,
        descriptor.columns > 0,
    ensures
        match canvas_error(*descriptor, first_tile@) {
            Some(e) => result == Err::<DecodedHeicImage, DecodeHeicError>(e),
            None => result is Ok && result->Ok_0@ == blank_canvas(*descriptor, first_tile@),
        },
{
    validate_decoded_heic_grid_first_tile(descriptor, first_tile)?;
    let width: u32 = descriptor.output_width;
    let height: u32 = descriptor.output_height;
    let count: usize = heic_sample_count(width, height, "grid output Y")?;
    let y_plane: HeicPlane = HeicPlane { width, height, samples: vec![0u16; count] };
    assert(y_plane@.samples =~= blank_plane(width, height).samples);
    let (u_plane, v_plane): (Option<HeicPlane>, Option<HeicPlane>) = if matches!(
        first_tile.layout,
        HeicPixelLayout::Yuv400
    ) {
        (None, None)
    } else {
        let (chroma_width, chroma_height): (u32, u32) = heic_chroma_dimensions(
            width,
            height,
            first_tile.layout,
        );
        let chroma: usize = heic_sample_count(chroma_width, chroma_height, "grid output U/V")?;
        let u: HeicPlane = HeicPlane {
            width: chroma_width,
            height: chroma_height,
            samples: vec![0u16; chroma],
        };
        let v: HeicPlane = HeicPlane {
            width: chroma_width,
            height: chroma_height,
            samples: vec![0u16; chroma],
        };
        assert(u@.samples =~= blank_plane(chroma_width, chroma_height).samples);
        assert(v@.samples =~= blank_plane(chroma_width, chroma_height).samples);
        (Some(u), Some(v))
    };
    Ok(
        DecodedHeicImage {
            width,
            height,
            bit_depth_luma: first_tile.bit_depth_luma,
            bit_depth_chroma: first_tile.bit_depth_chroma,
            layout: first_tile.layout,
            ycbcr_range: first_tile.ycbcr_range,
            ycbcr_matrix: first_tile.ycbcr_matrix,
            y_plane,
            u_plane,
            v_plane,
        },
    )
}

/// The planes of an image.
pub enum PlaneKind {
    Luma,
    U,
    V,
}

/// One of the planes of an image.
pub open spec fn plane_of(image: HeicView, kind: PlaneKind) -> PlaneView {
    match kind {
        PlaneKind::Luma => image.y_plane,
        PlaneKind::U => image.u_plane->0,
        PlaneKind::V => image.v_plane->0,
    }
}

/// How many pixels across and down share a sample of a plane.
pub open spec fn sharing_of(layout: HeicPixelLayout, kind: PlaneKind) -> (int, int) {
    match kind {
        PlaneKind::Luma => (1, 1),
        _ => shared_chroma(layout),
    }
}

/// The sample of a grid at a place of one of its planes: that of its tile, or
/// zero where there is none.
pub open spec fn grid_sample(grid: GridView, kind: PlaneKind, place: (int, int)) -> u16 {
    let (across, down) = sharing_of(grid.reference.layout, kind);
    let pixel = (place.0 * across, place.1 * down);
    let (column, row) = grid.cell(pixel);
    if grid.covered(pixel, grid.tiles.len() as int) {
        let tile = grid.tiles[row * grid.descriptor.columns + column];
        plane_of(tile, kind).samples[index_of(
            (
                (pixel.0 % grid.reference.tile_width as int) / across,
                (pixel.1 % grid.reference.tile_height as int) / down,
            ),
            chroma_size(grid.reference.tile_width as int, across),
        )]
    } else {
        0
    }
}

/// Whether a plane shows the tiles of a grid.
pub open spec fn plane_shows(grid: GridView, kind: PlaneKind, plane: PlaneView) -> bool {
    let (across, down) = sharing_of(grid.reference.layout, kind);
    &&& plane.width == chroma_size(grid.descriptor.output_width as int, across)
    &&& plane.height == chroma_size(grid.descriptor.output_height as int, down)
    &&& plane.width * plane.height <= usize::MAX
    &&& plane.samples.len() == plane.width * plane.height
    &&& forall|k: int|
        0 <= k < plane.samples.len() ==> #[trigger] plane.samples[k] == grid_sample(
            grid,
            kind,
            place_of(k, plane.width as int),
        )
}

/// Whether the planes of an image show the tiles of a grid.
pub open spec fn planes_show(grid: GridView, image: HeicView) -> bool {
    &&& image.width == grid.descriptor.output_width
    &&& image.height == grid.descriptor.output_height
    &&& image.layout == grid.reference.layout
    &&& image.bit_depth_luma == grid.reference.bit_depth_luma
    &&& image.bit_depth_chroma == grid.reference.bit_depth_chroma
    &&& image.ycbcr_range == grid.reference.ycbcr_range
    &&& image.ycbcr_matrix == grid.reference.ycbcr_matrix
    &&& plane_shows(grid, PlaneKind::Luma, image.y_plane)
    &&& if grid.reference.layout is Yuv400 {
        image.u_plane is None && image.v_plane is None
    } else {
        &&& image.u_plane is Some
        &&& image.v_plane is Some
        &&& plane_shows(grid, PlaneKind::U, image.u_plane->0)
        &&& plane_shows(grid, PlaneKind::V, image.v_plane->0)
    }
}

/// A sample lies in a tile if and only if its first pixel does.
proof fn lemma_shared_cell(position: int, shared: int, start: int, size: int)
    requires
        1 <= shared <= 2,
        0 <= start,
        0 < size,
        start % shared == 0,
        0 <= position,
    ensures
        (start / shared <= position < start / shared + chroma_size(size, shared)) == (start
            <= position * shared < start + size),
        start <= position * shared ==> (position * shared - start) / shared == position - start
            / shared,
{
    if shared == 1 {
        assert(position * 1 == position);
    } else {
        assert(position * 2 == 2 * position);
        assert(start == 2 * (start / 2));
    }
}

/// Pasting the next tile of a grid onto a plane shows one tile more.
proof fn lemma_plane_paint(
    grid: GridView,
    tile: HeicView,
    kind: PlaneKind,
    before: PlaneView,
    after: PlaneView,
    origin: (u32, u32),
)
    requires
        plane_shows(grid, kind, before),
        grid.tiles.len() < grid.descriptor.rows * grid.descriptor.columns,
        grid.descriptor.columns > 0,
        0 < grid.reference.tile_width,
        0 < grid.reference.tile_height,
        origin.0 == (grid.tiles.len() as int % grid.descriptor.columns as int)
            * grid.reference.tile_width,
        origin.1 == (grid.tiles.len() as int / grid.descriptor.columns as int)
            * grid.reference.tile_height,
        ({
            let (across, down) = sharing_of(grid.reference.layout, kind);
            let source = plane_of(tile, kind);
            &&& origin.0 as int % across == 0
            &&& origin.1 as int % down == 0
            &&& source.width == chroma_size(grid.reference.tile_width as int, across)
            &&& source.height == chroma_size(grid.reference.tile_height as int, down)
            &&& after == plane_pasted(
                source,
                before,
                ((origin.0 as int / across) as u32, (origin.1 as int / down) as u32),
            )
        }),
    ensures
        plane_shows(with_tile(grid, tile), kind, after),
{
    let next = with_tile(grid, tile);
    let (across, down) = sharing_of(grid.reference.layout, kind);
    let source = plane_of(tile, kind);
    let n = grid.tiles.len() as int;
    let columns = grid.descriptor.columns as int;
    let tile_width = grid.reference.tile_width as int;
    let tile_height = grid.reference.tile_height as int;
    let column = n % columns;
    let row = n / columns;
    let corner = (origin.0 as int / across, origin.1 as int / down);
    vstd::arithmetic::div_mod::lemma_fundamental_div_mod(n, columns);
    vstd::arithmetic::div_mod::lemma_mod_bound(n, columns);
    vstd::arithmetic::div_mod::lemma_div_pos_is_pos(n, columns);
    assert(n == row * columns + column) by (nonlinear_arith)
        requires
            n == columns * row + column,
    ;
    assert(row < grid.descriptor.rows) by (nonlinear_arith)
        requires
            row * columns + column < grid.descriptor.rows * columns,
            0 <= column,
            columns > 0,
    ;
    assert(0 <= corner.0 <= origin.0 && 0 <= corner.1 <= origin.1) by {
        assert(across == 1 || across == 2);
        assert(down == 1 || down == 2);
    }
    assert forall|k: int| 0 <= k < after.samples.len() implies #[trigger] after.samples[k]
        == grid_sample(next, kind, place_of(k, after.width as int)) by {
        let place = place_of(k, before.width as int);
        lemma_place_of(k, before.width as int, before.height as int);
        lemma_shared_cell(place.0, across, origin.0 as int, tile_width);
        lemma_shared_cell(place.1, down, origin.1 as int, tile_height);
        let pixel = (place.0 * across, place.1 * down);
        assert(0 <= pixel.0 && 0 <= pixel.1) by (nonlinear_arith)
            requires
                pixel == (place.0 * across, place.1 * down),
                0 <= place.0,
                0 <= place.1,
                1 <= across,
                1 <= down,
        ;
        lemma_cell(pixel.0, tile_width, column);
        lemma_cell(pixel.1, tile_height, row);
        let (c, r) = grid.cell(pixel);
        let index = r * columns + c;
        let small = (corner.0 as u32, corner.1 as u32);
        assert(k / 1 == k && k % 1 == 0);
        if covers(small, (source.width, source.height), place) {
            assert(c == column && r == row);
            assert(next.covered(pixel, n + 1));
            assert(next.tiles[n] == tile);
        } else {
            assert(!(c == column && r == row));
            if c < columns && r < grid.descriptor.rows && index == n {
                assert(c == column && r == row) by (nonlinear_arith)
                    requires
                        r * columns + c == row * columns + column,
                        0 <= c < columns,
                        0 <= column < columns,
                        0 <= r,
                        0 <= row,
                ;
            }
            assert(next.covered(pixel, n + 1) == grid.covered(pixel, n));
            assert(0 <= index) by (nonlinear_arith)
                requires
                    index == r * columns + c,
                    0 <= r,
                    0 <= c,
                    0 <= columns,
            ;
            assert(after.samples[k] == before.samples[k]);
        }
    }
}

/// The first error that the tiles of a grid meet, in the order in which they
/// are pasted: that of decoding a tile, or of pasting it.
pub open spec fn plane_tiles_error(
    descriptor: HeicGridDescriptor,
    tiles: Seq<Result<DecodedHeicImage, DecodeHeicError>>,
    count: nat,
) -> Option<DecodeHeicError>
    decreases count,
{
    if count == 0 {
        None
    } else {
        let opening = tiles[0]->Ok_0@;
        first(
            plane_tiles_error(descriptor, tiles, (count - 1) as nat),
            match tiles[count - 1] {
                Err(e) => Some(e),
                Ok(tile) => tile_paste_error(
                    blank_canvas(descriptor, opening),
                    tile@,
                    (opening.width, opening.height),
                    (count - 1) / descriptor.columns as int,
                    (count - 1) % descriptor.columns as int,
                    count - 1,
                ),
            },
        )
    }
}

/// Why a grid cannot be decoded to planes, if it cannot.
pub open spec fn plane_grid_error(
    descriptor: HeicGridDescriptor,
    tile_count: int,
    tiles: Seq<Result<DecodedHeicImage, DecodeHeicError>>,
) -> Option<DecodeHeicError> {
    first(
        empty_error(descriptor),
        first(
            if tile_count == 0 {
                Some(
                    bad_frame(
                        Detail::Two(
                            "grid descriptor {}x{} has no decoded tiles",
                            Arg::Num(descriptor.columns as i128),
                            Arg::Num(descriptor.rows as i128),
                        ),
                    ),
                )
            } else {
                None
            },
            first(
                tile_count_error(descriptor, tile_count),
                match tiles[0] {
                    Err(e) => Some(e),
                    Ok(tile) => first(
                        canvas_error(descriptor, tile@),
                        plane_tiles_error(descriptor, tiles, tiles.len()),
                    ),
                },
            ),
        ),
    )
}

/// A grid as its tiles make it up on planes.
pub open spec fn plane_grid(
    descriptor: HeicGridDescriptor,
    tiles: Seq<Result<DecodedHeicImage, DecodeHeicError>>,
) -> GridView {
    let opening = tiles[0]->Ok_0@;
    GridView {
        descriptor,
        reference: canvas_reference(
            blank_canvas(descriptor, opening),
            opening.width,
            opening.height,
        ),
        tiles: tile_views(tiles),
    }
}

/// The earlier tiles of a grid meet what they meet without the later ones.
proof fn lemma_earlier_planes(
    descriptor: HeicGridDescriptor,
    tiles: Seq<Result<DecodedHeicImage, DecodeHeicError>>,
    more: Seq<Result<DecodedHeicImage, DecodeHeicError>>,
    count: nat,
)
    requires
        0 < tiles.len(),
        count <= tiles.len() <= more.len(),
        forall|k: int| 0 <= k < tiles.len() ==> #[trigger] more[k] == tiles[k],
    ensures
        plane_tiles_error(descriptor, more, count) == plane_tiles_error(descriptor, tiles, count),
    decreases count,
{
    if count > 0 {
        lemma_earlier_planes(descriptor, tiles, more, (count - 1) as nat);
        assert(more[count - 1] == tiles[count - 1]);
        assert(more[0] == tiles[0]);
    }
}

/// A plane of zeros shows a grid without tiles.
proof fn lemma_blank_plane(grid: GridView, kind: PlaneKind, plane: PlaneView)
    requires
        grid.tiles.len() == 0,
        0 < grid.reference.tile_width,
        0 < grid.reference.tile_height,
        ({
            let (across, down) = sharing_of(grid.reference.layout, kind);
            &&& plane.width == chroma_size(grid.descriptor.output_width as int, across)
            &&& plane.height == chroma_size(grid.descriptor.output_height as int, down)
        }),
        plane.width * plane.height <= usize::MAX,
        plane == blank_plane(plane.width, plane.height),
    ensures
        plane_shows(grid, kind, plane),
{
    let (across, down) = sharing_of(grid.reference.layout, kind);
    assert(0 <= plane.width * plane.height) by (nonlinear_arith);
    assert forall|k: int| 0 <= k < plane.samples.len() implies #[trigger] plane.samples[k]
        == grid_sample(grid, kind, place_of(k, plane.width as int)) by {
        let place = place_of(k, plane.width as int);
        lemma_place_of(k, plane.width as int, plane.height as int);
        let pixel = (place.0 * across, place.1 * down);
        assert(0 <= pixel.0 && 0 <= pixel.1) by (nonlinear_arith)
            requires
                pixel == (place.0 * across, place.1 * down),
                0 <= place.0,
                0 <= place.1,
                1 <= across,
                1 <= down,
        ;
        let (c, r) = grid.cell(pixel);
        lemma_cell(pixel.0, grid.reference.tile_width as int, c);
        lemma_cell(pixel.1, grid.reference.tile_height as int, r);
        assert(0 <= r * grid.descriptor.columns + c) by (nonlinear_arith)
            requires
                0 <= r,
                0 <= c,
        ;
    }
}

/// The empty canvas shows a grid without tiles.
proof fn lemma_blank_canvas(grid: GridView, tile: HeicView)
    requires
        grid.tiles.len() == 0,
        canvas_error(grid.descriptor, tile) is None,
        grid.reference == canvas_reference(
            blank_canvas(grid.descriptor, tile),
            tile.width,
            tile.height,
        ),
    ensures
        planes_show(grid, blank_canvas(grid.descriptor, tile)),
{
    let canvas = blank_canvas(grid.descriptor, tile);
    let width = grid.descriptor.output_width as int;
    let height = grid.descriptor.output_height as int;
    assert(chroma_size(width, 1) == width && chroma_size(height, 1) == height);
    assert(0 <= (width + 1) / 2 <= u32::MAX && 0 <= (height + 1) / 2 <= u32::MAX);
    lemma_blank_plane(grid, PlaneKind::Luma, canvas.y_plane);
    if !(tile.layout is Yuv400) {
        lemma_blank_plane(grid, PlaneKind::U, canvas.u_plane->0);
        lemma_blank_plane(grid, PlaneKind::V, canvas.v_plane->0);
    }
}

/// A pasted tile is one tile more.
proof fn lemma_canvas_paint(
    grid: GridView,
    tile: HeicView,
    before: HeicView,
    origin: (u32, u32),
)
    requires
        planes_show(grid, before),
        grid.tiles.len() < grid.descriptor.rows * grid.descriptor.columns,
        grid.descriptor.columns > 0,
        0 < grid.reference.tile_width,
        0 < grid.reference.tile_height,
        tile_paste_error(
            before,
            tile,
            (grid.reference.tile_width, grid.reference.tile_height),
            grid.tiles.len() as int / grid.descriptor.columns as int,
            grid.tiles.len() as int % grid.descriptor.columns as int,
            grid.tiles.len() as int,
        ) is None,
        origin.0 == (grid.tiles.len() as int % grid.descriptor.columns as int)
            * grid.reference.tile_width,
        origin.1 == (grid.tiles.len() as int / grid.descriptor.columns as int)
            * grid.reference.tile_height,
    ensures
        planes_show(with_tile(grid, tile), tile_pasted(before, tile, origin)),
{
    let after = tile_pasted(before, tile, origin);
    let width = grid.reference.tile_width as int;
    let height = grid.reference.tile_height as int;
    assert(chroma_size(width, 1) == width && chroma_size(height, 1) == height);
    assert(origin.0 as int % 1 == 0 && origin.1 as int % 1 == 0);
    assert(origin.0 as int / 1 == origin.0 && origin.1 as int / 1 == origin.1);
    lemma_plane_paint(grid, tile, PlaneKind::Luma, before.y_plane, after.y_plane, origin);
    if !(grid.reference.layout is Yuv400) {
        lemma_plane_paint(
            grid,
            tile,
            PlaneKind::U,
            before.u_plane->0,
            after.u_plane->0,
            origin,
        );
        lemma_plane_paint(
            grid,
            tile,
            PlaneKind::V,
            before.v_plane->0,
            after.v_plane->0,
            origin,
        );
    }
}

/// Whether the decoding of a grid gave `result`, for some outcomes of
/// decoding its tiles.
pub open spec fn plane_grid_decoded(
    descriptor: HeicGridDescriptor,
    tile_count: int,
    tiles: Seq<Result<DecodedHeicImage, DecodeHeicError>>,
    result: Result<DecodedHeicImage, DecodeHeicError>,
) -> bool {
    match plane_grid_error(descriptor, tile_count, tiles) {
        Some(e) => result == Err::<DecodedHeicImage, DecodeHeicError>(e),
        None => {
            &&& result is Ok
            &&& tiles.len() == tile_count
            &&& planes_show(plane_grid(descriptor, tiles), result->Ok_0@)
        },
    }
}

/// Decodes a grid to planes. The tiles are decoded one after another, by
/// `decode_tile`.
pub fn decode_primary_heic_grid_to_image<
    D: Fn(usize) -> Result<DecodedHeicImage, DecodeHeicError>,
>(descriptor: &HeicGridDescriptor, tile_count: usize, decode_tile: &D) -> (result: Result<
    DecodedHeicImage,
    DecodeHeicError,
>)
    requires
        forall|k: usize| k < tile_count ==> #[trigger] decode_tile.requires((k,)),
    ensures
        exists|tiles: Seq<Result<DecodedHeicImage, DecodeHeicError>>|
            {
                &&& #[trigger] produced(*decode_tile, tiles)
                &&& tiles_tried(*descriptor, tile_count as int, tiles.len() as int)
                &&& plane_grid_decoded(*descriptor, tile_count as int, tiles, result)
            },
{
    let ghost none: Seq<Result<DecodedHeicImage, DecodeHeicError>> = Seq::empty();
    assert(produced(*decode_tile, none));
    check_not_empty(descriptor)?;
    if tile_count == 0 {
        return invalid_frame(
            Detail::Two(
                "grid descriptor {}x{} has no decoded tiles",
                Arg::Num(descriptor.columns as i128),
                Arg::Num(descriptor.rows as i128),
            ),
        );
    }
    check_tile_count(descriptor, tile_count)?;
    proof {
        let rows = descriptor.rows;
        let columns = descriptor.columns;
        assert(rows > 0 && columns > 0) by {
            assert(rows == 0 || columns == 0 ==> rows * columns == 0) by (nonlinear_arith);
        }
    }
    let columns: usize = descriptor.columns as usize;
    let decoded: Result<DecodedHeicImage, DecodeHeicError> = decode_tile(0);
    let ghost mut tiles: Seq<Result<DecodedHeicImage, DecodeHeicError>> = seq![decoded];
    assert(produced(*decode_tile, tiles));
    let first_tile: DecodedHeicImage = decoded?;
    let ghost opening = first_tile@;
    let tile_width: u32 = first_tile.width;
    let tile_height: u32 = first_tile.height;
    let mut output: DecodedHeicImage = create_decoded_heic_grid_output(descriptor, &first_tile)?;
    let ghost blank = output@;
    let ghost grid = GridView {
        descriptor: *descriptor,
        reference: canvas_reference(blank, tile_width, tile_height),
        tiles: Seq::empty(),
    };
    proof {
        lemma_blank_canvas(grid, opening);
        reveal_with_fuel(plane_tiles_error, 2);
    }
    paste_decoded_heic_grid_tile(&first_tile, &mut output, tile_width, tile_height, 0, 0, 0)?;
    proof {
        assert(0int % columns as int == 0 && 0int / columns as int == 0);
        lemma_canvas_paint(grid, opening, blank, (0, 0));
        assert(with_tile(grid, opening).tiles =~= tile_views(tiles));
    }
    let mut index: usize = 1;
    while index < tile_count
        invariant
            1 <= index <= tile_count,
            tile_count == descriptor.rows * descriptor.columns,
            columns == descriptor.columns,
            columns > 0,
            tile_width == opening.width,
            tile_height == opening.height,
            0 < tile_width,
            0 < tile_height,
            empty_error(*descriptor) is None,
            canvas_error(*descriptor, opening) is None,
            forall|k: usize| k < tile_count ==> #[trigger] decode_tile.requires((k,)),
            tiles.len() == index,
            tiles[0] is Ok,
            tiles[0]->Ok_0@ == opening,
            produced(*decode_tile, tiles),
            blank == blank_canvas(*descriptor, opening),
            plane_tiles_error(*descriptor, tiles, index as nat) is None,
            grid.descriptor == *descriptor,
            grid.tiles == Seq::<HeicView>::empty(),
            grid.reference == canvas_reference(blank, tile_width, tile_height),
            planes_show(grid, blank),
            planes_show(plane_grid(*descriptor, tiles), output@),
        decreases tile_count - index,
    {
        let ghost earlier = tiles;
        let ghost before = output@;
        let ghost shown = plane_grid(*descriptor, earlier);
        let decoded: Result<DecodedHeicImage, DecodeHeicError> = decode_tile(index);
        proof {
            tiles = tiles.push(decoded);
            lemma_earlier_planes(*descriptor, earlier, tiles, index as nat);
            assert(produced(*decode_tile, tiles));
        }
        let tile: DecodedHeicImage = decoded?;
        proof {
            lemma_same_canvas(grid, blank, shown, before);
            assert(tile_paste_error(
                before,
                tile@,
                (tile_width, tile_height),
                index as int / columns as int,
                index as int % columns as int,
                index as int,
            ) == tile_paste_error(
                blank,
                tile@,
                (tile_width, tile_height),
                index as int / columns as int,
                index as int % columns as int,
                index as int,
            ));
        }
        paste_decoded_heic_grid_tile(
            &tile,
            &mut output,
            tile_width,
            tile_height,
            index / columns,
            index % columns,
            index,
        )?;
        proof {
            let origin = (
                ((index as int % columns as int) * tile_width) as u32,
                ((index as int / columns as int) * tile_height) as u32,
            );
            assert(origin.0 == (index as int % columns as int) * tile_width);
            assert(origin.1 == (index as int / columns as int) * tile_height);
            lemma_canvas_paint(shown, tile@, before, origin);
            assert(with_tile(shown, tile@).tiles =~= tile_views(tiles));
        }
        index = index + 1;
    }
    Ok(output)
}

/// Canvases of the same grid have the same planes, whatever is pasted.
proof fn lemma_same_canvas(one: GridView, first_canvas: HeicView, two: GridView, canvas: HeicView)
    requires
        planes_show(one, first_canvas),
        planes_show(two, canvas),
        one.descriptor == two.descriptor,
        one.reference == two.reference,
    ensures
        forall|tile: HeicView, size: (u32, u32), row: int, column: int, index: int| #[trigger]
            tile_paste_error(canvas, tile, size, row, column, index) == tile_paste_error(
                first_canvas,
                tile,
                size,
                row,
                column,
                index,
            ),
{
}

/// Where a chroma sample of a tile begins a pixel is the pixel's own.
proof fn lemma_shared_place(position: int, shared: int, size: int)
    requires
        1 <= shared <= 2,
        0 <= position,
        0 < size,
        ((position / size) * size) % shared == 0,
    ensures
        ((position / shared) * shared) / size == position / size,
        (((position / shared) * shared) % size) / shared == (position % size) / shared,
        0 <= (position / shared) * shared,
{
    let cell = position / size;
    let first_pixel = (position / shared) * shared;
    lemma_cell(position, size, cell);
    if shared == 1 {
        assert(position / 1 == position);
        assert(first_pixel == position) by (nonlinear_arith)
            requires
                first_pixel == position * 1,
        ;
        assert(first_pixel % size / 1 == position % size / 1);
    } else {
        let start = cell * size;
        assert(0 <= start) by (nonlinear_arith)
            requires
                start == cell * size,
                0 <= cell,
                0 < size,
        ;
        assert(first_pixel == 2 * (position / 2));
        assert(start <= first_pixel <= position);
        lemma_cell(first_pixel, size, cell);
        assert(first_pixel % size == first_pixel - start);
        assert((first_pixel - start) / 2 == (position - start) / 2);
    }
}

/// An image of the planes of a grid shows, at every place, the colour that
/// the pixel of the tile there has, or that of the gap. The exception is a
/// pixel that no tile covers, but whose chroma sample belongs to one.
pub proof fn lemma_planes_agree<F: Fn(PreparedYcbcrToRgb, i32, i32, i32) -> (u16, u16, u16)>(
    grid: GridView,
    image: HeicView,
    float_kernel: F,
    place: (int, int),
    rgb: (u16, u16, u16),
)
    requires
        planes_show(grid, image),
        inside(place, grid.descriptor.output_width, grid.descriptor.output_height),
        grid.tiles.len() == grid.descriptor.rows * grid.descriptor.columns,
        0 < grid.reference.tile_width,
        0 < grid.reference.tile_height,
        ({
            let (across, down) = shared_chroma(grid.reference.layout);
            let (column, row) = grid.cell(place);
            let tile = grid.tiles[row * grid.descriptor.columns + column];
            if grid.covered(place, grid.tiles.len() as int) {
                &&& mismatch_error(
                    tile,
                    grid.reference,
                    row * grid.descriptor.columns + column,
                ) is None
                &&& alignment_error(
                    grid.reference.layout,
                    (column * grid.reference.tile_width, row * grid.reference.tile_height),
                ) is None
            } else {
                grid.reference.layout is Yuv400 || !grid.covered(
                    ((place.0 / across) * across, (place.1 / down) * down),
                    grid.tiles.len() as int,
                )
            }
        }),
    ensures
        heic_image(converted_tile(image, grid.reference), None).rgb_is(float_kernel, place, rgb)
            == grid.image_at(place).rgb_is(float_kernel, grid.place_in(place), rgb),
{
    let (across, down) = shared_chroma(grid.reference.layout);
    let whole = heic_image(converted_tile(image, grid.reference), None);
    let part = grid.image_at(place);
    let local = grid.place_in(place);
    let width = grid.descriptor.output_width as int;
    let height = grid.descriptor.output_height as int;
    let tile_width = grid.reference.tile_width as int;
    let tile_height = grid.reference.tile_height as int;
    let (column, row) = grid.cell(place);
    lemma_cell(place.0, tile_width, column);
    lemma_cell(place.1, tile_height, row);
    assert(chroma_size(width, 1) == width && chroma_size(tile_width, 1) == tile_width);
    lemma_index_of(place, width, height);
    let k = index_of(place, width);
    assert((place.0 * 1, place.1 * 1) == place);
    assert(whole.luma[k] == grid_sample(grid, PlaneKind::Luma, place));
    assert((place.0 % tile_width) / 1 == place.0 % tile_width);
    assert((place.1 % tile_height) / 1 == place.1 % tile_height);
    assert(whole.luma[k] == part.luma[index_of(local, part.width as int)]);
    if !(grid.reference.layout is Yuv400) {
        let shared = (place.0 / across, place.1 / down);
        let chroma_width = chroma_size(width, across);
        let chroma_height = chroma_size(height, down);
        lemma_chroma_place(place.0, width, across);
        lemma_chroma_place(place.1, height, down);
        lemma_index_of(shared, chroma_width, chroma_height);
        let c = index_of(shared, chroma_width);
        assert(whole.chroma_at(place) == (
            grid_sample(grid, PlaneKind::U, shared) as int,
            grid_sample(grid, PlaneKind::V, shared) as int,
        ));
        if grid.covered(place, grid.tiles.len() as int) {
            lemma_shared_place(place.0, across, tile_width);
            lemma_shared_place(place.1, down, tile_height);
            let pixel = (shared.0 * across, shared.1 * down);
            assert(grid.cell(pixel) == grid.cell(place));
            let inner = (local.0 / across, local.1 / down);
            assert(grid_sample(grid, PlaneKind::U, shared) == part.chroma->0.u[index_of(
                inner,
                part.chroma->0.width,
            )]);
            assert(grid_sample(grid, PlaneKind::V, shared) == part.chroma->0.v[index_of(
                inner,
                part.chroma->0.width,
            )]);
        } else {
            assert(0int / across == 0 && 0int / down == 0);
            assert(index_of((0, 0), part.chroma->0.width) == 0) by (nonlinear_arith)
                requires
                    index_of((0, 0), part.chroma->0.width) == 0 * part.chroma->0.width + 0,
            ;
            assert(part.chroma_at(local) == (0int, 0int));
        }
        assert(whole.chroma_at(place) == part.chroma_at(local));
    }
}

} // verus!
