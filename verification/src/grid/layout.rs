//! How the tiles of a grid are laid out, and what they must have in common.
use crate::errors::{invalid_frame, DecodeHeicError};
#[allow(unused_imports)]
use crate::errors::{bad_frame, first};
use crate::text::{Arg, Detail};
use crate::types::{
    DecodedHeicImage, HeicPixelLayout, PrimaryItemColorProperties, YCbCrMatrixCoefficients,
    YCbCrRange,
};
#[allow(unused_imports)]
use crate::types::HeicView;
#[allow(unused_imports)]
use crate::ycbcr::{matrix_override, range_override};
use crate::ycbcr::{
    ycbcr_matrix_override_from_primary_colr, ycbcr_range_override_from_primary_colr,
};
use crate::yuv::heic::heic_chroma_subsampling;
#[allow(unused_imports)]
use crate::yuv::heic::shared_chroma;
use vstd::prelude::*;

verus! {

/// The rows and columns of a grid, and the size of the image that it makes up.
#[derive(Clone, Copy, Debug, PartialEq, Eq, Structural)]
pub struct HeicGridDescriptor {
    pub rows: u16,
    pub columns: u16,
    pub output_width: u32,
    pub output_height: u32,
}

/// Why a grid is empty, if it is.
pub open spec fn empty_error(descriptor: HeicGridDescriptor) -> Option<DecodeHeicError> {
    if descriptor.output_width == 0 || descriptor.output_height == 0 {
        Some(
            bad_frame(
                Detail::Two(
                    "grid descriptor output dimensions must be non-zero, got {}x{}",
                    Arg::Num(descriptor.output_width as i128),
                    Arg::Num(descriptor.output_height as i128),
                ),
            ),
        )
    } else {
        None
    }
}

/// The error for a grid with another number of tiles than it should have.
pub open spec fn tile_count_error(descriptor: HeicGridDescriptor, tiles: int) -> Option<
    DecodeHeicError,
> {
    if tiles != descriptor.rows * descriptor.columns {
        Some(
            bad_frame(
                Detail::Four(
                    "grid descriptor {}x{} expects {} tiles, got {}",
                    Arg::Num(descriptor.columns as i128),
                    Arg::Num(descriptor.rows as i128),
                    Arg::Num((descriptor.rows * descriptor.columns) as i128),
                    Arg::Num(tiles as i128),
                ),
            ),
        )
    } else {
        None
    }
}

/// Checks that a grid is not empty.
pub(crate) fn check_not_empty(descriptor: &HeicGridDescriptor) -> (result: Result<
    (),
    DecodeHeicError,
>)
    ensures
        match empty_error(*descriptor) {
            Some(e) => result == Err::<(), DecodeHeicError>(e),
            None => result is Ok,
        },
{
    if descriptor.output_width == 0 || descriptor.output_height == 0 {
        return invalid_frame(
            Detail::Two(
                "grid descriptor output dimensions must be non-zero, got {}x{}",
                Arg::Num(descriptor.output_width as i128),
                Arg::Num(descriptor.output_height as i128),
            ),
        );
    }
    Ok(())
}

/// Checks that a grid has as many tiles as it should.
pub(crate) fn check_tile_count(descriptor: &HeicGridDescriptor, tile_count: usize) -> (result: Result<
    (),
    DecodeHeicError,
>)
    ensures
        match tile_count_error(*descriptor, tile_count as int) {
            Some(e) => result == Err::<(), DecodeHeicError>(e),
            None => result is Ok,
        },
{
    let rows: u64 = descriptor.rows as u64;
    let columns: u64 = descriptor.columns as u64;
    proof {
        assert(0 <= rows * columns <= 65535 * 65535) by (nonlinear_arith)
            requires
                rows <= 65535,
                columns <= 65535,
        ;
    }
    let expected: u64 = rows * columns;
    if tile_count as u64 != expected {
        return invalid_frame(
            Detail::Four(
                "grid descriptor {}x{} expects {} tiles, got {}",
                Arg::Num(descriptor.columns as i128),
                Arg::Num(descriptor.rows as i128),
                Arg::Num(expected as i128),
                Arg::Num(tile_count as i128),
            ),
        );
    }
    Ok(())
}

/// Checks that a grid is not empty and has as many tiles as it should.
pub fn validate_heic_grid_descriptor_and_tile_count(
    descriptor: &HeicGridDescriptor,
    tile_count: usize,
) -> (result: Result<(), DecodeHeicError>)
    ensures
        match first(empty_error(*descriptor), tile_count_error(*descriptor, tile_count as int)) {
            Some(e) => result == Err::<(), DecodeHeicError>(e),
            None => result is Ok,
        },
{
    check_not_empty(descriptor)?;
    check_tile_count(descriptor, tile_count)
}

/// Why a tile cannot be the first of a grid, if it cannot.
pub open spec fn first_tile_error(descriptor: HeicGridDescriptor, tile: HeicView) -> Option<
    DecodeHeicError,
> {
    if tile.width == 0 || tile.height == 0 {
        Some(
            bad_frame(
                Detail::Two(
                    "grid tile geometry must be non-zero, got {}x{}",
                    Arg::Num(tile.width as i128),
                    Arg::Num(tile.height as i128),
                ),
            ),
        )
    } else if tile.width < descriptor.output_width as int / descriptor.columns as int
        || tile.height < descriptor.output_height as int / descriptor.rows as int {
        Some(
            bad_frame(
                Detail::Six(
                    "grid tile {}x{} is too small for a {}x{} grid with output {}x{}",
                    Arg::Num(tile.width as i128),
                    Arg::Num(tile.height as i128),
                    Arg::Num(descriptor.columns as i128),
                    Arg::Num(descriptor.rows as i128),
                    Arg::Num(descriptor.output_width as i128),
                    Arg::Num(descriptor.output_height as i128),
                ),
            ),
        )
    } else {
        None
    }
}

/// Checks that the first tile is not much too small for its grid.
pub fn validate_decoded_heic_grid_first_tile(
    descriptor: &HeicGridDescriptor,
    first_tile: &DecodedHeicImage,
) -> (result: Result<(), DecodeHeicError>)
    requires
        descriptor.rows > 0,
        descriptor.columns > 0,
    ensures
        match first_tile_error(*descriptor, first_tile@) {
            Some(e) => result == Err::<(), DecodeHeicError>(e),
            None => result is Ok,
        },
{
    if first_tile.width == 0 || first_tile.height == 0 {
        return invalid_frame(
            Detail::Two(
                "grid tile geometry must be non-zero, got {}x{}",
                Arg::Num(first_tile.width as i128),
                Arg::Num(first_tile.height as i128),
            ),
        );
    }
    if first_tile.width < descriptor.output_width / descriptor.columns as u32 || first_tile.height
        < descriptor.output_height / descriptor.rows as u32 {
        return invalid_frame(
            Detail::Six(
                "grid tile {}x{} is too small for a {}x{} grid with output {}x{}",
                Arg::Num(first_tile.width as i128),
                Arg::Num(first_tile.height as i128),
                Arg::Num(descriptor.columns as i128),
                Arg::Num(descriptor.rows as i128),
                Arg::Num(descriptor.output_width as i128),
                Arg::Num(descriptor.output_height as i128),
            ),
        );
    }
    Ok(())
}

/// What every tile of a grid must match, and how the tiles are converted.
#[derive(Clone, Copy, Debug, PartialEq, Eq, Structural)]
pub struct HeicGridTileReference {
    pub tile_width: u32,
    pub tile_height: u32,
    pub layout: HeicPixelLayout,
    pub bit_depth_luma: u8,
    pub bit_depth_chroma: u8,
    pub ycbcr_range: YCbCrRange,
    pub ycbcr_matrix: YCbCrMatrixCoefficients,
    pub conversion_ycbcr_range: YCbCrRange,
    pub conversion_ycbcr_matrix: YCbCrMatrixCoefficients,
}

/// What the tiles of a grid must match, by its first tile and its colour
/// properties.
pub open spec fn tile_reference(
    tile: HeicView,
    colr: &PrimaryItemColorProperties,
) -> HeicGridTileReference {
    HeicGridTileReference {
        tile_width: tile.width,
        tile_height: tile.height,
        layout: tile.layout,
        bit_depth_luma: tile.bit_depth_luma,
        bit_depth_chroma: tile.bit_depth_chroma,
        ycbcr_range: tile.ycbcr_range,
        ycbcr_matrix: tile.ycbcr_matrix,
        conversion_ycbcr_range: match range_override(colr) {
            Some(range) => range,
            None => tile.ycbcr_range,
        },
        conversion_ycbcr_matrix: match matrix_override(colr) {
            Some(matrix) => matrix,
            None => tile.ycbcr_matrix,
        },
    }
}

/// What the tiles of a grid must match to be pasted onto planes.
pub open spec fn canvas_reference(
    canvas: HeicView,
    tile_width: u32,
    tile_height: u32,
) -> HeicGridTileReference {
    HeicGridTileReference {
        tile_width,
        tile_height,
        layout: canvas.layout,
        bit_depth_luma: canvas.bit_depth_luma,
        bit_depth_chroma: canvas.bit_depth_chroma,
        ycbcr_range: canvas.ycbcr_range,
        ycbcr_matrix: canvas.ycbcr_matrix,
        conversion_ycbcr_range: canvas.ycbcr_range,
        conversion_ycbcr_matrix: canvas.ycbcr_matrix,
    }
}

impl HeicGridTileReference {
    /// What the tiles of a grid must match, by its first tile. The colour
    /// properties of the grid say how they are converted, where they say so.
    pub fn from_first_tile(
        first_tile: &DecodedHeicImage,
        grid_colr: &PrimaryItemColorProperties,
    ) -> (reference: Self)
        ensures
            reference == tile_reference(first_tile@, grid_colr),
    {
        HeicGridTileReference {
            tile_width: first_tile.width,
            tile_height: first_tile.height,
            layout: first_tile.layout,
            bit_depth_luma: first_tile.bit_depth_luma,
            bit_depth_chroma: first_tile.bit_depth_chroma,
            ycbcr_range: first_tile.ycbcr_range,
            ycbcr_matrix: first_tile.ycbcr_matrix,
            conversion_ycbcr_range: match ycbcr_range_override_from_primary_colr(grid_colr) {
                Some(range) => range,
                None => first_tile.ycbcr_range,
            },
            conversion_ycbcr_matrix: match ycbcr_matrix_override_from_primary_colr(grid_colr) {
                Some(matrix) => matrix,
                None => first_tile.ycbcr_matrix,
            },
        }
    }

    /// What tiles must match to be pasted onto planes.
    pub fn from_output_canvas(
        output: &DecodedHeicImage,
        tile_width: u32,
        tile_height: u32,
    ) -> (reference: Self)
        ensures
            reference == canvas_reference(output@, tile_width, tile_height),
    {
        HeicGridTileReference {
            tile_width,
            tile_height,
            layout: output.layout,
            bit_depth_luma: output.bit_depth_luma,
            bit_depth_chroma: output.bit_depth_chroma,
            ycbcr_range: output.ycbcr_range,
            ycbcr_matrix: output.ycbcr_matrix,
            conversion_ycbcr_range: output.ycbcr_range,
            conversion_ycbcr_matrix: output.ycbcr_matrix,
        }
    }
}

/// Whether the tiles leave no pixel of the image uncovered.
pub open spec fn tiles_cover(
    descriptor: HeicGridDescriptor,
    reference: HeicGridTileReference,
) -> bool {
    &&& descriptor.columns * reference.tile_width >= descriptor.output_width
    &&& descriptor.rows * reference.tile_height >= descriptor.output_height
}

/// Whether the tiles leave no pixel of the image uncovered.
pub fn heic_grid_tiles_cover_descriptor(
    descriptor: &HeicGridDescriptor,
    reference: &HeicGridTileReference,
) -> (cover: bool)
    ensures
        cover == tiles_cover(*descriptor, *reference),
{
    let columns: u64 = descriptor.columns as u64;
    let rows: u64 = descriptor.rows as u64;
    let width: u64 = reference.tile_width as u64;
    let height: u64 = reference.tile_height as u64;
    proof {
        assert(0 <= columns * width <= 65535 * 0xffff_ffff) by (nonlinear_arith)
            requires
                columns <= 65535,
                width <= 0xffff_ffff,
        ;
        assert(0 <= rows * height <= 65535 * 0xffff_ffff) by (nonlinear_arith)
            requires
                rows <= 65535,
                height <= 0xffff_ffff,
        ;
    }
    columns * width >= descriptor.output_width as u64 && rows * height
        >= descriptor.output_height as u64
}

/// Why a tile does not match the others, if it does not.
pub open spec fn mismatch_error(
    tile: HeicView,
    reference: HeicGridTileReference,
    tile_index: int,
) -> Option<DecodeHeicError> {
    if tile.width != reference.tile_width || tile.height != reference.tile_height {
        Some(
            bad_frame(
                Detail::Five(
                    "grid tiles have mixed dimensions: expected {}x{}, got {}x{} at index {}",
                    Arg::Num(reference.tile_width as i128),
                    Arg::Num(reference.tile_height as i128),
                    Arg::Num(tile.width as i128),
                    Arg::Num(tile.height as i128),
                    Arg::Num(tile_index as i128),
                ),
            ),
        )
    } else if tile.layout != reference.layout {
        Some(
            DecodeHeicError::DecodedLayoutMismatch {
                expected: reference.layout,
                actual: tile.layout,
            },
        )
    } else if tile.bit_depth_luma != reference.bit_depth_luma || tile.bit_depth_chroma
        != reference.bit_depth_chroma {
        Some(
            DecodeHeicError::DecodedBitDepthMismatch {
                expected_luma: reference.bit_depth_luma,
                expected_chroma: reference.bit_depth_chroma,
                actual_luma: tile.bit_depth_luma,
                actual_chroma: tile.bit_depth_chroma,
            },
        )
    } else if tile.ycbcr_range != reference.ycbcr_range || tile.ycbcr_matrix
        != reference.ycbcr_matrix {
        Some(
            bad_frame(
                Detail::One(
                    "grid tiles have inconsistent YCbCr metadata at index {}",
                    Arg::Num(tile_index as i128),
                ),
            ),
        )
    } else {
        None
    }
}

/// Checks that a tile matches the others.
pub fn validate_decoded_heic_grid_tile_reference(
    tile: &DecodedHeicImage,
    reference: &HeicGridTileReference,
    tile_index: usize,
) -> (result: Result<(), DecodeHeicError>)
    ensures
        match mismatch_error(tile@, *reference, tile_index as int) {
            Some(e) => result == Err::<(), DecodeHeicError>(e),
            None => result is Ok,
        },
{
    if tile.width != reference.tile_width || tile.height != reference.tile_height {
        return invalid_frame(
            Detail::Five(
                "grid tiles have mixed dimensions: expected {}x{}, got {}x{} at index {}",
                Arg::Num(reference.tile_width as i128),
                Arg::Num(reference.tile_height as i128),
                Arg::Num(tile.width as i128),
                Arg::Num(tile.height as i128),
                Arg::Num(tile_index as i128),
            ),
        );
    }
    if tile.layout != reference.layout {
        return Err(
            DecodeHeicError::DecodedLayoutMismatch {
                expected: reference.layout,
                actual: tile.layout,
            },
        );
    }
    if tile.bit_depth_luma != reference.bit_depth_luma || tile.bit_depth_chroma
        != reference.bit_depth_chroma {
        return Err(
            DecodeHeicError::DecodedBitDepthMismatch {
                expected_luma: reference.bit_depth_luma,
                expected_chroma: reference.bit_depth_chroma,
                actual_luma: tile.bit_depth_luma,
                actual_chroma: tile.bit_depth_chroma,
            },
        );
    }
    if tile.ycbcr_range != reference.ycbcr_range || tile.ycbcr_matrix != reference.ycbcr_matrix {
        return invalid_frame(
            Detail::One(
                "grid tiles have inconsistent YCbCr metadata at index {}",
                Arg::Num(tile_index as i128),
            ),
        );
    }
    Ok(())
}

/// Why the place of a tile cannot be written down, if it cannot.
pub open spec fn origin_error(tile_width: u32, tile_height: u32, row: int, column: int) -> Option<
    DecodeHeicError,
> {
    if column * tile_width > u32::MAX {
        Some(
            bad_frame(
                Detail::Two(
                    "grid tile x-origin overflow for column {} with tile width {}",
                    Arg::Num(column as i128),
                    Arg::Num(tile_width as i128),
                ),
            ),
        )
    } else if row * tile_height > u32::MAX {
        Some(
            bad_frame(
                Detail::Two(
                    "grid tile y-origin overflow for row {} with tile height {}",
                    Arg::Num(row as i128),
                    Arg::Num(tile_height as i128),
                ),
            ),
        )
    } else {
        None
    }
}

/// The place of a tile on the canvas.
pub fn heic_grid_tile_origin(tile_width: u32, tile_height: u32, row: usize, column: usize) -> (result:
    Result<(u32, u32), DecodeHeicError>)
    ensures
        match origin_error(tile_width, tile_height, row as int, column as int) {
            Some(e) => result == Err::<(u32, u32), DecodeHeicError>(e),
            None => result is Ok && result->Ok_0.0 == column * tile_width && result->Ok_0.1 == row
                * tile_height,
        },
{
    let across: u128 = column as u128;
    let down: u128 = row as u128;
    let width: u128 = tile_width as u128;
    let height: u128 = tile_height as u128;
    proof {
        assert(0 <= across * width <= 0xffff_ffff_ffff_ffff * 0xffff_ffff) by (nonlinear_arith)
            requires
                across <= 0xffff_ffff_ffff_ffff,
                width <= 0xffff_ffff,
        ;
        assert(0 <= down * height <= 0xffff_ffff_ffff_ffff * 0xffff_ffff) by (nonlinear_arith)
            requires
                down <= 0xffff_ffff_ffff_ffff,
                height <= 0xffff_ffff,
        ;
    }
    let x: u128 = across * width;
    let y: u128 = down * height;
    if x > u32::MAX as u128 {
        return invalid_frame(
            Detail::Two(
                "grid tile x-origin overflow for column {} with tile width {}",
                Arg::Num(column as i128),
                Arg::Num(tile_width as i128),
            ),
        );
    }
    if y > u32::MAX as u128 {
        return invalid_frame(
            Detail::Two(
                "grid tile y-origin overflow for row {} with tile height {}",
                Arg::Num(row as i128),
                Arg::Num(tile_height as i128),
            ),
        );
    }
    Ok((x as u32, y as u32))
}

/// The error for a tile that begins in the middle of a chroma sample.
pub open spec fn alignment_error(layout: HeicPixelLayout, origin: (int, int)) -> Option<
    DecodeHeicError,
> {
    let (across, down) = shared_chroma(layout);
    if origin.0 % across != 0 || origin.1 % down != 0 {
        Some(
            bad_frame(
                Detail::Three(
                    "grid tile origin ({},{}) is not aligned for {} chroma subsampling",
                    Arg::Num(origin.0 as i128),
                    Arg::Num(origin.1 as i128),
                    Arg::Word(layout.spec_name()),
                ),
            ),
        )
    } else {
        None
    }
}

/// Checks that a tile begins where a chroma sample begins.
pub fn validate_heic_grid_tile_origin_alignment(
    layout: HeicPixelLayout,
    x_origin: u32,
    y_origin: u32,
) -> (result: Result<(), DecodeHeicError>)
    ensures
        match alignment_error(layout, (x_origin as int, y_origin as int)) {
            Some(e) => result == Err::<(), DecodeHeicError>(e),
            None => result is Ok,
        },
{
    let (across, down): (u32, u32) = heic_chroma_subsampling(layout);
    if x_origin % across != 0 || y_origin % down != 0 {
        return invalid_frame(
            Detail::Three(
                "grid tile origin ({},{}) is not aligned for {} chroma subsampling",
                Arg::Num(x_origin as i128),
                Arg::Num(y_origin as i128),
                Arg::Word(layout.name()),
            ),
        );
    }
    Ok(())
}

} // verus!
