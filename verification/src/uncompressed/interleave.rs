//! The orders in which the samples of a tile can follow each other.
use super::components::{
    UncompressedChannelRole, UncompressedComponentDecodeSpec, UNCOMPRESSED_SAMPLING_420,
    UNCOMPRESSED_SAMPLING_422, UNCOMPRESSED_SAMPLING_NO_SUBSAMPLING,
};
use super::reader::{invalid_input, unsupported_feature, UncompressedBitReader};
#[allow(unused_imports)]
use super::reader::{invalid, unsupported};
use super::stream::{decode_uncompressed_sample, UncompressedDecodeTileRegion};
#[allow(unused_imports)]
use super::stream::{
    channels_of, lemma_repeat_error, repeat, same_shape, state_of, Halt, Step, StreamState,
};
use crate::errors::DecodeUncompressedError;
use crate::text::{Arg, Detail};
use vstd::prelude::*;

verus! {

/// How the components of a tile are padded and sampled.
#[derive(Clone, Copy, Debug, PartialEq, Eq, Structural)]
pub struct UncompressedComponentDecodeParams {
    pub row_align_size: u32,
    pub tile_align_size: u32,
    pub sampling_type: u8,
    pub per_component_tile_alignment: bool,
}

/// How many columns and rows of pixels share one sample of a component.
pub open spec fn subsampling(role: UncompressedChannelRole, sampling_type: u8) -> Result<
    (int, int),
    DecodeUncompressedError,
> {
    if !role.is_chroma() || sampling_type == UNCOMPRESSED_SAMPLING_NO_SUBSAMPLING {
        Ok((1, 1))
    } else if sampling_type == UNCOMPRESSED_SAMPLING_422 {
        Ok((2, 1))
    } else if sampling_type == UNCOMPRESSED_SAMPLING_420 {
        Ok((2, 2))
    } else {
        Err(
            unsupported(
                Detail::One(
                    "unsupported uncC sampling_type {} for Cb/Cr component decoding",
                    Arg::Num(sampling_type as i128),
                ),
            ),
        )
    }
}

/// How many columns and rows of pixels share one sample of a component.
pub fn uncompressed_component_subsampling(
    role: UncompressedChannelRole,
    sampling_type: u8,
) -> (result: Result<(usize, usize), DecodeUncompressedError>)
    ensures
        match subsampling(role, sampling_type) {
            Ok((x, y)) => result is Ok && result->Ok_0.0 == x && result->Ok_0.1 == y,
            Err(e) => result == Err::<(usize, usize), DecodeUncompressedError>(e),
        },
{
    match role {
        UncompressedChannelRole::ChromaBlue | UncompressedChannelRole::ChromaRed => {
            if sampling_type == UNCOMPRESSED_SAMPLING_NO_SUBSAMPLING {
                Ok((1, 1))
            } else if sampling_type == UNCOMPRESSED_SAMPLING_422 {
                Ok((2, 1))
            } else if sampling_type == UNCOMPRESSED_SAMPLING_420 {
                Ok((2, 2))
            } else {
                unsupported_feature(
                    Detail::One(
                        "unsupported uncC sampling_type {} for Cb/Cr component decoding",
                        Arg::Num(sampling_type as i128),
                    ),
                )
            }
        },
        _ => Ok((1, 1)),
    }
}

/// The sampling of a component in a tile, where it divides the tile.
pub open spec fn tile_subsampling(
    role: UncompressedChannelRole,
    sampling_type: u8,
    width: int,
    height: int,
) -> Result<(int, int), DecodeUncompressedError> {
    match subsampling(role, sampling_type) {
        Err(e) => Err(e),
        Ok((x, y)) => if width % x != 0 || height % y != 0 {
            Err(
                invalid(
                    Detail::Five(
                        "{} tile extent {}x{} is not divisible by subsampling {}x{}",
                        Arg::Word(role.label()),
                        Arg::Num(width as i128),
                        Arg::Num(height as i128),
                        Arg::Num(x as i128),
                        Arg::Num(y as i128),
                    ),
                ),
            )
        } else {
            Ok((x, y))
        },
    }
}

/// The sampling of a component in a tile, where it divides the tile.
pub fn uncompressed_tile_subsampling(
    role: UncompressedChannelRole,
    sampling_type: u8,
    width: usize,
    height: usize,
) -> (result: Result<(usize, usize), DecodeUncompressedError>)
    ensures
        match tile_subsampling(role, sampling_type, width as int, height as int) {
            Ok((x, y)) => result is Ok && result->Ok_0.0 == x && result->Ok_0.1 == y,
            Err(e) => result == Err::<(usize, usize), DecodeUncompressedError>(e),
        },
        result is Ok ==> 1 <= result->Ok_0.0 <= 2 && 1 <= result->Ok_0.1 <= 2,
{
    let (subsample_x, subsample_y): (usize, usize) = uncompressed_component_subsampling(
        role,
        sampling_type,
    )?;
    if width % subsample_x != 0 || height % subsample_y != 0 {
        return invalid_input(
            Detail::Five(
                "{} tile extent {}x{} is not divisible by subsampling {}x{}",
                Arg::Word(role.component_name()),
                Arg::Num(width as i128),
                Arg::Num(height as i128),
                Arg::Num(subsample_x as i128),
                Arg::Num(subsample_y as i128),
            ),
        );
    }
    Ok((subsample_x, subsample_y))
}

/// One sample of a row of a component, with the pixels that share it.
pub open spec fn component_column(
    data: Seq<u8>,
    spec: UncompressedComponentDecodeSpec,
    region: UncompressedDecodeTileRegion,
    shared: (int, int),
    row: int,
) -> spec_fn(StreamState, int) -> Step {
    |state: StreamState, column: int|
        state.sample(
            data,
            spec,
            region.image_width as int,
            region.origin_x + column * shared.0,
            region.origin_y + row * shared.1,
            shared.0,
            shared.1,
        )
}

/// The samples of one row of a component.
pub open spec fn component_columns(
    data: Seq<u8>,
    spec: UncompressedComponentDecodeSpec,
    region: UncompressedDecodeTileRegion,
    shared: (int, int),
    row: int,
    state: StreamState,
) -> Step {
    repeat(
        (region.width as int / shared.0) as nat,
        component_column(data, spec, region, shared, row),
        state,
    )
}

/// One row of a component, padded to the row alignment.
pub open spec fn component_row(
    data: Seq<u8>,
    spec: UncompressedComponentDecodeSpec,
    region: UncompressedDecodeTileRegion,
    shared: (int, int),
    row_align_size: u32,
) -> spec_fn(StreamState, int) -> Step {
    |state: StreamState, row: int|
        match component_columns(data, spec, region, shared, row, state.mark_row()) {
            Err(e) => Err(e),
            Ok(next) => next.row_ended(data, row_align_size as int),
        }
}

/// All rows of one component of a tile.
pub open spec fn component_rows(
    data: Seq<u8>,
    specs: Seq<UncompressedComponentDecodeSpec>,
    region: UncompressedDecodeTileRegion,
    params: UncompressedComponentDecodeParams,
) -> spec_fn(StreamState, int) -> Step {
    |state: StreamState, k: int|
        match tile_subsampling(
            specs[k].role,
            params.sampling_type,
            region.width as int,
            region.height as int,
        ) {
            Err(error) => Err(Halt { error, left: state }),
            Ok(shared) => match repeat(
                (region.height as int / shared.1) as nat,
                component_row(data, specs[k], region, shared, params.row_align_size),
                state,
            ) {
                Err(e) => Err(e),
                Ok(next) => if params.per_component_tile_alignment {
                    next.moved(next.at.tile_aligned(data, params.tile_align_size as int))
                } else {
                    Ok(next)
                },
            },
        }
}

/// A tile in component order: all samples of a component, row by row, then
/// those of the next.
pub open spec fn component_interleaved(
    data: Seq<u8>,
    specs: Seq<UncompressedComponentDecodeSpec>,
    region: UncompressedDecodeTileRegion,
    params: UncompressedComponentDecodeParams,
    state: StreamState,
) -> Step {
    repeat(specs.len(), component_rows(data, specs, region, params), state)
}

/// The block of the sample at `row` and `column` lies within the region.
pub(crate) proof fn lemma_block_in_region(
    region: UncompressedDecodeTileRegion,
    shared: (int, int),
    row: int,
    column: int,
)
    requires
        region.wf(),
        1 <= shared.0 <= 2,
        1 <= shared.1 <= 2,
        0 <= row < region.height as int / shared.1,
        0 <= column < region.width as int / shared.0,
    ensures
        0 <= column * shared.0,
        region.origin_x + column * shared.0 + shared.0 <= region.image_width,
        0 <= row * shared.1,
        region.origin_y + row * shared.1 + shared.1 <= region.origin_y + region.height,
        0 <= (region.origin_y + row * shared.1 + shared.1) * region.image_width <= region.pixels(),
{
    let w = region.width as int;
    let h = region.height as int;
    let (x, y) = shared;
    assert(0 <= column * x && column * x + x <= w) by (nonlinear_arith)
        requires
            x >= 1,
            0 <= column < w / x,
            w >= 0,
    ;
    assert(0 <= row * y && row * y + y <= h) by (nonlinear_arith)
        requires
            y >= 1,
            0 <= row < h / y,
            h >= 0,
    ;
    let end = region.origin_y + row * y + y;
    assert(0 <= end * region.image_width <= (region.origin_y + h) * region.image_width)
        by (nonlinear_arith)
        requires
            0 <= end <= region.origin_y + h,
            region.image_width >= 0,
    ;
}

/// Reads the samples of one row of a component.
pub(crate) fn decode_component_columns(
    reader: &mut UncompressedBitReader<'_>,
    spec: UncompressedComponentDecodeSpec,
    tile_region: UncompressedDecodeTileRegion,
    shared: (usize, usize),
    row: usize,
    channel_samples: &mut [Option<Vec<u16>>; 8],
) -> (result: Result<(), DecodeUncompressedError>)
    requires
        old(reader).wf(),
        tile_region.wf(),
        1 <= shared.0 <= 2,
        1 <= shared.1 <= 2,
        row < tile_region.height as int / shared.1 as int,
        channels_of(*old(channel_samples)).len() == 8,
    ensures
        final(reader).wf(),
        final(reader).bytes() == old(reader).bytes(),
        same_shape(channels_of(*old(channel_samples)), channels_of(*final(channel_samples))),
        match component_columns(
            old(reader).bytes(),
            spec,
            tile_region,
            (shared.0 as int, shared.1 as int),
            row as int,
            state_of(*old(reader), *old(channel_samples)),
        ) {
            Ok(next) => result is Ok && state_of(*final(reader), *final(channel_samples)) == next,
            Err(halt) => {
                &&& result == Err::<(), DecodeUncompressedError>(halt.error)
                &&& state_of(*final(reader), *final(channel_samples)) == halt.left
            },
        },
{
    let ghost data = reader.bytes();
    let ghost start = state_of(*reader, *channel_samples);
    let ghost both = (shared.0 as int, shared.1 as int);
    let ghost step = component_column(data, spec, tile_region, both, row as int);
    let component_width: usize = tile_region.width / shared.0;
    let mut column: usize = 0;
    while column < component_width
        invariant
            column <= component_width,
            component_width == tile_region.width as int / shared.0 as int,
            reader.wf(),
            reader.bytes() == data,
            data == old(reader).bytes(),
            start == state_of(*old(reader), *old(channel_samples)),
            tile_region.wf(),
            1 <= shared.0 <= 2,
            1 <= shared.1 <= 2,
            both == (shared.0 as int, shared.1 as int),
            row < tile_region.height as int / shared.1 as int,
            start.channels.len() == 8,
            same_shape(start.channels, channels_of(*channel_samples)),
            step == component_column(data, spec, tile_region, both, row as int),
            repeat(column as nat, step, start) == Ok::<StreamState, Halt>(
                state_of(*reader, *channel_samples),
            ),
        decreases component_width - column,
    {
        let ghost here = state_of(*reader, *channel_samples);
        proof {
            lemma_block_in_region(tile_region, both, row as int, column as int);
        }
        let x: usize = tile_region.origin_x + column * shared.0;
        let y: usize = tile_region.origin_y + row * shared.1;
        let read: Result<(), DecodeUncompressedError> = decode_uncompressed_sample(
            reader,
            spec,
            tile_region.image_width,
            (x, y),
            shared,
            channel_samples,
        );
        assert(repeat((column + 1) as nat, step, start) == step(here, column as int));
        match read {
            Ok(()) => {},
            Err(e) => {
                proof {
                    lemma_repeat_error((column + 1) as nat, component_width as nat, step, start);
                }
                return Err(e);
            },
        }
        column = column + 1;
    }
    Ok(())
}

/// Decodes one component of a tile.
fn decode_component_rows(
    reader: &mut UncompressedBitReader<'_>,
    spec: UncompressedComponentDecodeSpec,
    tile_region: UncompressedDecodeTileRegion,
    shared: (usize, usize),
    row_align_size: u32,
    channel_samples: &mut [Option<Vec<u16>>; 8],
) -> (result: Result<(), DecodeUncompressedError>)
    requires
        old(reader).wf(),
        tile_region.wf(),
        1 <= shared.0 <= 2,
        1 <= shared.1 <= 2,
        channels_of(*old(channel_samples)).len() == 8,
    ensures
        final(reader).wf(),
        final(reader).bytes() == old(reader).bytes(),
        same_shape(channels_of(*old(channel_samples)), channels_of(*final(channel_samples))),
        match repeat(
            (tile_region.height as int / shared.1 as int) as nat,
            component_row(
                old(reader).bytes(),
                spec,
                tile_region,
                (shared.0 as int, shared.1 as int),
                row_align_size,
            ),
            state_of(*old(reader), *old(channel_samples)),
        ) {
            Ok(next) => result is Ok && state_of(*final(reader), *final(channel_samples)) == next,
            Err(halt) => {
                &&& result == Err::<(), DecodeUncompressedError>(halt.error)
                &&& state_of(*final(reader), *final(channel_samples)) == halt.left
            },
        },
{
    let ghost data = reader.bytes();
    let ghost start = state_of(*reader, *channel_samples);
    let ghost both = (shared.0 as int, shared.1 as int);
    let ghost step = component_row(data, spec, tile_region, both, row_align_size);
    let component_height: usize = tile_region.height / shared.1;
    let mut row: usize = 0;
    while row < component_height
        invariant
            row <= component_height,
            component_height == tile_region.height as int / shared.1 as int,
            reader.wf(),
            reader.bytes() == data,
            data == old(reader).bytes(),
            start == state_of(*old(reader), *old(channel_samples)),
            tile_region.wf(),
            1 <= shared.0 <= 2,
            1 <= shared.1 <= 2,
            both == (shared.0 as int, shared.1 as int),
            start.channels.len() == 8,
            same_shape(start.channels, channels_of(*channel_samples)),
            step == component_row(data, spec, tile_region, both, row_align_size),
            repeat(row as nat, step, start) == Ok::<StreamState, Halt>(
                state_of(*reader, *channel_samples),
            ),
        decreases component_height - row,
    {
        let ghost here = state_of(*reader, *channel_samples);
        assert(repeat((row + 1) as nat, step, start) == step(here, row as int));
        proof {
            if step(here, row as int) is Err {
                lemma_repeat_error((row + 1) as nat, component_height as nat, step, start);
            }
        }
        reader.mark_row_start();
        assert(state_of(*reader, *channel_samples) == here.mark_row());
        decode_component_columns(reader, spec, tile_region, shared, row, channel_samples)?;
        reader.handle_row_alignment(row_align_size)?;
        row = row + 1;
    }
    Ok(())
}

/// Decodes a tile in component order.
pub fn decode_uncompressed_component_interleave(
    reader: &mut UncompressedBitReader<'_>,
    specs: &[UncompressedComponentDecodeSpec],
    tile_region: UncompressedDecodeTileRegion,
    params: UncompressedComponentDecodeParams,
    channel_samples: &mut [Option<Vec<u16>>; 8],
) -> (result: Result<(), DecodeUncompressedError>)
    requires
        old(reader).wf(),
        tile_region.wf(),
    ensures
        final(reader).wf(),
        final(reader).bytes() == old(reader).bytes(),
        same_shape(channels_of(*old(channel_samples)), channels_of(*final(channel_samples))),
        match component_interleaved(
            old(reader).bytes(),
            specs@,
            tile_region,
            params,
            state_of(*old(reader), *old(channel_samples)),
        ) {
            Ok(next) => result is Ok && state_of(*final(reader), *final(channel_samples)) == next,
            Err(halt) => {
                &&& result == Err::<(), DecodeUncompressedError>(halt.error)
                &&& state_of(*final(reader), *final(channel_samples)) == halt.left
            },
        },
{
    let ghost data = reader.bytes();
    let ghost start = state_of(*reader, *channel_samples);
    let ghost step = component_rows(data, specs@, tile_region, params);
    let mut k: usize = 0;
    while k < specs.len()
        invariant
            k <= specs@.len(),
            reader.wf(),
            reader.bytes() == data,
            data == old(reader).bytes(),
            start == state_of(*old(reader), *old(channel_samples)),
            tile_region.wf(),
            same_shape(start.channels, channels_of(*channel_samples)),
            step == component_rows(data, specs@, tile_region, params),
            repeat(k as nat, step, start) == Ok::<StreamState, Halt>(
                state_of(*reader, *channel_samples),
            ),
        decreases specs@.len() - k,
    {
        let ghost here = state_of(*reader, *channel_samples);
        assert(repeat((k + 1) as nat, step, start) == step(here, k as int));
        proof {
            if step(here, k as int) is Err {
                lemma_repeat_error((k + 1) as nat, specs@.len(), step, start);
            }
        }
        let spec: UncompressedComponentDecodeSpec = specs[k];
        let shared: (usize, usize) = uncompressed_tile_subsampling(
            spec.role,
            params.sampling_type,
            tile_region.width,
            tile_region.height,
        )?;
        decode_component_rows(
            reader,
            spec,
            tile_region,
            shared,
            params.row_align_size,
            channel_samples,
        )?;
        if params.per_component_tile_alignment {
            reader.handle_tile_alignment(params.tile_align_size)?;
        }
        k = k + 1;
    }
    Ok(())
}

/// One component of a pixel.
pub open spec fn pixel_component(
    data: Seq<u8>,
    specs: Seq<UncompressedComponentDecodeSpec>,
    region: UncompressedDecodeTileRegion,
    row: int,
    column: int,
) -> spec_fn(StreamState, int) -> Step {
    |state: StreamState, k: int|
        state.sample(
            data,
            specs[k],
            region.image_width as int,
            region.origin_x + column,
            region.origin_y + row,
            1,
            1,
        )
}

/// One pixel: its components, padded to the pixel size.
pub open spec fn pixel(
    data: Seq<u8>,
    specs: Seq<UncompressedComponentDecodeSpec>,
    region: UncompressedDecodeTileRegion,
    pixel_size: u32,
    row: int,
) -> spec_fn(StreamState, int) -> Step {
    |state: StreamState, column: int|
        match repeat(
            specs.len(),
            pixel_component(data, specs, region, row, column),
            state.mark_pixel(),
        ) {
            Err(e) => Err(e),
            Ok(next) => next.moved(next.at.pixel_aligned(data, pixel_size as int)),
        }
}

/// One row of pixels, padded to the row alignment.
pub open spec fn pixel_row(
    data: Seq<u8>,
    specs: Seq<UncompressedComponentDecodeSpec>,
    region: UncompressedDecodeTileRegion,
    pixel_size: u32,
    row_align_size: u32,
) -> spec_fn(StreamState, int) -> Step {
    |state: StreamState, row: int|
        match repeat(
            region.width as nat,
            pixel(data, specs, region, pixel_size, row),
            state.mark_row(),
        ) {
            Err(e) => Err(e),
            Ok(next) => next.row_ended(data, row_align_size as int),
        }
}

/// A tile in pixel order: all components of a pixel, then those of the next.
pub open spec fn pixel_interleaved(
    data: Seq<u8>,
    specs: Seq<UncompressedComponentDecodeSpec>,
    region: UncompressedDecodeTileRegion,
    pixel_size: u32,
    row_align_size: u32,
    state: StreamState,
) -> Step {
    repeat(
        region.height as nat,
        pixel_row(data, specs, region, pixel_size, row_align_size),
        state,
    )
}

/// Reads the components of one pixel.
fn decode_pixel_components(
    reader: &mut UncompressedBitReader<'_>,
    specs: &[UncompressedComponentDecodeSpec],
    tile_region: UncompressedDecodeTileRegion,
    row: usize,
    column: usize,
    channel_samples: &mut [Option<Vec<u16>>; 8],
) -> (result: Result<(), DecodeUncompressedError>)
    requires
        old(reader).wf(),
        tile_region.wf(),
        row < tile_region.height,
        column < tile_region.width,
    ensures
        final(reader).wf(),
        final(reader).bytes() == old(reader).bytes(),
        same_shape(channels_of(*old(channel_samples)), channels_of(*final(channel_samples))),
        match repeat(
            specs@.len(),
            pixel_component(old(reader).bytes(), specs@, tile_region, row as int, column as int),
            state_of(*old(reader), *old(channel_samples)),
        ) {
            Ok(next) => result is Ok && state_of(*final(reader), *final(channel_samples)) == next,
            Err(halt) => {
                &&& result == Err::<(), DecodeUncompressedError>(halt.error)
                &&& state_of(*final(reader), *final(channel_samples)) == halt.left
            },
        },
{
    let ghost data = reader.bytes();
    let ghost start = state_of(*reader, *channel_samples);
    let ghost step = pixel_component(data, specs@, tile_region, row as int, column as int);
    proof {
        lemma_block_in_region(tile_region, (1, 1), row as int, column as int);
    }
    let x: usize = tile_region.origin_x + column;
    let y: usize = tile_region.origin_y + row;
    let mut k: usize = 0;
    while k < specs.len()
        invariant
            k <= specs@.len(),
            reader.wf(),
            reader.bytes() == data,
            data == old(reader).bytes(),
            start == state_of(*old(reader), *old(channel_samples)),
            tile_region.wf(),
            same_shape(start.channels, channels_of(*channel_samples)),
            x == tile_region.origin_x + column,
            y == tile_region.origin_y + row,
            x + 1 <= tile_region.image_width,
            y + 1 <= usize::MAX,
            (y + 1) * tile_region.image_width <= tile_region.pixels(),
            step == pixel_component(data, specs@, tile_region, row as int, column as int),
            repeat(k as nat, step, start) == Ok::<StreamState, Halt>(
                state_of(*reader, *channel_samples),
            ),
        decreases specs@.len() - k,
    {
        let ghost here = state_of(*reader, *channel_samples);
        assert(repeat((k + 1) as nat, step, start) == step(here, k as int));
        proof {
            if step(here, k as int) is Err {
                lemma_repeat_error((k + 1) as nat, specs@.len(), step, start);
            }
        }
        decode_uncompressed_sample(
            reader,
            specs[k],
            tile_region.image_width,
            (x, y),
            (1, 1),
            channel_samples,
        )?;
        k = k + 1;
    }
    Ok(())
}

/// Reads the pixels of one row.
fn decode_pixel_row(
    reader: &mut UncompressedBitReader<'_>,
    specs: &[UncompressedComponentDecodeSpec],
    tile_region: UncompressedDecodeTileRegion,
    pixel_size: u32,
    row: usize,
    channel_samples: &mut [Option<Vec<u16>>; 8],
) -> (result: Result<(), DecodeUncompressedError>)
    requires
        old(reader).wf(),
        tile_region.wf(),
        row < tile_region.height,
    ensures
        final(reader).wf(),
        final(reader).bytes() == old(reader).bytes(),
        same_shape(channels_of(*old(channel_samples)), channels_of(*final(channel_samples))),
        match repeat(
            tile_region.width as nat,
            pixel(old(reader).bytes(), specs@, tile_region, pixel_size, row as int),
            state_of(*old(reader), *old(channel_samples)),
        ) {
            Ok(next) => result is Ok && state_of(*final(reader), *final(channel_samples)) == next,
            Err(halt) => {
                &&& result == Err::<(), DecodeUncompressedError>(halt.error)
                &&& state_of(*final(reader), *final(channel_samples)) == halt.left
            },
        },
{
    let ghost data = reader.bytes();
    let ghost start = state_of(*reader, *channel_samples);
    let ghost step = pixel(data, specs@, tile_region, pixel_size, row as int);
    let mut column: usize = 0;
    while column < tile_region.width
        invariant
            column <= tile_region.width,
            row < tile_region.height,
            reader.wf(),
            reader.bytes() == data,
            data == old(reader).bytes(),
            start == state_of(*old(reader), *old(channel_samples)),
            tile_region.wf(),
            same_shape(start.channels, channels_of(*channel_samples)),
            step == pixel(data, specs@, tile_region, pixel_size, row as int),
            repeat(column as nat, step, start) == Ok::<StreamState, Halt>(
                state_of(*reader, *channel_samples),
            ),
        decreases tile_region.width - column,
    {
        let ghost here = state_of(*reader, *channel_samples);
        assert(repeat((column + 1) as nat, step, start) == step(here, column as int));
        proof {
            if step(here, column as int) is Err {
                lemma_repeat_error((column + 1) as nat, tile_region.width as nat, step, start);
            }
        }
        reader.mark_pixel_start();
        assert(state_of(*reader, *channel_samples) == here.mark_pixel());
        decode_pixel_components(reader, specs, tile_region, row, column, channel_samples)?;
        reader.handle_pixel_alignment(pixel_size)?;
        column = column + 1;
    }
    Ok(())
}

/// Decodes a tile in pixel order.
pub fn decode_uncompressed_pixel_interleave(
    reader: &mut UncompressedBitReader<'_>,
    specs: &[UncompressedComponentDecodeSpec],
    tile_region: UncompressedDecodeTileRegion,
    pixel_size: u32,
    row_align_size: u32,
    channel_samples: &mut [Option<Vec<u16>>; 8],
) -> (result: Result<(), DecodeUncompressedError>)
    requires
        old(reader).wf(),
        tile_region.wf(),
    ensures
        final(reader).wf(),
        final(reader).bytes() == old(reader).bytes(),
        same_shape(channels_of(*old(channel_samples)), channels_of(*final(channel_samples))),
        match pixel_interleaved(
            old(reader).bytes(),
            specs@,
            tile_region,
            pixel_size,
            row_align_size,
            state_of(*old(reader), *old(channel_samples)),
        ) {
            Ok(next) => result is Ok && state_of(*final(reader), *final(channel_samples)) == next,
            Err(halt) => {
                &&& result == Err::<(), DecodeUncompressedError>(halt.error)
                &&& state_of(*final(reader), *final(channel_samples)) == halt.left
            },
        },
{
    let ghost data = reader.bytes();
    let ghost start = state_of(*reader, *channel_samples);
    let ghost step = pixel_row(data, specs@, tile_region, pixel_size, row_align_size);
    let mut row: usize = 0;
    while row < tile_region.height
        invariant
            row <= tile_region.height,
            reader.wf(),
            reader.bytes() == data,
            data == old(reader).bytes(),
            start == state_of(*old(reader), *old(channel_samples)),
            tile_region.wf(),
            same_shape(start.channels, channels_of(*channel_samples)),
            step == pixel_row(data, specs@, tile_region, pixel_size, row_align_size),
            repeat(row as nat, step, start) == Ok::<StreamState, Halt>(
                state_of(*reader, *channel_samples),
            ),
        decreases tile_region.height - row,
    {
        let ghost here = state_of(*reader, *channel_samples);
        assert(repeat((row + 1) as nat, step, start) == step(here, row as int));
        proof {
            if step(here, row as int) is Err {
                lemma_repeat_error((row + 1) as nat, tile_region.height as nat, step, start);
            }
        }
        reader.mark_row_start();
        assert(state_of(*reader, *channel_samples) == here.mark_row());
        decode_pixel_row(reader, specs, tile_region, pixel_size, row, channel_samples)?;
        reader.handle_row_alignment(row_align_size)?;
        row = row + 1;
    }
    Ok(())
}

/// One row of one component, padded to the row alignment.
pub open spec fn row_component(
    data: Seq<u8>,
    specs: Seq<UncompressedComponentDecodeSpec>,
    region: UncompressedDecodeTileRegion,
    row_align_size: u32,
    row: int,
) -> spec_fn(StreamState, int) -> Step {
    |state: StreamState, k: int|
        match component_columns(data, specs[k], region, (1, 1), row, state.mark_row()) {
            Err(e) => Err(e),
            Ok(next) => next.row_ended(data, row_align_size as int),
        }
}

/// One row of every component.
pub open spec fn row_components(
    data: Seq<u8>,
    specs: Seq<UncompressedComponentDecodeSpec>,
    region: UncompressedDecodeTileRegion,
    row_align_size: u32,
) -> spec_fn(StreamState, int) -> Step {
    |state: StreamState, row: int|
        repeat(specs.len(), row_component(data, specs, region, row_align_size, row), state)
}

/// A tile in row order: one row of each component, then the next row of each.
pub open spec fn row_interleaved(
    data: Seq<u8>,
    specs: Seq<UncompressedComponentDecodeSpec>,
    region: UncompressedDecodeTileRegion,
    row_align_size: u32,
    state: StreamState,
) -> Step {
    repeat(region.height as nat, row_components(data, specs, region, row_align_size), state)
}

/// Reads one row of every component.
fn decode_row_components(
    reader: &mut UncompressedBitReader<'_>,
    specs: &[UncompressedComponentDecodeSpec],
    tile_region: UncompressedDecodeTileRegion,
    row_align_size: u32,
    row: usize,
    channel_samples: &mut [Option<Vec<u16>>; 8],
) -> (result: Result<(), DecodeUncompressedError>)
    requires
        old(reader).wf(),
        tile_region.wf(),
        row < tile_region.height,
    ensures
        final(reader).wf(),
        final(reader).bytes() == old(reader).bytes(),
        same_shape(channels_of(*old(channel_samples)), channels_of(*final(channel_samples))),
        match repeat(
            specs@.len(),
            row_component(old(reader).bytes(), specs@, tile_region, row_align_size, row as int),
            state_of(*old(reader), *old(channel_samples)),
        ) {
            Ok(next) => result is Ok && state_of(*final(reader), *final(channel_samples)) == next,
            Err(halt) => {
                &&& result == Err::<(), DecodeUncompressedError>(halt.error)
                &&& state_of(*final(reader), *final(channel_samples)) == halt.left
            },
        },
{
    let ghost data = reader.bytes();
    let ghost start = state_of(*reader, *channel_samples);
    let ghost step = row_component(data, specs@, tile_region, row_align_size, row as int);
    let mut k: usize = 0;
    while k < specs.len()
        invariant
            k <= specs@.len(),
            row < tile_region.height,
            reader.wf(),
            reader.bytes() == data,
            data == old(reader).bytes(),
            start == state_of(*old(reader), *old(channel_samples)),
            tile_region.wf(),
            same_shape(start.channels, channels_of(*channel_samples)),
            step == row_component(data, specs@, tile_region, row_align_size, row as int),
            repeat(k as nat, step, start) == Ok::<StreamState, Halt>(
                state_of(*reader, *channel_samples),
            ),
        decreases specs@.len() - k,
    {
        let ghost here = state_of(*reader, *channel_samples);
        assert(repeat((k + 1) as nat, step, start) == step(here, k as int));
        proof {
            if step(here, k as int) is Err {
                lemma_repeat_error((k + 1) as nat, specs@.len(), step, start);
            }
        }
        reader.mark_row_start();
        assert(state_of(*reader, *channel_samples) == here.mark_row());
        decode_component_columns(reader, specs[k], tile_region, (1, 1), row, channel_samples)?;
        reader.handle_row_alignment(row_align_size)?;
        k = k + 1;
    }
    Ok(())
}

/// Decodes a tile in row order.
pub fn decode_uncompressed_row_interleave(
    reader: &mut UncompressedBitReader<'_>,
    specs: &[UncompressedComponentDecodeSpec],
    tile_region: UncompressedDecodeTileRegion,
    row_align_size: u32,
    channel_samples: &mut [Option<Vec<u16>>; 8],
) -> (result: Result<(), DecodeUncompressedError>)
    requires
        old(reader).wf(),
        tile_region.wf(),
    ensures
        final(reader).wf(),
        final(reader).bytes() == old(reader).bytes(),
        same_shape(channels_of(*old(channel_samples)), channels_of(*final(channel_samples))),
        match row_interleaved(
            old(reader).bytes(),
            specs@,
            tile_region,
            row_align_size,
            state_of(*old(reader), *old(channel_samples)),
        ) {
            Ok(next) => result is Ok && state_of(*final(reader), *final(channel_samples)) == next,
            Err(halt) => {
                &&& result == Err::<(), DecodeUncompressedError>(halt.error)
                &&& state_of(*final(reader), *final(channel_samples)) == halt.left
            },
        },
{
    let ghost data = reader.bytes();
    let ghost start = state_of(*reader, *channel_samples);
    let ghost step = row_components(data, specs@, tile_region, row_align_size);
    let mut row: usize = 0;
    while row < tile_region.height
        invariant
            row <= tile_region.height,
            reader.wf(),
            reader.bytes() == data,
            data == old(reader).bytes(),
            start == state_of(*old(reader), *old(channel_samples)),
            tile_region.wf(),
            same_shape(start.channels, channels_of(*channel_samples)),
            step == row_components(data, specs@, tile_region, row_align_size),
            repeat(row as nat, step, start) == Ok::<StreamState, Halt>(
                state_of(*reader, *channel_samples),
            ),
        decreases tile_region.height - row,
    {
        let ghost here = state_of(*reader, *channel_samples);
        assert(repeat((row + 1) as nat, step, start) == step(here, row as int));
        proof {
            if step(here, row as int) is Err {
                lemma_repeat_error((row + 1) as nat, tile_region.height as nat, step, start);
            }
        }
        decode_row_components(reader, specs, tile_region, row_align_size, row, channel_samples)?;
        row = row + 1;
    }
    Ok(())
}

} // verus!
