//! Luma samples in component order, Cb and Cr samples alternating.
use super::components::{UncompressedChannelRole, UncompressedComponentDecodeSpec};
use super::interleave::{decode_component_columns, uncompressed_tile_subsampling};
#[allow(unused_imports)]
use super::interleave::{component_columns, lemma_block_in_region, tile_subsampling};
#[allow(unused_imports)]
use super::reader::invalid;
use super::reader::{invalid_input, UncompressedBitReader};
use super::stream::{
    read_uncompressed_component_sample, write_uncompressed_component_sample_block,
    UncompressedDecodeTileRegion,
};
#[allow(unused_imports)]
use super::stream::{
    channels_of, lemma_repeat_error, repeat, same_shape, state_of, Halt, Step, StreamState,
};
use crate::errors::DecodeUncompressedError;
use crate::text::Detail;
use vstd::prelude::*;

verus! {

/// The other one of the two chroma roles.
pub open spec fn other_chroma(role: UncompressedChannelRole) -> UncompressedChannelRole {
    if role is ChromaBlue {
        UncompressedChannelRole::ChromaRed
    } else {
        UncompressedChannelRole::ChromaBlue
    }
}

/// The first of the first `count` components that has the role.
pub open spec fn first_with_role(
    specs: Seq<UncompressedComponentDecodeSpec>,
    role: UncompressedChannelRole,
    count: nat,
) -> Option<int>
    decreases count,
{
    if count == 0 {
        None
    } else {
        match first_with_role(specs, role, (count - 1) as nat) {
            Some(k) => Some(k),
            None => if specs[count - 1].role == role {
                Some(count - 1)
            } else {
                None
            },
        }
    }
}

/// Whether a chroma component stands among the first `count`.
pub open spec fn chroma_among(specs: Seq<UncompressedComponentDecodeSpec>, count: int) -> bool {
    exists|k: int| 0 <= k < count && (#[trigger] specs[k]).role.is_chroma()
}

/// One row of a component, up to the next byte boundary.
pub open spec fn mixed_row(
    data: Seq<u8>,
    spec: UncompressedComponentDecodeSpec,
    region: UncompressedDecodeTileRegion,
    shared: (int, int),
) -> spec_fn(StreamState, int) -> Step {
    |state: StreamState, row: int|
        match component_columns(data, spec, region, shared, row, state) {
            Err(e) => Err(e),
            Ok(next) => Ok(StreamState { at: next.at.to_byte_boundary(), ..next }),
        }
}

/// One sample of each of two components, with the pixels that share them.
pub open spec fn pair_column(
    data: Seq<u8>,
    first: UncompressedComponentDecodeSpec,
    second: UncompressedComponentDecodeSpec,
    region: UncompressedDecodeTileRegion,
    shared: (int, int),
    row: int,
) -> spec_fn(StreamState, int) -> Step {
    |state: StreamState, column: int|
        {
            let w = region.image_width as int;
            let x = region.origin_x + column * shared.0;
            let y = region.origin_y + row * shared.1;
            match state.read(data, first) {
                Err(halt) => Err(halt),
                Ok((between, one)) => match between.read(data, second) {
                    Err(halt) => Err(halt),
                    Ok((next, other)) => match next.paint(
                        first.role,
                        w,
                        x,
                        y,
                        shared.0,
                        shared.1,
                        one,
                    ) {
                        Err(halt) => Err(halt),
                        Ok(half) => half.paint(second.role, w, x, y, shared.0, shared.1, other),
                    },
                },
            }
        }
}

/// One row of two components, sample by sample, up to the next byte boundary.
pub open spec fn pair_row(
    data: Seq<u8>,
    first: UncompressedComponentDecodeSpec,
    second: UncompressedComponentDecodeSpec,
    region: UncompressedDecodeTileRegion,
    shared: (int, int),
) -> spec_fn(StreamState, int) -> Step {
    |state: StreamState, row: int|
        match repeat(
            (region.width as int / shared.0) as nat,
            pair_column(data, first, second, region, shared, row),
            state,
        ) {
            Err(e) => Err(e),
            Ok(next) => Ok(StreamState { at: next.at.to_byte_boundary(), ..next }),
        }
}

/// One component of a tile, or, for the first chroma component, both; the
/// other chroma component has then been read already.
pub open spec fn mixed_component(
    data: Seq<u8>,
    specs: Seq<UncompressedComponentDecodeSpec>,
    region: UncompressedDecodeTileRegion,
    sampling_type: u8,
) -> spec_fn(StreamState, int) -> Step {
    |state: StreamState, k: int|
        {
            let spec = specs[k];
            let other = first_with_role(specs, other_chroma(spec.role), specs.len());
            let (w, h) = (region.width as int, region.height as int);
            if spec.role.is_chroma() && chroma_among(specs, k) {
                Ok(state)
            } else if spec.role.is_chroma() && other is None {
                Err(
                    Halt {
                        error: invalid(
                            Detail::Plain(
                                "uncC mixed interleave is missing a complementary Cb/Cr channel",
                            ),
                        ),
                        left: state,
                    },
                )
            } else {
                match tile_subsampling(spec.role, sampling_type, w, h) {
                    Err(error) => Err(Halt { error, left: state }),
                    Ok(shared) => repeat(
                        (h / shared.1) as nat,
                        if spec.role.is_chroma() {
                            pair_row(data, spec, specs[other->0], region, shared)
                        } else {
                            mixed_row(data, spec, region, shared)
                        },
                        state,
                    ),
                }
            }
        }
}

/// A tile with its chroma samples in pairs.
pub open spec fn mixed_interleaved(
    data: Seq<u8>,
    specs: Seq<UncompressedComponentDecodeSpec>,
    region: UncompressedDecodeTileRegion,
    sampling_type: u8,
    state: StreamState,
) -> Step {
    match repeat(specs.len(), mixed_component(data, specs, region, sampling_type), state) {
        Err(e) => Err(e),
        Ok(next) => if chroma_among(specs, specs.len() as int) {
            Ok(next)
        } else {
            Err(
                Halt {
                    error: invalid(
                        Detail::Plain(
                            "uncC mixed interleave did not decode any Cb/Cr sample pairs",
                        ),
                    ),
                    left: next,
                },
            )
        },
    }
}

proof fn lemma_first_with_role(
    specs: Seq<UncompressedComponentDecodeSpec>,
    role: UncompressedChannelRole,
    few: nat,
    many: nat,
)
    requires
        few <= many,
        first_with_role(specs, role, few) is Some,
    ensures
        first_with_role(specs, role, many) == first_with_role(specs, role, few),
    decreases many - few,
{
    if few < many {
        lemma_first_with_role(specs, role, few, (many - 1) as nat);
    }
}

/// Finds the first component that has the role.
fn find_component_with_role(
    specs: &[UncompressedComponentDecodeSpec],
    role: UncompressedChannelRole,
) -> (found: Option<usize>)
    ensures
        match first_with_role(specs@, role, specs@.len()) {
            Some(k) => found is Some && found->0 == k && found->0 < specs@.len(),
            None => found is None,
        },
{
    let mut k: usize = 0;
    while k < specs.len()
        invariant
            k <= specs@.len(),
            first_with_role(specs@, role, k as nat) is None,
        decreases specs@.len() - k,
    {
        if specs[k].role == role {
            proof {
                lemma_first_with_role(specs@, role, (k + 1) as nat, specs@.len());
            }
            return Some(k);
        }
        k = k + 1;
    }
    None
}

/// Reads the rows of a component, each up to the next byte boundary.
fn decode_mixed_rows(
    reader: &mut UncompressedBitReader<'_>,
    spec: UncompressedComponentDecodeSpec,
    tile_region: UncompressedDecodeTileRegion,
    shared: (usize, usize),
    channel_samples: &mut [Option<Vec<u16>>; 8],
) -> (result: Result<(), DecodeUncompressedError>)
    requires
        old(reader).wf(),
        tile_region.wf(),
        1 <= shared.0 <= 2,
        1 <= shared.1 <= 2,
        channels_of(*old(channel_samples)).len() == 8,
    ensures
        final(reader).wf(),
        final(reader).bytes() == old(reader).bytes(),
        same_shape(channels_of(*old(channel_samples)), channels_of(*final(channel_samples))),
        match repeat(
            (tile_region.height as int / shared.1 as int) as nat,
            mixed_row(
                old(reader).bytes(),
                spec,
                tile_region,
                (shared.0 as int, shared.1 as int),
            ),
            state_of(*old(reader), *old(channel_samples)),
        ) {
            Ok(next) => result is Ok && state_of(*final(reader), *final(channel_samples)) == next,
            Err(halt) => {
                &&& result == Err::<(), DecodeUncompressedError>(halt.error)
                &&& state_of(*final(reader), *final(channel_samples)) == halt.left
            },
        },
{
    let ghost data = reader.bytes();
    let ghost start = state_of(*reader, *channel_samples);
    let ghost both = (shared.0 as int, shared.1 as int);
    let ghost step = mixed_row(data, spec, tile_region, both);
    let component_height: usize = tile_region.height / shared.1;
    let mut row: usize = 0;
    while row < component_height
        invariant
            row <= component_height,
            component_height == tile_region.height as int / shared.1 as int,
            1 <= shared.0 <= 2,
            1 <= shared.1 <= 2,
            both == (shared.0 as int, shared.1 as int),
            reader.wf(),
            reader.bytes() == data,
            data == old(reader).bytes(),
            start == state_of(*old(reader), *old(channel_samples)),
            tile_region.wf(),
            start.channels.len() == 8,
            same_shape(start.channels, channels_of(*channel_samples)),
            step == mixed_row(data, spec, tile_region, both),
            repeat(row as nat, step, start) == Ok::<StreamState, Halt>(
                state_of(*reader, *channel_samples),
            ),
        decreases component_height - row,
    {
        let ghost here = state_of(*reader, *channel_samples);
        assert(repeat((row + 1) as nat, step, start) == step(here, row as int));
        proof {
            if step(here, row as int) is Err {
                lemma_repeat_error((row + 1) as nat, component_height as nat, step, start);
            }
        }
        decode_component_columns(reader, spec, tile_region, shared, row, channel_samples)?;
        reader.skip_to_byte_boundary();
        row = row + 1;
    }
    Ok(())
}

/// Reads the samples of one row of two components, alternating.
fn decode_pair_columns(
    reader: &mut UncompressedBitReader<'_>,
    first: UncompressedComponentDecodeSpec,
    second: UncompressedComponentDecodeSpec,
    tile_region: UncompressedDecodeTileRegion,
    shared: (usize, usize),
    row: usize,
    channel_samples: &mut [Option<Vec<u16>>; 8],
) -> (result: Result<(), DecodeUncompressedError>)
    requires
        old(reader).wf(),
        tile_region.wf(),
        1 <= shared.0 <= 2,
        1 <= shared.1 <= 2,
        row < tile_region.height as int / shared.1 as int,
        channels_of(*old(channel_samples)).len() == 8,
    ensures
        final(reader).wf(),
        final(reader).bytes() == old(reader).bytes(),
        same_shape(channels_of(*old(channel_samples)), channels_of(*final(channel_samples))),
        match repeat(
            (tile_region.width as int / shared.0 as int) as nat,
            pair_column(
                old(reader).bytes(),
                first,
                second,
                tile_region,
                (shared.0 as int, shared.1 as int),
                row as int,
            ),
            state_of(*old(reader), *old(channel_samples)),
        ) {
            Ok(next) => result is Ok && state_of(*final(reader), *final(channel_samples)) == next,
            Err(halt) => {
                &&& result == Err::<(), DecodeUncompressedError>(halt.error)
                &&& state_of(*final(reader), *final(channel_samples)) == halt.left
            },
        },
{
    let ghost data = reader.bytes();
    let ghost start = state_of(*reader, *channel_samples);
    let ghost both = (shared.0 as int, shared.1 as int);
    let ghost step = pair_column(data, first, second, tile_region, both, row as int);
    let component_width: usize = tile_region.width / shared.0;
    let mut column: usize = 0;
    while column < component_width
        invariant
            column <= component_width,
            component_width == tile_region.width as int / shared.0 as int,
            row < tile_region.height as int / shared.1 as int,
            1 <= shared.0 <= 2,
            1 <= shared.1 <= 2,
            both == (shared.0 as int, shared.1 as int),
            reader.wf(),
            reader.bytes() == data,
            data == old(reader).bytes(),
            start == state_of(*old(reader), *old(channel_samples)),
            tile_region.wf(),
            start.channels.len() == 8,
            same_shape(start.channels, channels_of(*channel_samples)),
            step == pair_column(data, first, second, tile_region, both, row as int),
            repeat(column as nat, step, start) == Ok::<StreamState, Halt>(
                state_of(*reader, *channel_samples),
            ),
        decreases component_width - column,
    {
        let ghost here = state_of(*reader, *channel_samples);
        assert(repeat((column + 1) as nat, step, start) == step(here, column as int));
        proof {
            if step(here, column as int) is Err {
                lemma_repeat_error((column + 1) as nat, component_width as nat, step, start);
            }
        }
        proof {
            lemma_block_in_region(tile_region, both, row as int, column as int);
        }
        let x: usize = tile_region.origin_x + column * shared.0;
        let y: usize = tile_region.origin_y + row * shared.1;
        assert(here == (StreamState { at: reader.position(), channels: here.channels }));
        let sample: u16 = match read_uncompressed_component_sample(reader, first) {
            Ok(sample) => sample,
            Err(e) => {
                assert(here.read(data, first) is Err);
                return Err(e);
            },
        };
        assert(here.read(data, first) is Ok);
        let ghost between = state_of(*reader, *channel_samples);
        assert(between == (StreamState { at: reader.position(), channels: here.channels }));
        let other_sample: u16 = match read_uncompressed_component_sample(reader, second) {
            Ok(sample) => sample,
            Err(e) => {
                assert(between.read(data, second) is Err);
                return Err(e);
            },
        };
        assert(between.read(data, second) is Ok);
        write_uncompressed_component_sample_block(
            channel_samples,
            first,
            tile_region.image_width,
            (x, y),
            shared,
            sample,
        )?;
        write_uncompressed_component_sample_block(
            channel_samples,
            second,
            tile_region.image_width,
            (x, y),
            shared,
            other_sample,
        )?;
        column = column + 1;
    }
    Ok(())
}

/// Reads the rows of two components, each up to the next byte boundary.
fn decode_pair_rows(
    reader: &mut UncompressedBitReader<'_>,
    first: UncompressedComponentDecodeSpec,
    second: UncompressedComponentDecodeSpec,
    tile_region: UncompressedDecodeTileRegion,
    shared: (usize, usize),
    channel_samples: &mut [Option<Vec<u16>>; 8],
) -> (result: Result<(), DecodeUncompressedError>)
    requires
        old(reader).wf(),
        tile_region.wf(),
        1 <= shared.0 <= 2,
        1 <= shared.1 <= 2,
        channels_of(*old(channel_samples)).len() == 8,
    ensures
        final(reader).wf(),
        final(reader).bytes() == old(reader).bytes(),
        same_shape(channels_of(*old(channel_samples)), channels_of(*final(channel_samples))),
        match repeat(
            (tile_region.height as int / shared.1 as int) as nat,
            pair_row(
                old(reader).bytes(),
                first,
                second,
                tile_region,
                (shared.0 as int, shared.1 as int),
            ),
            state_of(*old(reader), *old(channel_samples)),
        ) {
            Ok(next) => result is Ok && state_of(*final(reader), *final(channel_samples)) == next,
            Err(halt) => {
                &&& result == Err::<(), DecodeUncompressedError>(halt.error)
                &&& state_of(*final(reader), *final(channel_samples)) == halt.left
            },
        },
{
    let ghost data = reader.bytes();
    let ghost start = state_of(*reader, *channel_samples);
    let ghost both = (shared.0 as int, shared.1 as int);
    let ghost step = pair_row(data, first, second, tile_region, both);
    let component_height: usize = tile_region.height / shared.1;
    let mut row: usize = 0;
    while row < component_height
        invariant
            row <= component_height,
            component_height == tile_region.height as int / shared.1 as int,
            1 <= shared.0 <= 2,
            1 <= shared.1 <= 2,
            both == (shared.0 as int, shared.1 as int),
            reader.wf(),
            reader.bytes() == data,
            data == old(reader).bytes(),
            start == state_of(*old(reader), *old(channel_samples)),
            tile_region.wf(),
            start.channels.len() == 8,
            same_shape(start.channels, channels_of(*channel_samples)),
            step == pair_row(data, first, second, tile_region, both),
            repeat(row as nat, step, start) == Ok::<StreamState, Halt>(
                state_of(*reader, *channel_samples),
            ),
        decreases component_height - row,
    {
        let ghost here = state_of(*reader, *channel_samples);
        assert(repeat((row + 1) as nat, step, start) == step(here, row as int));
        proof {
            if step(here, row as int) is Err {
                lemma_repeat_error((row + 1) as nat, component_height as nat, step, start);
            }
        }
        decode_pair_columns(reader, first, second, tile_region, shared, row, channel_samples)?;
        reader.skip_to_byte_boundary();
        row = row + 1;
    }
    Ok(())
}

/// Decodes a tile with its chroma samples in pairs.
pub fn decode_uncompressed_mixed_interleave(
    reader: &mut UncompressedBitReader<'_>,
    specs: &[UncompressedComponentDecodeSpec],
    tile_region: UncompressedDecodeTileRegion,
    sampling_type: u8,
    channel_samples: &mut [Option<Vec<u16>>; 8],
) -> (result: Result<(), DecodeUncompressedError>)
    requires
        old(reader).wf(),
        tile_region.wf(),
    ensures
        final(reader).wf(),
        final(reader).bytes() == old(reader).bytes(),
        same_shape(channels_of(*old(channel_samples)), channels_of(*final(channel_samples))),
        match mixed_interleaved(
            old(reader).bytes(),
            specs@,
            tile_region,
            sampling_type,
            state_of(*old(reader), *old(channel_samples)),
        ) {
            Ok(next) => result is Ok && state_of(*final(reader), *final(channel_samples)) == next,
            Err(halt) => {
                &&& result == Err::<(), DecodeUncompressedError>(halt.error)
                &&& state_of(*final(reader), *final(channel_samples)) == halt.left
            },
        },
{
    let ghost data = reader.bytes();
    let ghost start = state_of(*reader, *channel_samples);
    let ghost step = mixed_component(data, specs@, tile_region, sampling_type);
    let mut decoded_chroma_pair: bool = false;
    let mut k: usize = 0;
    while k < specs.len()
        invariant
            k <= specs@.len(),
            decoded_chroma_pair == chroma_among(specs@, k as int),
            reader.wf(),
            reader.bytes() == data,
            data == old(reader).bytes(),
            start == state_of(*old(reader), *old(channel_samples)),
            tile_region.wf(),
            start.channels.len() == 8,
            same_shape(start.channels, channels_of(*channel_samples)),
            step == mixed_component(data, specs@, tile_region, sampling_type),
            repeat(k as nat, step, start) == Ok::<StreamState, Halt>(
                state_of(*reader, *channel_samples),
            ),
        decreases specs@.len() - k,
    {
        let ghost here = state_of(*reader, *channel_samples);
        assert(repeat((k + 1) as nat, step, start) == step(here, k as int));
        proof {
            if step(here, k as int) is Err {
                lemma_repeat_error((k + 1) as nat, specs@.len(), step, start);
            }
        }
        let spec: UncompressedComponentDecodeSpec = specs[k];
        let chroma: bool = match spec.role {
            UncompressedChannelRole::ChromaBlue | UncompressedChannelRole::ChromaRed => true,
            _ => false,
        };
        assert(chroma == spec.role.is_chroma());
        assert(chroma_among(specs@, k + 1) == (chroma_among(specs@, k as int) || chroma)) by {
            if chroma {
                assert(specs@[k as int].role.is_chroma());
            }
            if chroma_among(specs@, k as int) {
                let j = choose|j: int| 0 <= j < k && (#[trigger] specs@[j]).role.is_chroma();
                assert(specs@[j].role.is_chroma());
            }
        }
        if chroma {
            if !decoded_chroma_pair {
                let other_role: UncompressedChannelRole = match spec.role {
                    UncompressedChannelRole::ChromaBlue => UncompressedChannelRole::ChromaRed,
                    _ => UncompressedChannelRole::ChromaBlue,
                };
                let other: usize = match find_component_with_role(specs, other_role) {
                    Some(other) => other,
                    None => {
                        return invalid_input(
                            Detail::Plain(
                                "uncC mixed interleave is missing a complementary Cb/Cr channel",
                            ),
                        );
                    },
                };
                let shared: (usize, usize) = uncompressed_tile_subsampling(
                    spec.role,
                    sampling_type,
                    tile_region.width,
                    tile_region.height,
                )?;
                decode_pair_rows(
                    reader,
                    spec,
                    specs[other],
                    tile_region,
                    shared,
                    channel_samples,
                )?;
                decoded_chroma_pair = true;
            }
        } else {
            let shared: (usize, usize) = uncompressed_tile_subsampling(
                spec.role,
                sampling_type,
                tile_region.width,
                tile_region.height,
            )?;
            decode_mixed_rows(reader, spec, tile_region, shared, channel_samples)?;
        }
        k = k + 1;
    }
    if !decoded_chroma_pair {
        return invalid_input(
            Detail::Plain("uncC mixed interleave did not decode any Cb/Cr sample pairs"),
        );
    }
    Ok(())
}

} // verus!
