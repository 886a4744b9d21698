//! Groups of two luma samples with one Cb and one Cr sample.
use super::components::{
    UncompressedChannelRole, UncompressedComponentDecodeSpec, UNCOMPRESSED_SAMPLING_422,
};
#[allow(unused_imports)]
use super::interleave::lemma_block_in_region;
#[allow(unused_imports)]
use super::reader::{invalid, unsupported};
use super::reader::{invalid_input, unsupported_feature, UncompressedBitReader};
use super::stream::{
    read_uncompressed_component_sample, write_uncompressed_component_sample_block,
    UncompressedDecodeTileRegion,
};
#[allow(unused_imports)]
use super::stream::{
    channels_of, lemma_repeat_error, repeat, same_shape, state_of, Halt, Step, StreamState,
};
use crate::errors::DecodeUncompressedError;
use crate::text::{Arg, Detail};
use vstd::prelude::*;

verus! {

/// The number of luma components among the first `count`.
pub open spec fn luma_among(specs: Seq<UncompressedComponentDecodeSpec>, count: nat) -> nat
    decreases count,
{
    if count == 0 {
        0
    } else {
        luma_among(specs, (count - 1) as nat) + (if specs[count - 1].role is Luma {
            1nat
        } else {
            0nat
        })
    }
}

/// Whether the role stands among the first `count` components.
pub open spec fn role_among(
    specs: Seq<UncompressedComponentDecodeSpec>,
    role: UncompressedChannelRole,
    count: int,
) -> bool {
    exists|k: int| 0 <= k < count && (#[trigger] specs[k]).role == role
}

/// One component of a group: the luma samples stand side by side, a chroma
/// sample is for both pixels.
pub open spec fn group_component(
    data: Seq<u8>,
    specs: Seq<UncompressedComponentDecodeSpec>,
    region: UncompressedDecodeTileRegion,
    row: int,
    column: int,
) -> spec_fn(StreamState, int) -> Step {
    |state: StreamState, k: int|
        {
            let spec = specs[k];
            let w = region.image_width as int;
            let x = region.origin_x + column * 2;
            let y = region.origin_y + row;
            let luma = luma_among(specs, k as nat);
            match state.read(data, spec) {
                Err(e) => Err(e),
                Ok((next, value)) => if spec.role is Luma {
                    if luma >= 2 {
                        Err(
                            Halt {
                                error: invalid(
                                    Detail::Three(
                                        "uncC multi-y group ({},{}) has more than {} luma samples",
                                        Arg::Num(column as i128),
                                        Arg::Num(row as i128),
                                        Arg::Num(2),
                                    ),
                                ),
                                left: next,
                            },
                        )
                    } else {
                        next.paint(spec.role, w, x + luma, y, 1, 1, value)
                    }
                } else if spec.role.is_chroma() {
                    next.paint(spec.role, w, x, y, 2, 1, value)
                } else if spec.role is Padded {
                    Ok(next)
                } else {
                    Err(
                        Halt {
                            error: unsupported(
                                Detail::One(
                                    "uncC multi-y interleave currently supports only Y/Cb/Cr/padded components, found {}",
                                    Arg::Word(spec.role.variant_name()),
                                ),
                            ),
                            left: next,
                        },
                    )
                },
            }
        }
}

/// Whether the components make up a group: two luma samples, Cb and Cr.
pub open spec fn complete_group(specs: Seq<UncompressedComponentDecodeSpec>) -> bool {
    &&& luma_among(specs, specs.len()) == 2
    &&& role_among(specs, UncompressedChannelRole::ChromaBlue, specs.len() as int)
    &&& role_among(specs, UncompressedChannelRole::ChromaRed, specs.len() as int)
}

/// One group, padded to the pixel size.
pub open spec fn group(
    data: Seq<u8>,
    specs: Seq<UncompressedComponentDecodeSpec>,
    region: UncompressedDecodeTileRegion,
    pixel_size: u32,
    row: int,
) -> spec_fn(StreamState, int) -> Step {
    |state: StreamState, column: int|
        match repeat(
            specs.len(),
            group_component(data, specs, region, row, column),
            state.mark_pixel(),
        ) {
            Err(e) => Err(e),
            Ok(next) => if !complete_group(specs) {
                Err(
                    Halt {
                        error: invalid(
                            Detail::Two(
                                "uncC multi-y group ({},{}) does not provide the expected Y/Cb/Cr sample layout",
                                Arg::Num(column as i128),
                                Arg::Num(row as i128),
                            ),
                        ),
                        left: next,
                    },
                )
            } else {
                next.moved(next.at.pixel_aligned(data, pixel_size as int))
            },
        }
}

/// One row of groups, padded to the row alignment.
pub open spec fn group_row(
    data: Seq<u8>,
    specs: Seq<UncompressedComponentDecodeSpec>,
    region: UncompressedDecodeTileRegion,
    pixel_size: u32,
    row_align_size: u32,
) -> spec_fn(StreamState, int) -> Step {
    |state: StreamState, row: int|
        match repeat(
            (region.width as int / 2) as nat,
            group(data, specs, region, pixel_size, row),
            state.mark_row(),
        ) {
            Err(e) => Err(e),
            Ok(next) => next.row_ended(data, row_align_size as int),
        }
}

/// A tile in groups of two pixels; only 4:2:2 sampling has such groups.
pub open spec fn multi_y_interleaved(
    data: Seq<u8>,
    specs: Seq<UncompressedComponentDecodeSpec>,
    region: UncompressedDecodeTileRegion,
    pixel_size: u32,
    row_align_size: u32,
    sampling_type: u8,
    state: StreamState,
) -> Step {
    if sampling_type != UNCOMPRESSED_SAMPLING_422 {
        Err(
            Halt {
                error: unsupported(
                    Detail::One(
                        "uncC multi-y interleave currently supports only sampling_type {} (4:2:2)",
                        Arg::Num(1),
                    ),
                ),
                left: state,
            },
        )
    } else if region.width % 2 != 0 {
        Err(
            Halt {
                error: invalid(
                    Detail::Four(
                        "uncC multi-y interleave requires tile extent {}x{} to be divisible by {}x{}",
                        Arg::Num(region.width as i128),
                        Arg::Num(region.height as i128),
                        Arg::Num(2),
                        Arg::Num(1),
                    ),
                ),
                left: state,
            },
        )
    } else {
        repeat(
            region.height as nat,
            group_row(data, specs, region, pixel_size, row_align_size),
            state,
        )
    }
}

/// Reads the components of one group.
fn decode_group_components(
    reader: &mut UncompressedBitReader<'_>,
    specs: &[UncompressedComponentDecodeSpec],
    tile_region: UncompressedDecodeTileRegion,
    row: usize,
    column: usize,
    channel_samples: &mut [Option<Vec<u16>>; 8],
) -> (result: Result<(), DecodeUncompressedError>)
    requires
        old(reader).wf(),
        tile_region.wf(),
        row < tile_region.height,
        column < tile_region.width as int / 2,
    ensures
        final(reader).wf(),
        final(reader).bytes() == old(reader).bytes(),
        same_shape(channels_of(*old(channel_samples)), channels_of(*final(channel_samples))),
        match repeat(
            specs@.len(),
            group_component(old(reader).bytes(), specs@, tile_region, row as int, column as int),
            state_of(*old(reader), *old(channel_samples)),
        ) {
            Ok(next) => {
                &&& state_of(*final(reader), *final(channel_samples)) == next
                &&& if complete_group(specs@) {
                    result is Ok
                } else {
                    result == Err::<(), DecodeUncompressedError>(
                        invalid(
                            Detail::Two(
                                "uncC multi-y group ({},{}) does not provide the expected Y/Cb/Cr sample layout",
                                Arg::Num(column as i128),
                                Arg::Num(row as i128),
                            ),
                        ),
                    )
                }
            },
            Err(halt) => {
                &&& result == Err::<(), DecodeUncompressedError>(halt.error)
                &&& state_of(*final(reader), *final(channel_samples)) == halt.left
            },
        },
{
    let ghost data = reader.bytes();
    let ghost start = state_of(*reader, *channel_samples);
    let ghost step = group_component(data, specs@, tile_region, row as int, column as int);
    proof {
        lemma_block_in_region(tile_region, (2, 1), row as int, column as int);
    }
    let x: usize = tile_region.origin_x + column * 2;
    let y: usize = tile_region.origin_y + row;
    let mut luma_sample_index: usize = 0;
    let mut saw_cb: bool = false;
    let mut saw_cr: bool = false;
    let mut k: usize = 0;
    while k < specs.len()
        invariant
            k <= specs@.len(),
            reader.wf(),
            reader.bytes() == data,
            data == old(reader).bytes(),
            start == state_of(*old(reader), *old(channel_samples)),
            tile_region.wf(),
            start.channels.len() == 8,
            same_shape(start.channels, channels_of(*channel_samples)),
            x == tile_region.origin_x + column * 2,
            y == tile_region.origin_y + row,
            x + 2 <= tile_region.image_width,
            y + 1 <= usize::MAX,
            (y + 1) * tile_region.image_width <= tile_region.pixels(),
            luma_sample_index == luma_among(specs@, k as nat),
            luma_sample_index <= 2,
            saw_cb == role_among(specs@, UncompressedChannelRole::ChromaBlue, k as int),
            saw_cr == role_among(specs@, UncompressedChannelRole::ChromaRed, k as int),
            step == group_component(data, specs@, tile_region, row as int, column as int),
            repeat(k as nat, step, start) == Ok::<StreamState, Halt>(
                state_of(*reader, *channel_samples),
            ),
        decreases specs@.len() - k,
    {
        let ghost here = state_of(*reader, *channel_samples);
        assert(repeat((k + 1) as nat, step, start) == step(here, k as int));
        proof {
            if step(here, k as int) is Err {
                lemma_repeat_error((k + 1) as nat, specs@.len(), step, start);
            }
        }
        let spec: UncompressedComponentDecodeSpec = specs[k];
        proof {
            assert forall|role: UncompressedChannelRole|
                #[trigger] role_among(specs@, role, k + 1) == (role_among(specs@, role, k as int)
                    || spec.role == role) by {
                if spec.role == role {
                    assert(specs@[k as int].role == role);
                }
                if role_among(specs@, role, k as int) {
                    let j = choose|j: int| 0 <= j < k && (#[trigger] specs@[j]).role == role;
                    assert(specs@[j].role == role);
                }
            }
        }
        assert(here == (StreamState { at: reader.position(), channels: here.channels }));
        let sample: u16 = match read_uncompressed_component_sample(reader, spec) {
            Ok(sample) => sample,
            Err(e) => {
                assert(here.read(data, spec) is Err);
                return Err(e);
            },
        };
        assert(here.read(data, spec) is Ok);
        match spec.role {
            UncompressedChannelRole::Luma => {
                if luma_sample_index >= 2 {
                    return invalid_input(
                        Detail::Three(
                            "uncC multi-y group ({},{}) has more than {} luma samples",
                            Arg::Num(column as i128),
                            Arg::Num(row as i128),
                            Arg::Num(2),
                        ),
                    );
                }
                write_uncompressed_component_sample_block(
                    channel_samples,
                    spec,
                    tile_region.image_width,
                    (x + luma_sample_index, y),
                    (1, 1),
                    sample,
                )?;
                luma_sample_index = luma_sample_index + 1;
            },
            UncompressedChannelRole::ChromaBlue => {
                write_uncompressed_component_sample_block(
                    channel_samples,
                    spec,
                    tile_region.image_width,
                    (x, y),
                    (2, 1),
                    sample,
                )?;
                saw_cb = true;
            },
            UncompressedChannelRole::ChromaRed => {
                write_uncompressed_component_sample_block(
                    channel_samples,
                    spec,
                    tile_region.image_width,
                    (x, y),
                    (2, 1),
                    sample,
                )?;
                saw_cr = true;
            },
            UncompressedChannelRole::Padded => {},
            _ => {
                return unsupported_feature(
                    Detail::One(
                        "uncC multi-y interleave currently supports only Y/Cb/Cr/padded components, found {}",
                        Arg::Word(spec.role.name()),
                    ),
                );
            },
        }
        k = k + 1;
        assert(role_among(specs@, UncompressedChannelRole::ChromaBlue, k as int) == saw_cb);
        assert(role_among(specs@, UncompressedChannelRole::ChromaRed, k as int) == saw_cr);
    }
    if luma_sample_index != 2 || !saw_cb || !saw_cr {
        return invalid_input(
            Detail::Two(
                "uncC multi-y group ({},{}) does not provide the expected Y/Cb/Cr sample layout",
                Arg::Num(column as i128),
                Arg::Num(row as i128),
            ),
        );
    }
    Ok(())
}

/// Reads the groups of one row.
fn decode_group_row(
    reader: &mut UncompressedBitReader<'_>,
    specs: &[UncompressedComponentDecodeSpec],
    tile_region: UncompressedDecodeTileRegion,
    pixel_size: u32,
    row: usize,
    channel_samples: &mut [Option<Vec<u16>>; 8],
) -> (result: Result<(), DecodeUncompressedError>)
    requires
        old(reader).wf(),
        tile_region.wf(),
        row < tile_region.height,
    ensures
        final(reader).wf(),
        final(reader).bytes() == old(reader).bytes(),
        same_shape(channels_of(*old(channel_samples)), channels_of(*final(channel_samples))),
        match repeat(
            (tile_region.width as int / 2) as nat,
            group(old(reader).bytes(), specs@, tile_region, pixel_size, row as int),
            state_of(*old(reader), *old(channel_samples)),
        ) {
            Ok(next) => result is Ok && state_of(*final(reader), *final(channel_samples)) == next,
            Err(halt) => {
                &&& result == Err::<(), DecodeUncompressedError>(halt.error)
                &&& state_of(*final(reader), *final(channel_samples)) == halt.left
            },
        },
{
    let ghost data = reader.bytes();
    let ghost start = state_of(*reader, *channel_samples);
    let ghost step = group(data, specs@, tile_region, pixel_size, row as int);
    let groups_per_row: usize = tile_region.width / 2;
    let mut column: usize = 0;
    while column < groups_per_row
        invariant
            column <= groups_per_row,
            groups_per_row == tile_region.width as int / 2,
            row < tile_region.height,
            reader.wf(),
            reader.bytes() == data,
            data == old(reader).bytes(),
            start == state_of(*old(reader), *old(channel_samples)),
            tile_region.wf(),
            start.channels.len() == 8,
            same_shape(start.channels, channels_of(*channel_samples)),
            step == group(data, specs@, tile_region, pixel_size, row as int),
            repeat(column as nat, step, start) == Ok::<StreamState, Halt>(
                state_of(*reader, *channel_samples),
            ),
        decreases groups_per_row - column,
    {
        let ghost here = state_of(*reader, *channel_samples);
        assert(repeat((column + 1) as nat, step, start) == step(here, column as int));
        proof {
            if step(here, column as int) is Err {
                lemma_repeat_error((column + 1) as nat, groups_per_row as nat, step, start);
            }
        }
        reader.mark_pixel_start();
        assert(state_of(*reader, *channel_samples) == here.mark_pixel());
        decode_group_components(reader, specs, tile_region, row, column, channel_samples)?;
        reader.handle_pixel_alignment(pixel_size)?;
        column = column + 1;
    }
    Ok(())
}

/// Decodes a tile in groups of two pixels.
pub fn decode_uncompressed_multi_y_interleave(
    reader: &mut UncompressedBitReader<'_>,
    specs: &[UncompressedComponentDecodeSpec],
    tile_region: UncompressedDecodeTileRegion,
    pixel_size: u32,
    row_align_size: u32,
    sampling_type: u8,
    channel_samples: &mut [Option<Vec<u16>>; 8],
) -> (result: Result<(), DecodeUncompressedError>)
    requires
        old(reader).wf(),
        tile_region.wf(),
    ensures
        final(reader).wf(),
        final(reader).bytes() == old(reader).bytes(),
        same_shape(channels_of(*old(channel_samples)), channels_of(*final(channel_samples))),
        match multi_y_interleaved(
            old(reader).bytes(),
            specs@,
            tile_region,
            pixel_size,
            row_align_size,
            sampling_type,
            state_of(*old(reader), *old(channel_samples)),
        ) {
            Ok(next) => result is Ok && state_of(*final(reader), *final(channel_samples)) == next,
            Err(halt) => {
                &&& result == Err::<(), DecodeUncompressedError>(halt.error)
                &&& state_of(*final(reader), *final(channel_samples)) == halt.left
            },
        },
{
    if sampling_type != UNCOMPRESSED_SAMPLING_422 {
        return unsupported_feature(
            Detail::One(
                "uncC multi-y interleave currently supports only sampling_type {} (4:2:2)",
                Arg::Num(1),
            ),
        );
    }
    if tile_region.width % 2 != 0 {
        return invalid_input(
            Detail::Four(
                "uncC multi-y interleave requires tile extent {}x{} to be divisible by {}x{}",
                Arg::Num(tile_region.width as i128),
                Arg::Num(tile_region.height as i128),
                Arg::Num(2),
                Arg::Num(1),
            ),
        );
    }
    let ghost data = reader.bytes();
    let ghost start = state_of(*reader, *channel_samples);
    let ghost step = group_row(data, specs@, tile_region, pixel_size, row_align_size);
    let mut row: usize = 0;
    while row < tile_region.height
        invariant
            row <= tile_region.height,
            sampling_type == UNCOMPRESSED_SAMPLING_422,
            tile_region.width % 2 == 0,
            reader.wf(),
            reader.bytes() == data,
            data == old(reader).bytes(),
            start == state_of(*old(reader), *old(channel_samples)),
            tile_region.wf(),
            start.channels.len() == 8,
            same_shape(start.channels, channels_of(*channel_samples)),
            step == group_row(data, specs@, tile_region, pixel_size, row_align_size),
            repeat(row as nat, step, start) == Ok::<StreamState, Halt>(
                state_of(*reader, *channel_samples),
            ),
        decreases tile_region.height - row,
    {
        let ghost here = state_of(*reader, *channel_samples);
        assert(repeat((row + 1) as nat, step, start) == step(here, row as int));
        proof {
            if step(here, row as int) is Err {
                lemma_repeat_error((row + 1) as nat, tile_region.height as nat, step, start);
            }
        }
        reader.mark_row_start();
        assert(state_of(*reader, *channel_samples) == here.mark_row());
        decode_group_row(reader, specs, tile_region, pixel_size, row, channel_samples)?;
        reader.handle_row_alignment(row_align_size)?;
        row = row + 1;
    }
    Ok(())
}

} // verus!
