//! A whole uncompressed frame: what it must be like, and its channels.
use super::channel_map::{resolve_uncompressed_channel_map, UncompressedChannelMap};
#[allow(unused_imports)]
use super::channel_map::{channel_map, ChannelMap};
use super::components::{
    uncompressed_component_layout_from_properties, UncompressedComponentDecodeSpec,
    UncompressedFrameConfig, UncompressedPrimaryItemProperties, UNCOMPRESSED_CHANNEL_BLUE,
    UNCOMPRESSED_CHANNEL_CB, UNCOMPRESSED_CHANNEL_CR, UNCOMPRESSED_CHANNEL_GREEN,
    UNCOMPRESSED_CHANNEL_LUMA, UNCOMPRESSED_CHANNEL_MONO, UNCOMPRESSED_CHANNEL_RED,
    UNCOMPRESSED_INTERLEAVE_COMPONENT, UNCOMPRESSED_INTERLEAVE_MIXED,
    UNCOMPRESSED_INTERLEAVE_MULTI_Y, UNCOMPRESSED_INTERLEAVE_PIXEL, UNCOMPRESSED_INTERLEAVE_ROW,
    UNCOMPRESSED_INTERLEAVE_TILE_COMPONENT, UNCOMPRESSED_SAMPLING_420, UNCOMPRESSED_SAMPLING_422,
    UNCOMPRESSED_SAMPLING_NO_SUBSAMPLING,
};
#[allow(unused_imports)]
use super::components::{component_layout, ComponentLayout};
use super::interleave::{
    decode_uncompressed_component_interleave, decode_uncompressed_pixel_interleave,
    decode_uncompressed_row_interleave, UncompressedComponentDecodeParams,
};
#[allow(unused_imports)]
use super::interleave::{component_interleaved, pixel_interleaved, row_interleaved};
use super::mixed::decode_uncompressed_mixed_interleave;
#[allow(unused_imports)]
use super::mixed::mixed_interleaved;
use super::multi_y::decode_uncompressed_multi_y_interleave;
#[allow(unused_imports)]
use super::multi_y::multi_y_interleaved;
use super::reader::{invalid_input, unsupported_feature, UncompressedBitReader};
#[allow(unused_imports)]
use super::reader::{invalid, unsupported, Position};
use super::stream::UncompressedDecodeTileRegion;
#[allow(unused_imports)]
use super::stream::{
    channels_of, lemma_repeat_error, repeat, same_shape, state_of, Channels, Halt, Step, StreamState,
};
use super::tiles::{decode_uncompressed_tile_component_interleave, UncompressedTileDecodeLayout};
#[allow(unused_imports)]
use super::tiles::tile_component_interleaved;
use crate::errors::DecodeUncompressedError;
use crate::text::{Arg, Detail};
use vstd::prelude::*;

verus! {

/// The columns and rows of pixels that share a chroma sample.
pub open spec fn shared_by(sampling_type: u8) -> (int, int) {
    if sampling_type == UNCOMPRESSED_SAMPLING_NO_SUBSAMPLING {
        (1, 1)
    } else if sampling_type == UNCOMPRESSED_SAMPLING_422 {
        (2, 1)
    } else {
        (2, 2)
    }
}

/// What is wrong with the header of a frame, if anything.
pub open spec fn header_error(layout: ComponentLayout, config: UncompressedFrameConfig) -> Option<
    DecodeUncompressedError,
> {
    if layout.sampling_type > UNCOMPRESSED_SAMPLING_420 {
        Some(
            unsupported(
                Detail::One(
                    "unsupported uncC sampling_type {}; baseline currently supports no-subsampling, 4:2:2, and 4:2:0",
                    Arg::Num(layout.sampling_type as i128),
                ),
            ),
        )
    } else if layout.interleave_type > UNCOMPRESSED_INTERLEAVE_MULTI_Y {
        Some(
            unsupported(
                Detail::One(
                    "unsupported uncC interleave_type {}; baseline supports component/pixel/mixed/row/tile-component/multi-y interleave",
                    Arg::Num(layout.interleave_type as i128),
                ),
            ),
        )
    } else if config.block_size != 0 || config.components_little_endian || config.block_pad_lsb
        || config.block_little_endian || config.block_reversed || config.pad_unknown {
        Some(
            unsupported(
                Detail::Plain(
                    "uncC block/endian flags are not supported in this baseline uncompressed decoder",
                ),
            ),
        )
    } else if layout.interleave_type != UNCOMPRESSED_INTERLEAVE_PIXEL && layout.interleave_type
        != UNCOMPRESSED_INTERLEAVE_MULTI_Y && config.pixel_size != 0 {
        Some(
            invalid(
                Detail::One(
                    "uncC pixel_size must be zero for interleave_type {}",
                    Arg::Num(layout.interleave_type as i128),
                ),
            ),
        )
    } else if layout.specs.len() == 0 {
        Some(
            invalid(Detail::Plain("uncompressed primary item has no component descriptors")),
        )
    } else {
        None
    }
}

/// Tells what is wrong with the header of a frame.
fn check_header(
    specs: &[UncompressedComponentDecodeSpec],
    sampling_type: u8,
    interleave_type: u8,
    config: &UncompressedFrameConfig,
) -> (result: Result<(), DecodeUncompressedError>)
    ensures
        match header_error(
            ComponentLayout { specs: specs@, sampling_type, interleave_type },
            *config,
        ) {
            Some(e) => result == Err::<(), DecodeUncompressedError>(e),
            None => result is Ok,
        },
{
    if sampling_type > UNCOMPRESSED_SAMPLING_420 {
        return unsupported_feature(
            Detail::One(
                "unsupported uncC sampling_type {}; baseline currently supports no-subsampling, 4:2:2, and 4:2:0",
                Arg::Num(sampling_type as i128),
            ),
        );
    }
    if interleave_type > UNCOMPRESSED_INTERLEAVE_MULTI_Y {
        return unsupported_feature(
            Detail::One(
                "unsupported uncC interleave_type {}; baseline supports component/pixel/mixed/row/tile-component/multi-y interleave",
                Arg::Num(interleave_type as i128),
            ),
        );
    }
    if config.block_size != 0 || config.components_little_endian || config.block_pad_lsb
        || config.block_little_endian || config.block_reversed || config.pad_unknown {
        return unsupported_feature(
            Detail::Plain(
                "uncC block/endian flags are not supported in this baseline uncompressed decoder",
            ),
        );
    }
    if interleave_type != UNCOMPRESSED_INTERLEAVE_PIXEL && interleave_type
        != UNCOMPRESSED_INTERLEAVE_MULTI_Y && config.pixel_size != 0 {
        return invalid_input(
            Detail::One(
                "uncC pixel_size must be zero for interleave_type {}",
                Arg::Num(interleave_type as i128),
            ),
        );
    }
    if specs.len() == 0 {
        return invalid_input(
            Detail::Plain("uncompressed primary item has no component descriptors"),
        );
    }
    Ok(())
}

/// The tiles of a frame, or what is wrong with them.
pub open spec fn tiling(properties: &UncompressedPrimaryItemProperties) -> Result<
    UncompressedTileDecodeLayout,
    DecodeUncompressedError,
> {
    let width = properties.width;
    let height = properties.height;
    let columns = properties.unc_c.num_tile_cols;
    let rows = properties.unc_c.num_tile_rows;
    if columns > width || rows > height {
        Err(
            invalid(
                Detail::Four(
                    "uncC tile grid {}x{} exceeds image extent {}x{}",
                    Arg::Num(columns as i128),
                    Arg::Num(rows as i128),
                    Arg::Num(width as i128),
                    Arg::Num(height as i128),
                ),
            ),
        )
    } else if width as int % columns as int != 0 || height as int % rows as int != 0 {
        Err(
            invalid(
                Detail::Four(
                    "uncC tile grid {}x{} does not evenly divide image extent {}x{}",
                    Arg::Num(columns as i128),
                    Arg::Num(rows as i128),
                    Arg::Num(width as i128),
                    Arg::Num(height as i128),
                ),
            ),
        )
    } else if width * height > usize::MAX {
        Err(
            invalid(
                Detail::Two(
                    "uncompressed image sample-count overflow for dimensions {}x{}",
                    Arg::Num(width as i128),
                    Arg::Num(height as i128),
                ),
            ),
        )
    } else {
        Ok(
            UncompressedTileDecodeLayout {
                tile_rows: rows as usize,
                tile_cols: columns as usize,
                tile_width: (width as int / columns as int) as usize,
                tile_height: (height as int / rows as int) as usize,
                image_width: width as usize,
                row_align_size: properties.unc_c.row_align_size,
                tile_align_size: properties.unc_c.tile_align_size,
            },
        )
    }
}

/// Finds the tiles of a frame. They cover the image exactly.
pub fn uncompressed_tiling_from_properties(
    properties: &UncompressedPrimaryItemProperties,
) -> (result: Result<UncompressedTileDecodeLayout, DecodeUncompressedError>)
    requires
        properties.wf(),
    ensures
        result == tiling(properties),
        result matches Ok(tile) ==> {
            &&& tile.wf()
            &&& tile.tile_cols * tile.tile_width == properties.width
            &&& tile.rows() == properties.height
            &&& tile.pixels() == properties.width * properties.height
            &&& tile.tile_width > 0
            &&& tile.tile_height > 0
        },
{
    let width: u32 = properties.width;
    let height: u32 = properties.height;
    let columns: u32 = properties.unc_c.num_tile_cols;
    let rows: u32 = properties.unc_c.num_tile_rows;
    if columns > width || rows > height {
        return invalid_input(
            Detail::Four(
                "uncC tile grid {}x{} exceeds image extent {}x{}",
                Arg::Num(columns as i128),
                Arg::Num(rows as i128),
                Arg::Num(width as i128),
                Arg::Num(height as i128),
            ),
        );
    }
    if width % columns != 0 || height % rows != 0 {
        return invalid_input(
            Detail::Four(
                "uncC tile grid {}x{} does not evenly divide image extent {}x{}",
                Arg::Num(columns as i128),
                Arg::Num(rows as i128),
                Arg::Num(width as i128),
                Arg::Num(height as i128),
            ),
        );
    }
    let tile_width: u32 = width / columns;
    let tile_height: u32 = height / rows;
    proof {
        vstd::arithmetic::div_mod::lemma_fundamental_div_mod(width as int, columns as int);
        vstd::arithmetic::div_mod::lemma_fundamental_div_mod(height as int, rows as int);
        assert(tile_width > 0) by (nonlinear_arith)
            requires
                width > 0,
                width == columns * tile_width + 0,
        ;
        assert(tile_height > 0) by (nonlinear_arith)
            requires
                height > 0,
                height == rows * tile_height + 0,
        ;
        assert(0 <= width * height) by (nonlinear_arith);
        vstd::arithmetic::mul::lemma_mul_is_commutative(width as int, height as int);
    }
    match (width as usize).checked_mul(height as usize) {
        Some(_) => {},
        None => {
            return invalid_input(
                Detail::Two(
                    "uncompressed image sample-count overflow for dimensions {}x{}",
                    Arg::Num(width as i128),
                    Arg::Num(height as i128),
                ),
            );
        },
    }
    Ok(
        UncompressedTileDecodeLayout {
            tile_rows: rows as usize,
            tile_cols: columns as usize,
            tile_width: tile_width as usize,
            tile_height: tile_height as usize,
            image_width: width as usize,
            row_align_size: properties.unc_c.row_align_size,
            tile_align_size: properties.unc_c.tile_align_size,
        },
    )
}

/// Whether a channel is there.
pub open spec fn present(map: ChannelMap, channel: usize) -> bool {
    map.present[channel as int]
}

/// Whether one of luma, Cb and Cr is there.
pub open spec fn any_ycbcr(map: ChannelMap) -> bool {
    present(map, UNCOMPRESSED_CHANNEL_LUMA) || present(map, UNCOMPRESSED_CHANNEL_CB) || present(
        map,
        UNCOMPRESSED_CHANNEL_CR,
    )
}

/// Whether luma, Cb and Cr are all there.
pub open spec fn full_ycbcr(map: ChannelMap) -> bool {
    present(map, UNCOMPRESSED_CHANNEL_LUMA) && present(map, UNCOMPRESSED_CHANNEL_CB) && present(
        map,
        UNCOMPRESSED_CHANNEL_CR,
    )
}

/// Whether one of red, green and blue is there.
pub open spec fn any_rgb(map: ChannelMap) -> bool {
    present(map, UNCOMPRESSED_CHANNEL_RED) || present(map, UNCOMPRESSED_CHANNEL_GREEN) || present(
        map,
        UNCOMPRESSED_CHANNEL_BLUE,
    )
}

/// Whether red, green and blue are all there.
pub open spec fn full_rgb(map: ChannelMap) -> bool {
    present(map, UNCOMPRESSED_CHANNEL_RED) && present(map, UNCOMPRESSED_CHANNEL_GREEN) && present(
        map,
        UNCOMPRESSED_CHANNEL_BLUE,
    )
}

/// What is wrong with the set of channels of a frame, if anything: it is
/// monochrome, red, green and blue, or luma, Cb and Cr.
pub open spec fn channel_set_error(map: ChannelMap) -> Option<DecodeUncompressedError> {
    let mono = present(map, UNCOMPRESSED_CHANNEL_MONO);
    if mono && (any_rgb(map) || any_ycbcr(map)) {
        Some(
            unsupported(
                Detail::Plain(
                    "simultaneous monochrome and RGB/YCbCr component sets are not supported in this baseline decoder",
                ),
            ),
        )
    } else if any_rgb(map) && any_ycbcr(map) {
        Some(
            unsupported(
                Detail::Plain(
                    "simultaneous RGB and YCbCr component sets are not supported in this baseline decoder",
                ),
            ),
        )
    } else if any_rgb(map) && !full_rgb(map) {
        Some(
            unsupported(
                Detail::Plain(
                    "baseline uncompressed decoder requires full RGB channel sets (R/G/B)",
                ),
            ),
        )
    } else if any_ycbcr(map) && !full_ycbcr(map) {
        Some(
            unsupported(
                Detail::Plain(
                    "baseline uncompressed decoder requires full YCbCr channel sets (Y/Cb/Cr)",
                ),
            ),
        )
    } else if !mono && !full_rgb(map) && !full_ycbcr(map) {
        Some(
            unsupported(
                Detail::Plain(
                    "baseline uncompressed decoder requires either monochrome, full RGB, or full YCbCr components",
                ),
            ),
        )
    } else {
        None
    }
}

/// Tells what is wrong with the set of channels of a frame.
fn check_channel_set(map: &UncompressedChannelMap) -> (result: Result<(), DecodeUncompressedError>)
    ensures
        match channel_set_error(map@) {
            Some(e) => result == Err::<(), DecodeUncompressedError>(e),
            None => result is Ok,
        },
{
    let present: [bool; 8] = map.has_channel;
    let mono: bool = present[UNCOMPRESSED_CHANNEL_MONO];
    let has_ycbcr: bool = present[UNCOMPRESSED_CHANNEL_LUMA] || present[UNCOMPRESSED_CHANNEL_CB]
        || present[UNCOMPRESSED_CHANNEL_CR];
    let has_full_ycbcr: bool = present[UNCOMPRESSED_CHANNEL_LUMA]
        && present[UNCOMPRESSED_CHANNEL_CB] && present[UNCOMPRESSED_CHANNEL_CR];
    let has_rgb: bool = present[UNCOMPRESSED_CHANNEL_RED] || present[UNCOMPRESSED_CHANNEL_GREEN]
        || present[UNCOMPRESSED_CHANNEL_BLUE];
    let has_full_rgb: bool = present[UNCOMPRESSED_CHANNEL_RED]
        && present[UNCOMPRESSED_CHANNEL_GREEN] && present[UNCOMPRESSED_CHANNEL_BLUE];
    if mono && (has_rgb || has_ycbcr) {
        return unsupported_feature(
            Detail::Plain(
                "simultaneous monochrome and RGB/YCbCr component sets are not supported in this baseline decoder",
            ),
        );
    }
    if has_rgb && has_ycbcr {
        return unsupported_feature(
            Detail::Plain(
                "simultaneous RGB and YCbCr component sets are not supported in this baseline decoder",
            ),
        );
    }
    if has_rgb && !has_full_rgb {
        return unsupported_feature(
            Detail::Plain("baseline uncompressed decoder requires full RGB channel sets (R/G/B)"),
        );
    }
    if has_ycbcr && !has_full_ycbcr {
        return unsupported_feature(
            Detail::Plain(
                "baseline uncompressed decoder requires full YCbCr channel sets (Y/Cb/Cr)",
            ),
        );
    }
    if !mono && !has_full_rgb && !has_full_ycbcr {
        return unsupported_feature(
            Detail::Plain(
                "baseline uncompressed decoder requires either monochrome, full RGB, or full YCbCr components",
            ),
        );
    }
    Ok(())
}

/// Whether an interleave type can carry shared chroma samples.
pub open spec fn carries_shared_chroma(interleave_type: u8) -> bool {
    interleave_type == UNCOMPRESSED_INTERLEAVE_COMPONENT || interleave_type
        == UNCOMPRESSED_INTERLEAVE_MIXED || interleave_type
        == UNCOMPRESSED_INTERLEAVE_TILE_COMPONENT || interleave_type
        == UNCOMPRESSED_INTERLEAVE_MULTI_Y
}

/// Whether there are `luma` luma components, one Cb and one Cr.
pub open spec fn component_counts(map: ChannelMap, luma: u8) -> bool {
    map.counts[UNCOMPRESSED_CHANNEL_LUMA as int] == luma
        && map.counts[UNCOMPRESSED_CHANNEL_CB as int] == 1
        && map.counts[UNCOMPRESSED_CHANNEL_CR as int] == 1
}

/// What is wrong with a frame whose chroma samples are shared, if anything.
pub open spec fn shared_chroma_error(
    properties: &UncompressedPrimaryItemProperties,
    layout: ComponentLayout,
    tile: UncompressedTileDecodeLayout,
    map: ChannelMap,
) -> Option<DecodeUncompressedError> {
    let sampling = Arg::Num(layout.sampling_type as i128);
    let (x, y) = shared_by(layout.sampling_type);
    let row_align = properties.unc_c.row_align_size;
    let tile_align = properties.unc_c.tile_align_size;
    if !full_ycbcr(map) {
        Some(
            unsupported(
                Detail::One(
                    "uncC sampling_type {} requires full YCbCr channels (Y/Cb/Cr) in this decoder path",
                    sampling,
                ),
            ),
        )
    } else if !carries_shared_chroma(layout.interleave_type) {
        Some(
            unsupported(
                Detail::One(
                    "uncC sampling_type {} currently supports only component/mixed/tile-component/multi-y interleave",
                    sampling,
                ),
            ),
        )
    } else if layout.interleave_type == UNCOMPRESSED_INTERLEAVE_MIXED && !component_counts(map, 1) {
        Some(
            unsupported(
                Detail::Plain(
                    "uncC mixed interleave currently requires one Y, one Cb, and one Cr component in decode order",
                ),
            ),
        )
    } else if layout.interleave_type == UNCOMPRESSED_INTERLEAVE_MULTI_Y && layout.sampling_type
        != UNCOMPRESSED_SAMPLING_422 {
        Some(
            unsupported(
                Detail::One(
                    "uncC multi-y interleave currently supports only sampling_type {} (4:2:2)",
                    Arg::Num(1),
                ),
            ),
        )
    } else if layout.interleave_type == UNCOMPRESSED_INTERLEAVE_MULTI_Y && !component_counts(
        map,
        2,
    ) {
        Some(
            unsupported(
                Detail::One(
                    "uncC multi-y interleave currently requires {} Y components plus one Cb and one Cr component",
                    Arg::Num(2),
                ),
            ),
        )
    } else if properties.width as int % x != 0 || properties.height as int % y != 0 {
        Some(
            invalid(
                Detail::Five(
                    "uncC sampling_type {} requires image extent {}x{} to be divisible by {}x{}",
                    sampling,
                    Arg::Num(properties.width as i128),
                    Arg::Num(properties.height as i128),
                    Arg::Num(x as i128),
                    Arg::Num(y as i128),
                ),
            ),
        )
    } else if tile.tile_width as int % x != 0 || tile.tile_height as int % y != 0 {
        Some(
            invalid(
                Detail::Five(
                    "uncC sampling_type {} requires tile extent {}x{} to be divisible by {}x{}",
                    sampling,
                    Arg::Num(tile.tile_width as i128),
                    Arg::Num(tile.tile_height as i128),
                    Arg::Num(x as i128),
                    Arg::Num(y as i128),
                ),
            ),
        )
    } else if row_align != 0 && row_align % 2 != 0 {
        Some(
            unsupported(
                Detail::One(
                    "uncC sampling_type {} requires even row_align_size when non-zero",
                    sampling,
                ),
            ),
        )
    } else if layout.sampling_type == UNCOMPRESSED_SAMPLING_422 && tile_align != 0 && tile_align % 2
        != 0 {
        Some(
            unsupported(
                Detail::Plain(
                    "uncC sampling_type 1 requires tile_align_size to be a multiple of 2 when non-zero",
                ),
            ),
        )
    } else if layout.sampling_type == UNCOMPRESSED_SAMPLING_420 && tile_align != 0 && tile_align % 4
        != 0 {
        Some(
            unsupported(
                Detail::Plain(
                    "uncC sampling_type 2 requires tile_align_size to be a multiple of 4 when non-zero",
                ),
            ),
        )
    } else {
        None
    }
}

/// Tells what is wrong with a frame whose chroma samples are shared.
fn check_shared_chroma(
    properties: &UncompressedPrimaryItemProperties,
    specs: &[UncompressedComponentDecodeSpec],
    sampling_type: u8,
    interleave_type: u8,
    tile: UncompressedTileDecodeLayout,
    map: &UncompressedChannelMap,
) -> (result: Result<(), DecodeUncompressedError>)
    requires
        sampling_type == UNCOMPRESSED_SAMPLING_422 || sampling_type == UNCOMPRESSED_SAMPLING_420,
    ensures
        match shared_chroma_error(
            properties,
            ComponentLayout { specs: specs@, sampling_type, interleave_type },
            tile,
            map@,
        ) {
            Some(e) => result == Err::<(), DecodeUncompressedError>(e),
            None => result is Ok,
        },
{
    let sampling: Arg = Arg::Num(sampling_type as i128);
    let x: u32 = 2;
    let y: u32 = if sampling_type == UNCOMPRESSED_SAMPLING_422 {
        1
    } else {
        2
    };
    let row_align: u32 = properties.unc_c.row_align_size;
    let tile_align: u32 = properties.unc_c.tile_align_size;
    if !(map.has_channel[UNCOMPRESSED_CHANNEL_LUMA] && map.has_channel[UNCOMPRESSED_CHANNEL_CB]
        && map.has_channel[UNCOMPRESSED_CHANNEL_CR]) {
        return unsupported_feature(
            Detail::One(
                "uncC sampling_type {} requires full YCbCr channels (Y/Cb/Cr) in this decoder path",
                sampling,
            ),
        );
    }
    if interleave_type != UNCOMPRESSED_INTERLEAVE_COMPONENT && interleave_type
        != UNCOMPRESSED_INTERLEAVE_MIXED && interleave_type
        != UNCOMPRESSED_INTERLEAVE_TILE_COMPONENT && interleave_type
        != UNCOMPRESSED_INTERLEAVE_MULTI_Y {
        return unsupported_feature(
            Detail::One(
                "uncC sampling_type {} currently supports only component/mixed/tile-component/multi-y interleave",
                sampling,
            ),
        );
    }
    let luma_count: u8 = map.channel_component_counts[UNCOMPRESSED_CHANNEL_LUMA];
    let single_chroma: bool = map.channel_component_counts[UNCOMPRESSED_CHANNEL_CB] == 1
        && map.channel_component_counts[UNCOMPRESSED_CHANNEL_CR] == 1;
    if interleave_type == UNCOMPRESSED_INTERLEAVE_MIXED && !(luma_count == 1 && single_chroma) {
        return unsupported_feature(
            Detail::Plain(
                "uncC mixed interleave currently requires one Y, one Cb, and one Cr component in decode order",
            ),
        );
    }
    if interleave_type == UNCOMPRESSED_INTERLEAVE_MULTI_Y {
        if sampling_type != UNCOMPRESSED_SAMPLING_422 {
            return unsupported_feature(
                Detail::One(
                    "uncC multi-y interleave currently supports only sampling_type {} (4:2:2)",
                    Arg::Num(1),
                ),
            );
        }
        if !(luma_count == 2 && single_chroma) {
            return unsupported_feature(
                Detail::One(
                    "uncC multi-y interleave currently requires {} Y components plus one Cb and one Cr component",
                    Arg::Num(2),
                ),
            );
        }
    }
    if properties.width % x != 0 || properties.height % y != 0 {
        return invalid_input(
            Detail::Five(
                "uncC sampling_type {} requires image extent {}x{} to be divisible by {}x{}",
                sampling,
                Arg::Num(properties.width as i128),
                Arg::Num(properties.height as i128),
                Arg::Num(x as i128),
                Arg::Num(y as i128),
            ),
        );
    }
    if tile.tile_width % x as usize != 0 || tile.tile_height % y as usize != 0 {
        return invalid_input(
            Detail::Five(
                "uncC sampling_type {} requires tile extent {}x{} to be divisible by {}x{}",
                sampling,
                Arg::Num(tile.tile_width as i128),
                Arg::Num(tile.tile_height as i128),
                Arg::Num(x as i128),
                Arg::Num(y as i128),
            ),
        );
    }
    if row_align != 0 && row_align % 2 != 0 {
        return unsupported_feature(
            Detail::One(
                "uncC sampling_type {} requires even row_align_size when non-zero",
                sampling,
            ),
        );
    }
    if sampling_type == UNCOMPRESSED_SAMPLING_422 && tile_align != 0 && tile_align % 2 != 0 {
        return unsupported_feature(
            Detail::Plain(
                "uncC sampling_type 1 requires tile_align_size to be a multiple of 2 when non-zero",
            ),
        );
    }
    if sampling_type == UNCOMPRESSED_SAMPLING_420 && tile_align != 0 && tile_align % 4 != 0 {
        return unsupported_feature(
            Detail::Plain(
                "uncC sampling_type 2 requires tile_align_size to be a multiple of 4 when non-zero",
            ),
        );
    }
    Ok(())
}

/// How a frame is decoded.
pub struct FramePlan {
    pub layout: ComponentLayout,
    pub tile: UncompressedTileDecodeLayout,
    pub map: ChannelMap,
}

/// How a frame is decoded, or why it cannot be.
pub open spec fn frame_plan(properties: &UncompressedPrimaryItemProperties) -> Result<
    FramePlan,
    DecodeUncompressedError,
> {
    match component_layout(properties) {
        Err(e) => Err(e),
        Ok(layout) => match header_error(layout, properties.unc_c) {
            Some(e) => Err(e),
            None => match tiling(properties) {
                Err(e) => Err(e),
                Ok(tile) => match channel_map(
                    layout.specs,
                    layout.interleave_type,
                    layout.specs.len(),
                ) {
                    Err(e) => Err(e),
                    Ok(map) => match channel_set_error(map) {
                        Some(e) => Err(e),
                        None => if layout.sampling_type == UNCOMPRESSED_SAMPLING_NO_SUBSAMPLING {
                            Ok(FramePlan { layout, tile, map })
                        } else {
                            match shared_chroma_error(properties, layout, tile, map) {
                                Some(e) => Err(e),
                                None => Ok(FramePlan { layout, tile, map }),
                            }
                        },
                    },
                },
            },
        },
    }
}

/// How a frame is decoded.
#[derive(Clone, Debug, PartialEq, Eq)]
pub struct UncompressedFramePlan {
    pub specs: Vec<UncompressedComponentDecodeSpec>,
    pub sampling_type: u8,
    pub interleave_type: u8,
    pub tile: UncompressedTileDecodeLayout,
    pub map: UncompressedChannelMap,
}

impl View for UncompressedFramePlan {
    type V = FramePlan;

    open spec fn view(&self) -> FramePlan {
        FramePlan {
            layout: ComponentLayout {
                specs: self.specs@,
                sampling_type: self.sampling_type,
                interleave_type: self.interleave_type,
            },
            tile: self.tile,
            map: self.map@,
        }
    }
}

/// Finds out how a frame is decoded.
pub fn plan_uncompressed_frame(properties: &UncompressedPrimaryItemProperties) -> (result: Result<
    UncompressedFramePlan,
    DecodeUncompressedError,
>)
    requires
        properties.wf(),
    ensures
        match frame_plan(properties) {
            Ok(plan) => result is Ok && result->Ok_0@ == plan && plan_wf(plan),
            Err(e) => result == Err::<UncompressedFramePlan, DecodeUncompressedError>(e),
        },
{
    let (specs, sampling_type, interleave_type) = uncompressed_component_layout_from_properties(
        properties,
    )?;
    check_header(specs.as_slice(), sampling_type, interleave_type, &properties.unc_c)?;
    let tile: UncompressedTileDecodeLayout = uncompressed_tiling_from_properties(properties)?;
    let map: UncompressedChannelMap = resolve_uncompressed_channel_map(
        specs.as_slice(),
        interleave_type,
    )?;
    check_channel_set(&map)?;
    if sampling_type != UNCOMPRESSED_SAMPLING_NO_SUBSAMPLING {
        check_shared_chroma(
            properties,
            specs.as_slice(),
            sampling_type,
            interleave_type,
            tile,
            &map,
        )?;
    }
    Ok(UncompressedFramePlan { specs, sampling_type, interleave_type, tile, map })
}

/// One tile, by the interleave type of the frame.
pub open spec fn tile_interleaved(
    data: Seq<u8>,
    plan: FramePlan,
    config: UncompressedFrameConfig,
    region: UncompressedDecodeTileRegion,
    state: StreamState,
) -> Step {
    let specs = plan.layout.specs;
    let interleave_type = plan.layout.interleave_type;
    if interleave_type == UNCOMPRESSED_INTERLEAVE_COMPONENT {
        component_interleaved(
            data,
            specs,
            region,
            UncompressedComponentDecodeParams {
                row_align_size: config.row_align_size,
                tile_align_size: config.tile_align_size,
                sampling_type: plan.layout.sampling_type,
                per_component_tile_alignment: false,
            },
            state,
        )
    } else if interleave_type == UNCOMPRESSED_INTERLEAVE_PIXEL {
        pixel_interleaved(data, specs, region, config.pixel_size, config.row_align_size, state)
    } else if interleave_type == UNCOMPRESSED_INTERLEAVE_MIXED {
        mixed_interleaved(data, specs, region, plan.layout.sampling_type, state)
    } else if interleave_type == UNCOMPRESSED_INTERLEAVE_ROW {
        row_interleaved(data, specs, region, config.row_align_size, state)
    } else {
        multi_y_interleaved(
            data,
            specs,
            region,
            config.pixel_size,
            config.row_align_size,
            plan.layout.sampling_type,
            state,
        )
    }
}

/// A tile of a row of tiles, with its alignment.
pub open spec fn frame_tile(
    data: Seq<u8>,
    plan: FramePlan,
    config: UncompressedFrameConfig,
    row: int,
) -> spec_fn(StreamState, int) -> Step {
    |state: StreamState, column: int|
        match tile_interleaved(
            data,
            plan,
            config,
            plan.tile.region(row, column),
            state.mark_tile(),
        ) {
            Err(e) => Err(e),
            Ok(next) => next.moved(next.at.tile_aligned(data, config.tile_align_size as int)),
        }
}

/// A row of tiles.
pub open spec fn frame_tile_row(
    data: Seq<u8>,
    plan: FramePlan,
    config: UncompressedFrameConfig,
) -> spec_fn(StreamState, int) -> Step {
    |state: StreamState, row: int|
        repeat(plan.tile.tile_cols as nat, frame_tile(data, plan, config, row), state)
}

/// Channels of zeros: those that the frame has.
pub open spec fn blank_channels(map: ChannelMap, pixels: int) -> Channels {
    Seq::new(
        8,
        |c: int|
            if map.present[c] {
                Some(Seq::new(pixels as nat, |i: int| 0u16))
            } else {
                None
            },
    )
}

/// The channels that a payload decodes to, or why it does not decode.
pub open spec fn frame_channels(
    data: Seq<u8>,
    plan: FramePlan,
    config: UncompressedFrameConfig,
) -> Result<Channels, DecodeUncompressedError> {
    let blank = blank_channels(plan.map, plan.tile.pixels());
    let decoded = if plan.layout.interleave_type == UNCOMPRESSED_INTERLEAVE_TILE_COMPONENT {
        tile_component_interleaved(
            data,
            plan.layout.specs,
            plan.tile,
            plan.layout.sampling_type,
            blank,
        )
    } else {
        repeat(
            plan.tile.tile_rows as nat,
            frame_tile_row(data, plan, config),
            StreamState { at: Position::start(), channels: blank },
        )
    };
    match decoded {
        Ok(state) => Ok(state.channels),
        Err(halt) => Err(halt.error),
    }
}

/// A plan that fits together: every component has its channel, and the tiles
/// can be counted.
pub open spec fn plan_wf(plan: FramePlan) -> bool {
    &&& plan.tile.wf()
    &&& plan.layout.interleave_type <= UNCOMPRESSED_INTERLEAVE_MULTI_Y
    &&& channel_map(plan.layout.specs, plan.layout.interleave_type, plan.layout.specs.len())
        == Ok::<ChannelMap, DecodeUncompressedError>(plan.map)
}

/// The pixels of a plan can be counted.
proof fn lemma_plan_pixels(plan: FramePlan)
    ensures
        plan.tile.pixels() >= 0,
{
    assert(0 <= plan.tile.rows()) by (nonlinear_arith)
        requires
            plan.tile.rows() == plan.tile.tile_rows * plan.tile.tile_height,
    ;
    assert(0 <= plan.tile.pixels()) by (nonlinear_arith)
        requires
            0 <= plan.tile.rows(),
            plan.tile.pixels() == plan.tile.rows() * plan.tile.image_width,
    ;
}

/// Makes channels of zeros.
fn make_blank_channels(map: &UncompressedChannelMap, pixels: usize) -> (buffers: [Option<
    Vec<u16>,
>; 8])
    ensures
        channels_of(buffers) == blank_channels(map@, pixels as int),
{
    let mut buffers: [Option<Vec<u16>>; 8] = [None, None, None, None, None, None, None, None];
    let mut c: usize = 0;
    while c < 8
        invariant
            c <= 8,
            forall|i: int|
                0 <= i < c ==> (match #[trigger] buffers@[i] {
                    Some(samples) => map.has_channel@[i] && samples@ == Seq::new(
                        pixels as nat,
                        |j: int| 0u16,
                    ),
                    None => !map.has_channel@[i],
                }),
            forall|i: int| c <= i < 8 ==> #[trigger] buffers@[i] is None,
        decreases 8 - c,
    {
        if map.has_channel[c] {
            let samples: Vec<u16> = vec![0u16; pixels];
            assert(samples@ =~= Seq::new(pixels as nat, |j: int| 0u16));
            buffers[c] = Some(samples);
        }
        c = c + 1;
    }
    assert(channels_of(buffers) =~= blank_channels(map@, pixels as int));
    buffers
}

/// The plan of a frame fits together, and its tiles cover the image.
pub proof fn lemma_plan(properties: &UncompressedPrimaryItemProperties)
    requires
        properties.wf(),
    ensures
        frame_plan(properties) matches Ok(plan) ==> plan_wf(plan) && plan.tile.pixels()
            == properties.width * properties.height,
{
    if frame_plan(properties) is Ok {
        let width = properties.width as int;
        let height = properties.height as int;
        let columns = properties.unc_c.num_tile_cols as int;
        let rows = properties.unc_c.num_tile_rows as int;
        vstd::arithmetic::div_mod::lemma_fundamental_div_mod(width, columns);
        vstd::arithmetic::div_mod::lemma_fundamental_div_mod(height, rows);
        vstd::arithmetic::div_mod::lemma_div_is_ordered_by_denominator(width, 1, columns);
        vstd::arithmetic::div_mod::lemma_div_is_ordered_by_denominator(height, 1, rows);
        vstd::arithmetic::mul::lemma_mul_is_commutative(width, height);
    }
}

/// Decodes one tile.
fn decode_frame_tile(
    reader: &mut UncompressedBitReader<'_>,
    plan: &UncompressedFramePlan,
    config: &UncompressedFrameConfig,
    region: UncompressedDecodeTileRegion,
    channel_samples: &mut [Option<Vec<u16>>; 8],
) -> (result: Result<(), DecodeUncompressedError>)
    requires
        old(reader).wf(),
        region.wf(),
    ensures
        final(reader).wf(),
        final(reader).bytes() == old(reader).bytes(),
        same_shape(channels_of(*old(channel_samples)), channels_of(*final(channel_samples))),
        match tile_interleaved(
            old(reader).bytes(),
            plan@,
            *config,
            region,
            state_of(*old(reader), *old(channel_samples)),
        ) {
            Ok(next) => result is Ok && state_of(*final(reader), *final(channel_samples)) == next,
            Err(halt) => {
                &&& result == Err::<(), DecodeUncompressedError>(halt.error)
                &&& state_of(*final(reader), *final(channel_samples)) == halt.left
            },
        },
{
    let specs: &[UncompressedComponentDecodeSpec] = plan.specs.as_slice();
    if plan.interleave_type == UNCOMPRESSED_INTERLEAVE_COMPONENT {
        decode_uncompressed_component_interleave(
            reader,
            specs,
            region,
            UncompressedComponentDecodeParams {
                row_align_size: config.row_align_size,
                tile_align_size: config.tile_align_size,
                sampling_type: plan.sampling_type,
                per_component_tile_alignment: false,
            },
            channel_samples,
        )
    } else if plan.interleave_type == UNCOMPRESSED_INTERLEAVE_PIXEL {
        decode_uncompressed_pixel_interleave(
            reader,
            specs,
            region,
            config.pixel_size,
            config.row_align_size,
            channel_samples,
        )
    } else if plan.interleave_type == UNCOMPRESSED_INTERLEAVE_MIXED {
        decode_uncompressed_mixed_interleave(
            reader,
            specs,
            region,
            plan.sampling_type,
            channel_samples,
        )
    } else if plan.interleave_type == UNCOMPRESSED_INTERLEAVE_ROW {
        decode_uncompressed_row_interleave(
            reader,
            specs,
            region,
            config.row_align_size,
            channel_samples,
        )
    } else {
        decode_uncompressed_multi_y_interleave(
            reader,
            specs,
            region,
            config.pixel_size,
            config.row_align_size,
            plan.sampling_type,
            channel_samples,
        )
    }
}

/// Decodes a row of tiles.
fn decode_frame_tile_row(
    reader: &mut UncompressedBitReader<'_>,
    plan: &UncompressedFramePlan,
    config: &UncompressedFrameConfig,
    row: usize,
    channel_samples: &mut [Option<Vec<u16>>; 8],
) -> (result: Result<(), DecodeUncompressedError>)
    requires
        old(reader).wf(),
        plan.tile.wf(),
        row < plan.tile.tile_rows,
    ensures
        final(reader).wf(),
        final(reader).bytes() == old(reader).bytes(),
        same_shape(channels_of(*old(channel_samples)), channels_of(*final(channel_samples))),
        match repeat(
            plan.tile.tile_cols as nat,
            frame_tile(old(reader).bytes(), plan@, *config, row as int),
            state_of(*old(reader), *old(channel_samples)),
        ) {
            Ok(next) => result is Ok && state_of(*final(reader), *final(channel_samples)) == next,
            Err(halt) => {
                &&& result == Err::<(), DecodeUncompressedError>(halt.error)
                &&& state_of(*final(reader), *final(channel_samples)) == halt.left
            },
        },
{
    let ghost data = reader.bytes();
    let ghost start = state_of(*reader, *channel_samples);
    let ghost step = frame_tile(data, plan@, *config, row as int);
    let columns: usize = plan.tile.tile_cols;
    let mut column: usize = 0;
    while column < columns
        invariant
            column <= columns,
            columns == plan.tile.tile_cols,
            row < plan.tile.tile_rows,
            plan.tile.wf(),
            reader.wf(),
            reader.bytes() == data,
            data == old(reader).bytes(),
            start == state_of(*old(reader), *old(channel_samples)),
            step == frame_tile(data, plan@, *config, row as int),
            same_shape(channels_of(*old(channel_samples)), channels_of(*channel_samples)),
            repeat(column as nat, step, start) == Ok::<StreamState, Halt>(
                state_of(*reader, *channel_samples),
            ),
        decreases columns - column,
    {
        let region: UncompressedDecodeTileRegion = plan.tile.tile_region(row, column);
        let ghost before = state_of(*reader, *channel_samples);
        reader.mark_tile_start();
        assert(state_of(*reader, *channel_samples) == before.mark_tile());
        assert(repeat((column + 1) as nat, step, start) == step(before, column as int));
        match decode_frame_tile(reader, plan, config, region, channel_samples) {
            Ok(()) => {},
            Err(e) => {
                proof {
                    lemma_repeat_error((column + 1) as nat, columns as nat, step, start);
                }
                return Err(e);
            },
        }
        let ghost between = state_of(*reader, *channel_samples);
        match reader.handle_tile_alignment(config.tile_align_size) {
            Ok(()) => {},
            Err(e) => {
                proof {
                    lemma_repeat_error((column + 1) as nat, columns as nat, step, start);
                }
                return Err(e);
            },
        }
        column = column + 1;
    }
    Ok(())
}

/// Decodes the payload of a frame into its channels.
pub fn decode_uncompressed_frame_channels(
    payload: &[u8],
    plan: &UncompressedFramePlan,
    config: &UncompressedFrameConfig,
) -> (result: Result<[Option<Vec<u16>>; 8], DecodeUncompressedError>)
    requires
        plan_wf(plan@),
    ensures
        match frame_channels(payload@, plan@, *config) {
            Ok(channels) => result is Ok && channels_of(result->Ok_0) == channels && same_shape(
                blank_channels(plan.map@, plan.tile.pixels()),
                channels,
            ),
            Err(e) => result == Err::<[Option<Vec<u16>>; 8], DecodeUncompressedError>(e),
        },
{
    proof {
        lemma_plan_pixels(plan@);
        vstd::arithmetic::mul::lemma_mul_is_associative(
            plan.tile.tile_rows as int,
            plan.tile.tile_height as int,
            plan.tile.image_width as int,
        );
    }
    let rows: usize = plan.tile.tile_rows * plan.tile.tile_height;
    let pixels: usize = rows * plan.tile.image_width;
    let mut channel_samples: [Option<Vec<u16>>; 8] = make_blank_channels(&plan.map, pixels);
    let ghost blank = blank_channels(plan.map@, plan.tile.pixels());
    if plan.interleave_type == UNCOMPRESSED_INTERLEAVE_TILE_COMPONENT {
        decode_uncompressed_tile_component_interleave(
            payload,
            plan.specs.as_slice(),
            plan.tile,
            plan.sampling_type,
            &mut channel_samples,
        )?;
        return Ok(channel_samples);
    }
    let mut reader: UncompressedBitReader<'_> = UncompressedBitReader::new(payload);
    let ghost data = reader.bytes();
    let ghost start = StreamState { at: Position::start(), channels: blank };
    let ghost step = frame_tile_row(data, plan@, *config);
    let tile_rows: usize = plan.tile.tile_rows;
    let mut row: usize = 0;
    while row < tile_rows
        invariant
            row <= tile_rows,
            tile_rows == plan.tile.tile_rows,
            plan.tile.wf(),
            reader.wf(),
            reader.bytes() == data,
            data == payload@,
            blank == blank_channels(plan.map@, plan.tile.pixels()),
            start == (StreamState { at: Position::start(), channels: blank }),
            step == frame_tile_row(data, plan@, *config),
            plan.interleave_type != UNCOMPRESSED_INTERLEAVE_TILE_COMPONENT,
            same_shape(blank, channels_of(channel_samples)),
            repeat(row as nat, step, start) == Ok::<StreamState, Halt>(
                state_of(reader, channel_samples),
            ),
        decreases tile_rows - row,
    {
        let ghost before = state_of(reader, channel_samples);
        assert(repeat((row + 1) as nat, step, start) == step(before, row as int));
        match decode_frame_tile_row(&mut reader, plan, config, row, &mut channel_samples) {
            Ok(()) => {},
            Err(e) => {
                proof {
                    lemma_repeat_error((row + 1) as nat, tile_rows as nat, step, start);
                }
                return Err(e);
            },
        }
        row = row + 1;
    }
    Ok(channel_samples)
}

} // verus!
