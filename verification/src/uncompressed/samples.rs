//! The samples of a decoded frame: each of them fits in the bit depth of its
//! channel, so that every pixel of a decoded frame can be had.
#[allow(unused_imports)]
use super::channel_map::{depth_in_range, lemma_channel_map_presence, lemma_output_depth};
#[allow(unused_imports)]
use super::channels::{decoded_frame, decoded_item, ChannelImage, UncompressedItemData};
#[allow(unused_imports)]
use super::components::{
    UncompressedComponentDecodeSpec, UncompressedFrameConfig, UncompressedPrimaryItemProperties,
};
#[allow(unused_imports)]
use super::compression::payload_unpacked;
#[allow(unused_imports)]
use super::frame::{
    blank_channels, frame_channels, frame_plan, frame_tile, frame_tile_row, lemma_plan, plan_wf,
    tile_interleaved, FramePlan,
};
#[allow(unused_imports)]
use super::interleave::{
    component_column, component_columns, component_interleaved, component_row, component_rows,
    pixel, pixel_component, pixel_interleaved, pixel_row, row_component, row_components,
    row_interleaved, tile_subsampling, UncompressedComponentDecodeParams,
};
#[allow(unused_imports)]
use super::mixed::{
    first_with_role, mixed_component, mixed_interleaved, mixed_row, other_chroma, pair_column,
    pair_row,
};
#[allow(unused_imports)]
use super::multi_y::{group, group_component, group_row, multi_y_interleaved};
#[allow(unused_imports)]
use super::reader::{bits_value, Position};
#[allow(unused_imports)]
use super::stream::{
    painted, repeat, same_shape, Channels, Step, StreamState,
    UncompressedDecodeTileRegion,
};
#[allow(unused_imports)]
use super::tiles::{
    tile_component_interleaved, tile_component_row, tile_component_tile, tile_payload,
    UncompressedTileDecodeLayout,
};
#[allow(unused_imports)]
use crate::errors::DecodeUncompressedError;
#[allow(unused_imports)]
use crate::scaling::max_sample;
#[allow(unused_imports)]
use vstd::arithmetic::power2::{lemma2_to64, lemma_pow2_pos, lemma_pow2_unfold, pow2};
use vstd::prelude::*;

verus! {

/// Channels of one shape whose samples fit in their bit depths.
pub open spec fn fitting(channels: Channels, blank: Channels, depths: Seq<u8>) -> bool {
    &&& channels.len() == 8
    &&& same_shape(blank, channels)
    &&& forall|c: int, i: int|
        0 <= c < 8 && channels[c] is Some && 0 <= i < channels[c]->0.len()
            ==> #[trigger] channels[c]->0[i] <= max_sample(depths[c] as int)
}

/// A component whose channel is there, with its bit depth.
pub open spec fn mapped(
    spec: UncompressedComponentDecodeSpec,
    blank: Channels,
    depths: Seq<u8>,
) -> bool {
    spec.role.channel() matches Some(c) ==> {
        &&& c < 8
        &&& blank[c as int] is Some
        &&& depths[c as int] == spec.bit_depth
        &&& spec.bit_depth <= 16
    }
}

/// Components whose channels are there, with their bit depths.
pub open spec fn all_mapped(
    specs: Seq<UncompressedComponentDecodeSpec>,
    blank: Channels,
    depths: Seq<u8>,
) -> bool {
    forall|k: int| 0 <= k < specs.len() ==> mapped(#[trigger] specs[k], blank, depths)
}

/// Whether a step leaves channels whose samples fit.
pub open spec fn step_fits(step: Step, blank: Channels, depths: Seq<u8>) -> bool {
    step matches Ok(next) ==> fitting(next.channels, blank, depths)
}

/// Whether the first steps leave samples fitting.
pub open spec fn keeps(
    step: spec_fn(StreamState, int) -> Step,
    count: int,
    blank: Channels,
    depths: Seq<u8>,
) -> bool {
    forall|state: StreamState, k: int|
        0 <= k < count && fitting(state.channels, blank, depths) ==> step_fits(
            #[trigger] step(state, k),
            blank,
            depths,
        )
}

/// Bits spell a number below the power of two of their count.
proof fn lemma_bits_value(data: Seq<u8>, pos: int, count: nat)
    ensures
        0 <= bits_value(data, pos, count) <= max_sample(count as int),
    decreases count,
{
    if count == 0 {
        lemma2_to64();
    } else {
        lemma_bits_value(data, pos, (count - 1) as nat);
        let place = pos + count - 1;
        let byte = data[place / 8];
        let shift = (7 - place % 8) as u8;
        assert((byte >> shift) & 1u8 <= 1u8) by (bit_vector);
        lemma_pow2_unfold(count);
    }
}

/// A painted sample that fits leaves the samples fitting.
proof fn lemma_painted_fits(
    channels: Channels,
    blank: Channels,
    depths: Seq<u8>,
    spec: UncompressedComponentDecodeSpec,
    width: int,
    x: int,
    y: int,
    columns: int,
    rows: int,
    sample: u16,
)
    requires
        fitting(channels, blank, depths),
        mapped(spec, blank, depths),
        sample <= max_sample(spec.bit_depth as int),
    ensures
        fitting(painted(channels, spec.role, width, x, y, columns, rows, sample), blank, depths),
{
    if let Some(channel) = spec.role.channel() {
        let p = channel as int;
        let after = painted(channels, spec.role, width, x, y, columns, rows, sample);
        assert(channels[p] is Some);
        assert forall|c: int| 0 <= c < 8 implies ((#[trigger] blank[c]) is Some <==> after[c] is Some)
            && (blank[c] is Some ==> blank[c]->0.len() == after[c]->0.len()) by {
            assert(blank[c] is Some <==> channels[c] is Some);
        }
        assert forall|c: int, i: int|
            0 <= c < 8 && after[c] is Some && 0 <= i < after[c]->0.len() implies
            #[trigger] after[c]->0[i] <= max_sample(depths[c] as int) by {
            assert(channels[c] is Some);
            assert(channels[c]->0[i] <= max_sample(depths[c] as int));
        }
    }
}

/// What a component reads fits in its bit depth.
proof fn lemma_read_fits(state: StreamState, data: Seq<u8>, spec: UncompressedComponentDecodeSpec)
    requires
        spec.bit_depth <= 16,
    ensures
        state.read(data, spec) matches Ok((next, value)) ==> next.channels == state.channels
            && value <= max_sample(spec.bit_depth as int),
{
    if let Ok((next, value)) = state.read(data, spec) {
        let start = super::stream::sample_start(state.at, data, spec)->Ok_0;
        lemma_bits_value(data, start.bit, spec.bit_depth as nat);
        lemma2_to64();
        if spec.bit_depth < 16 {
            vstd::arithmetic::power2::lemma_pow2_strictly_increases(spec.bit_depth as nat, 16);
        }
    }
}

/// Reading leaves the channels as they are.
proof fn lemma_read_channels(
    state: StreamState,
    data: Seq<u8>,
    spec: UncompressedComponentDecodeSpec,
)
    ensures
        state.read(data, spec) matches Ok((next, _)) ==> next.channels == state.channels,
{
}

/// A painted sample that fits leaves the samples fitting.
proof fn lemma_paint_fits(
    state: StreamState,
    spec: UncompressedComponentDecodeSpec,
    width: int,
    x: int,
    y: int,
    columns: int,
    rows: int,
    sample: u16,
    blank: Channels,
    depths: Seq<u8>,
)
    requires
        fitting(state.channels, blank, depths),
        mapped(spec, blank, depths),
        spec.role.channel() is Some ==> sample <= max_sample(spec.bit_depth as int),
    ensures
        step_fits(state.paint(spec.role, width, x, y, columns, rows, sample), blank, depths),
{
    if spec.role.channel() is Some {
        lemma_painted_fits(
            state.channels,
            blank,
            depths,
            spec,
            width,
            x,
            y,
            columns,
            rows,
            sample,
        );
    }
}

/// A sample leaves the samples fitting.
proof fn lemma_sample_fits(
    state: StreamState,
    data: Seq<u8>,
    spec: UncompressedComponentDecodeSpec,
    width: int,
    x: int,
    y: int,
    columns: int,
    rows: int,
    blank: Channels,
    depths: Seq<u8>,
)
    requires
        fitting(state.channels, blank, depths),
        mapped(spec, blank, depths),
    ensures
        step_fits(state.sample(data, spec, width, x, y, columns, rows), blank, depths),
{
    if let Ok((next, value)) = state.read(data, spec) {
        if spec.role.channel() is Some {
            lemma_read_fits(state, data, spec);
            lemma_painted_fits(
                next.channels,
                blank,
                depths,
                spec,
                width,
                x,
                y,
                columns,
                rows,
                value,
            );
        }
    }
}

/// Steps that leave samples fitting do so together.
proof fn lemma_repeat_fits(
    count: nat,
    step: spec_fn(StreamState, int) -> Step,
    from: StreamState,
    blank: Channels,
    depths: Seq<u8>,
)
    requires
        keeps(step, count as int, blank, depths),
        fitting(from.channels, blank, depths),
    ensures
        step_fits(repeat(count, step, from), blank, depths),
    decreases count,
{
    if count > 0 {
        lemma_repeat_fits((count - 1) as nat, step, from, blank, depths);
        if let Ok(state) = repeat((count - 1) as nat, step, from) {
            assert(step_fits(step(state, count - 1), blank, depths));
        }
    }
}

/// The samples of a row of a component.
proof fn lemma_columns_fit(
    data: Seq<u8>,
    spec: UncompressedComponentDecodeSpec,
    region: UncompressedDecodeTileRegion,
    shared: (int, int),
    row: int,
    state: StreamState,
    blank: Channels,
    depths: Seq<u8>,
)
    requires
        mapped(spec, blank, depths),
        fitting(state.channels, blank, depths),
    ensures
        step_fits(component_columns(data, spec, region, shared, row, state), blank, depths),
{
    let step = component_column(data, spec, region, shared, row);
    let count = (region.width as int / shared.0) as nat;
    assert forall|s: StreamState, k: int|
        0 <= k < count && fitting(s.channels, blank, depths) implies step_fits(
        #[trigger] step(s, k),
        blank,
        depths,
    ) by {
        lemma_sample_fits(
            s,
            data,
            spec,
            region.image_width as int,
            region.origin_x + k * shared.0,
            region.origin_y + row * shared.1,
            shared.0,
            shared.1,
            blank,
            depths,
        );
    }
    lemma_repeat_fits(count, step, state, blank, depths);
}

/// The rows of a component.
proof fn lemma_rows_fit(
    data: Seq<u8>,
    spec: UncompressedComponentDecodeSpec,
    region: UncompressedDecodeTileRegion,
    shared: (int, int),
    row_align_size: u32,
    count: nat,
    state: StreamState,
    blank: Channels,
    depths: Seq<u8>,
)
    requires
        mapped(spec, blank, depths),
        fitting(state.channels, blank, depths),
    ensures
        step_fits(
            repeat(count, component_row(data, spec, region, shared, row_align_size), state),
            blank,
            depths,
        ),
{
    let step = component_row(data, spec, region, shared, row_align_size);
    assert forall|s: StreamState, k: int|
        0 <= k < count && fitting(s.channels, blank, depths) implies step_fits(
        #[trigger] step(s, k),
        blank,
        depths,
    ) by {
        lemma_columns_fit(data, spec, region, shared, k, s.mark_row(), blank, depths);
    }
    lemma_repeat_fits(count, step, state, blank, depths);
}

/// A tile whose components come one after another.
proof fn lemma_component_interleaved_fits(
    data: Seq<u8>,
    specs: Seq<UncompressedComponentDecodeSpec>,
    region: UncompressedDecodeTileRegion,
    params: UncompressedComponentDecodeParams,
    state: StreamState,
    blank: Channels,
    depths: Seq<u8>,
)
    requires
        all_mapped(specs, blank, depths),
        fitting(state.channels, blank, depths),
    ensures
        step_fits(component_interleaved(data, specs, region, params, state), blank, depths),
{
    let step = component_rows(data, specs, region, params);
    assert forall|s: StreamState, k: int|
        0 <= k < specs.len() && fitting(s.channels, blank, depths) implies step_fits(
        #[trigger] step(s, k),
        blank,
        depths,
    ) by {
        let shares = tile_subsampling(
            specs[k].role,
            params.sampling_type,
            region.width as int,
            region.height as int,
        );
        if let Ok(shared) = shares {
            lemma_rows_fit(
                data,
                specs[k],
                region,
                shared,
                params.row_align_size,
                (region.height as int / shared.1) as nat,
                s,
                blank,
                depths,
            );
        }
    }
    lemma_repeat_fits(specs.len(), step, state, blank, depths);
}

/// A tile whose components come pixel by pixel.
proof fn lemma_pixel_interleaved_fits(
    data: Seq<u8>,
    specs: Seq<UncompressedComponentDecodeSpec>,
    region: UncompressedDecodeTileRegion,
    pixel_size: u32,
    row_align_size: u32,
    state: StreamState,
    blank: Channels,
    depths: Seq<u8>,
)
    requires
        all_mapped(specs, blank, depths),
        fitting(state.channels, blank, depths),
    ensures
        step_fits(
            pixel_interleaved(data, specs, region, pixel_size, row_align_size, state),
            blank,
            depths,
        ),
{
    let rows = pixel_row(data, specs, region, pixel_size, row_align_size);
    assert forall|s: StreamState, row: int|
        0 <= row < region.height && fitting(s.channels, blank, depths) implies step_fits(
        #[trigger] rows(s, row),
        blank,
        depths,
    ) by {
        let columns = pixel(data, specs, region, pixel_size, row);
        assert forall|t: StreamState, column: int|
            0 <= column < region.width && fitting(t.channels, blank, depths) implies step_fits(
            #[trigger] columns(t, column),
            blank,
            depths,
        ) by {
            let parts = pixel_component(data, specs, region, row, column);
            assert forall|u: StreamState, k: int|
                0 <= k < specs.len() && fitting(u.channels, blank, depths) implies step_fits(
                #[trigger] parts(u, k),
                blank,
                depths,
            ) by {
                lemma_sample_fits(
                    u,
                    data,
                    specs[k],
                    region.image_width as int,
                    region.origin_x + column,
                    region.origin_y + row,
                    1,
                    1,
                    blank,
                    depths,
                );
            }
            lemma_repeat_fits(specs.len(), parts, t.mark_pixel(), blank, depths);
        }
        lemma_repeat_fits(region.width as nat, columns, s.mark_row(), blank, depths);
    }
    lemma_repeat_fits(region.height as nat, rows, state, blank, depths);
}

/// A tile whose components come row by row.
proof fn lemma_row_interleaved_fits(
    data: Seq<u8>,
    specs: Seq<UncompressedComponentDecodeSpec>,
    region: UncompressedDecodeTileRegion,
    row_align_size: u32,
    state: StreamState,
    blank: Channels,
    depths: Seq<u8>,
)
    requires
        all_mapped(specs, blank, depths),
        fitting(state.channels, blank, depths),
    ensures
        step_fits(row_interleaved(data, specs, region, row_align_size, state), blank, depths),
{
    let rows = row_components(data, specs, region, row_align_size);
    assert forall|s: StreamState, row: int|
        0 <= row < region.height && fitting(s.channels, blank, depths) implies step_fits(
        #[trigger] rows(s, row),
        blank,
        depths,
    ) by {
        let parts = row_component(data, specs, region, row_align_size, row);
        assert forall|t: StreamState, k: int|
            0 <= k < specs.len() && fitting(t.channels, blank, depths) implies step_fits(
            #[trigger] parts(t, k),
            blank,
            depths,
        ) by {
            lemma_columns_fit(data, specs[k], region, (1, 1), row, t.mark_row(), blank, depths);
        }
        lemma_repeat_fits(specs.len(), parts, s, blank, depths);
    }
    lemma_repeat_fits(region.height as nat, rows, state, blank, depths);
}

/// A component that is among some is one of them.
proof fn lemma_first_with_role(
    specs: Seq<UncompressedComponentDecodeSpec>,
    role: super::components::UncompressedChannelRole,
    count: nat,
)
    ensures
        first_with_role(specs, role, count) matches Some(k) ==> 0 <= k < count,
    decreases count,
{
    if count > 0 {
        lemma_first_with_role(specs, role, (count - 1) as nat);
    }
}

/// The rows of two components whose samples alternate.
proof fn lemma_pairs_fit(
    data: Seq<u8>,
    first: UncompressedComponentDecodeSpec,
    second: UncompressedComponentDecodeSpec,
    region: UncompressedDecodeTileRegion,
    shared: (int, int),
    count: nat,
    state: StreamState,
    blank: Channels,
    depths: Seq<u8>,
)
    requires
        mapped(first, blank, depths),
        mapped(second, blank, depths),
        fitting(state.channels, blank, depths),
    ensures
        step_fits(
            repeat(count, pair_row(data, first, second, region, shared), state),
            blank,
            depths,
        ),
{
    let rows = pair_row(data, first, second, region, shared);
    assert forall|s: StreamState, row: int|
        0 <= row < count && fitting(s.channels, blank, depths) implies step_fits(
        #[trigger] rows(s, row),
        blank,
        depths,
    ) by {
        let columns = pair_column(data, first, second, region, shared, row);
        let wide = (region.width as int / shared.0) as nat;
        assert forall|t: StreamState, column: int|
            0 <= column < wide && fitting(t.channels, blank, depths) implies step_fits(
            #[trigger] columns(t, column),
            blank,
            depths,
        ) by {
            let w = region.image_width as int;
            let x = region.origin_x + column * shared.0;
            let y = region.origin_y + row * shared.1;
            let (wide, high) = shared;
            if let Ok((between, one)) = t.read(data, first) {
                lemma_read_channels(t, data, first);
                if first.role.channel() is Some {
                    lemma_read_fits(t, data, first);
                }
                if let Ok((next, other)) = between.read(data, second) {
                    lemma_read_channels(between, data, second);
                    if second.role.channel() is Some {
                        lemma_read_fits(between, data, second);
                    }
                    lemma_paint_fits(next, first, w, x, y, wide, high, one, blank, depths);
                    if let Ok(half) = next.paint(first.role, w, x, y, wide, high, one) {
                        lemma_paint_fits(half, second, w, x, y, wide, high, other, blank, depths);
                    }
                }
            }
        }
        lemma_repeat_fits(wide, columns, s, blank, depths);
    }
    lemma_repeat_fits(count, rows, state, blank, depths);
}

/// The rows of a component that stands for itself beside alternating ones.
proof fn lemma_mixed_rows_fit(
    data: Seq<u8>,
    spec: UncompressedComponentDecodeSpec,
    region: UncompressedDecodeTileRegion,
    shared: (int, int),
    count: nat,
    state: StreamState,
    blank: Channels,
    depths: Seq<u8>,
)
    requires
        mapped(spec, blank, depths),
        fitting(state.channels, blank, depths),
    ensures
        step_fits(repeat(count, mixed_row(data, spec, region, shared), state), blank, depths),
{
    let rows = mixed_row(data, spec, region, shared);
    assert forall|s: StreamState, row: int|
        0 <= row < count && fitting(s.channels, blank, depths) implies step_fits(
        #[trigger] rows(s, row),
        blank,
        depths,
    ) by {
        lemma_columns_fit(data, spec, region, shared, row, s, blank, depths);
    }
    lemma_repeat_fits(count, rows, state, blank, depths);
}

/// A tile whose chroma components alternate.
proof fn lemma_mixed_interleaved_fits(
    data: Seq<u8>,
    specs: Seq<UncompressedComponentDecodeSpec>,
    region: UncompressedDecodeTileRegion,
    sampling_type: u8,
    state: StreamState,
    blank: Channels,
    depths: Seq<u8>,
)
    requires
        all_mapped(specs, blank, depths),
        fitting(state.channels, blank, depths),
    ensures
        step_fits(mixed_interleaved(data, specs, region, sampling_type, state), blank, depths),
{
    let parts = mixed_component(data, specs, region, sampling_type);
    assert forall|s: StreamState, k: int|
        0 <= k < specs.len() && fitting(s.channels, blank, depths) implies step_fits(
        #[trigger] parts(s, k),
        blank,
        depths,
    ) by {
        let other = first_with_role(specs, other_chroma(specs[k].role), specs.len());
        lemma_first_with_role(specs, other_chroma(specs[k].role), specs.len());
        let shares = tile_subsampling(
            specs[k].role,
            sampling_type,
            region.width as int,
            region.height as int,
        );
        if let Ok(shared) = shares {
            let high = (region.height as int / shared.1) as nat;
            if let Some(second) = other {
                lemma_pairs_fit(
                    data,
                    specs[k],
                    specs[second],
                    region,
                    shared,
                    high,
                    s,
                    blank,
                    depths,
                );
            }
            lemma_mixed_rows_fit(data, specs[k], region, shared, high, s, blank, depths);
        }
    }
    lemma_repeat_fits(specs.len(), parts, state, blank, depths);
}

/// A tile whose luma samples come two at a time.
proof fn lemma_multi_y_interleaved_fits(
    data: Seq<u8>,
    specs: Seq<UncompressedComponentDecodeSpec>,
    region: UncompressedDecodeTileRegion,
    pixel_size: u32,
    row_align_size: u32,
    sampling_type: u8,
    state: StreamState,
    blank: Channels,
    depths: Seq<u8>,
)
    requires
        all_mapped(specs, blank, depths),
        fitting(state.channels, blank, depths),
    ensures
        step_fits(
            multi_y_interleaved(
                data,
                specs,
                region,
                pixel_size,
                row_align_size,
                sampling_type,
                state,
            ),
            blank,
            depths,
        ),
{
    let rows = group_row(data, specs, region, pixel_size, row_align_size);
    assert forall|s: StreamState, row: int|
        0 <= row < region.height && fitting(s.channels, blank, depths) implies step_fits(
        #[trigger] rows(s, row),
        blank,
        depths,
    ) by {
        let groups = group(data, specs, region, pixel_size, row);
        let wide = (region.width as int / 2) as nat;
        assert forall|t: StreamState, column: int|
            0 <= column < wide && fitting(t.channels, blank, depths) implies step_fits(
            #[trigger] groups(t, column),
            blank,
            depths,
        ) by {
            let parts = group_component(data, specs, region, row, column);
            assert forall|u: StreamState, k: int|
                0 <= k < specs.len() && fitting(u.channels, blank, depths) implies step_fits(
                #[trigger] parts(u, k),
                blank,
                depths,
            ) by {
                let spec = specs[k];
                let w = region.image_width as int;
                let x = region.origin_x + column * 2;
                let y = region.origin_y + row;
                let luma = super::multi_y::luma_among(specs, k as nat);
                assert(mapped(spec, blank, depths));
                if let Ok((next, value)) = u.read(data, spec) {
                    if spec.role.channel() is Some {
                        lemma_read_fits(u, data, spec);
                        lemma_painted_fits(
                            next.channels,
                            blank,
                            depths,
                            spec,
                            w,
                            x + luma,
                            y,
                            1,
                            1,
                            value,
                        );
                        lemma_painted_fits(
                            next.channels,
                            blank,
                            depths,
                            spec,
                            w,
                            x,
                            y,
                            2,
                            1,
                            value,
                        );
                    }
                }
            }
            lemma_repeat_fits(specs.len(), parts, t.mark_pixel(), blank, depths);
        }
        lemma_repeat_fits(wide, groups, s.mark_row(), blank, depths);
    }
    lemma_repeat_fits(region.height as nat, rows, state, blank, depths);
}

/// A tile.
proof fn lemma_tile_fits(
    data: Seq<u8>,
    plan: FramePlan,
    config: UncompressedFrameConfig,
    region: UncompressedDecodeTileRegion,
    state: StreamState,
    blank: Channels,
    depths: Seq<u8>,
)
    requires
        all_mapped(plan.layout.specs, blank, depths),
        fitting(state.channels, blank, depths),
    ensures
        step_fits(tile_interleaved(data, plan, config, region, state), blank, depths),
{
    let specs = plan.layout.specs;
    let sampling = plan.layout.sampling_type;
    let params = UncompressedComponentDecodeParams {
        row_align_size: config.row_align_size,
        tile_align_size: config.tile_align_size,
        sampling_type: sampling,
        per_component_tile_alignment: false,
    };
    lemma_component_interleaved_fits(data, specs, region, params, state, blank, depths);
    lemma_pixel_interleaved_fits(
        data,
        specs,
        region,
        config.pixel_size,
        config.row_align_size,
        state,
        blank,
        depths,
    );
    lemma_mixed_interleaved_fits(data, specs, region, sampling, state, blank, depths);
    lemma_row_interleaved_fits(data, specs, region, config.row_align_size, state, blank, depths);
    lemma_multi_y_interleaved_fits(
        data,
        specs,
        region,
        config.pixel_size,
        config.row_align_size,
        sampling,
        state,
        blank,
        depths,
    );
}

/// An image whose tiles come component by component.
proof fn lemma_tile_component_fits(
    payload: Seq<u8>,
    specs: Seq<UncompressedComponentDecodeSpec>,
    layout: UncompressedTileDecodeLayout,
    sampling_type: u8,
    blank: Channels,
    depths: Seq<u8>,
)
    requires
        all_mapped(specs, blank, depths),
        fitting(blank, blank, depths),
    ensures
        step_fits(
            tile_component_interleaved(payload, specs, layout, sampling_type, blank),
            blank,
            depths,
        ),
{
    let tile_count = layout.tile_rows * layout.tile_cols;
    if let Ok(sizes) = super::tiles::tile_sizes(specs, layout, sampling_type, specs.len()) {
        if let Ok(bases) = super::tiles::component_bases(sizes, tile_count, specs.len()) {
            let rows = tile_component_row(payload, specs, layout, sampling_type, sizes, bases);
            assert forall|s: StreamState, row: int|
                0 <= row < layout.tile_rows && fitting(s.channels, blank, depths) implies step_fits(
                #[trigger] rows(s, row),
                blank,
                depths,
            ) by {
                let columns = tile_component_tile(
                    payload,
                    specs,
                    layout,
                    sampling_type,
                    sizes,
                    bases,
                    row,
                );
                assert forall|t: StreamState, column: int|
                    0 <= column < layout.tile_cols && fitting(
                        t.channels,
                        blank,
                        depths,
                    ) implies step_fits(#[trigger] columns(t, column), blank, depths) by {
                    let index = row * layout.tile_cols + column;
                    lemma_component_interleaved_fits(
                        tile_payload(payload, sizes, bases, index, specs.len()),
                        specs,
                        layout.region(row, column),
                        UncompressedComponentDecodeParams {
                            row_align_size: layout.row_align_size,
                            tile_align_size: layout.tile_align_size,
                            sampling_type,
                            per_component_tile_alignment: true,
                        },
                        StreamState { at: Position::start(), ..t },
                        blank,
                        depths,
                    );
                }
                lemma_repeat_fits(layout.tile_cols as nat, columns, s, blank, depths);
            }
            lemma_repeat_fits(
                layout.tile_rows as nat,
                rows,
                StreamState { at: Position::start(), channels: blank },
                blank,
                depths,
            );
        }
    }
}

/// The channels that a payload decodes to are those of the frame, and each of
/// their samples fits in the bit depth of its channel.
pub proof fn lemma_samples_fit(data: Seq<u8>, plan: FramePlan, config: UncompressedFrameConfig)
    requires
        plan_wf(plan),
        forall|c: int| 0 <= c < 8 && plan.map.present[c] ==> #[trigger] plan.map.depths[c] <= 16,
    ensures
        frame_channels(data, plan, config) matches Ok(channels) ==> fitting(
            channels,
            blank_channels(plan.map, plan.tile.pixels()),
            plan.map.depths,
        ),
{
    let specs = plan.layout.specs;
    let blank = blank_channels(plan.map, plan.tile.pixels());
    let depths = plan.map.depths;
    lemma_channel_map_presence(specs, plan.layout.interleave_type, specs.len());
    assert forall|k: int| 0 <= k < specs.len() implies mapped(
        #[trigger] specs[k],
        blank,
        depths,
    ) by {
        if let Some(c) = specs[k].role.channel() {
            assert(plan.map.present[c as int]);
            assert(plan.map.depths[c as int] == specs[k].bit_depth);
        }
    }
    assert forall|c: int, i: int|
        0 <= c < 8 && blank[c] is Some && 0 <= i < blank[c]->0.len() implies
        #[trigger] blank[c]->0[i] <= max_sample(depths[c] as int) by {
        lemma_pow2_pos(depths[c] as nat);
    }
    lemma_tile_component_fits(
        data,
        specs,
        plan.tile,
        plan.layout.sampling_type,
        blank,
        depths,
    );
    let rows = frame_tile_row(data, plan, config);
    assert forall|s: StreamState, row: int|
        0 <= row < plan.tile.tile_rows && fitting(s.channels, blank, depths) implies step_fits(
        #[trigger] rows(s, row),
        blank,
        depths,
    ) by {
        let columns = frame_tile(data, plan, config, row);
        assert forall|t: StreamState, column: int|
            0 <= column < plan.tile.tile_cols && fitting(t.channels, blank, depths) implies
            step_fits(#[trigger] columns(t, column), blank, depths) by {
            lemma_tile_fits(
                data,
                plan,
                config,
                plan.tile.region(row, column),
                t.mark_tile(),
                blank,
                depths,
            );
        }
        lemma_repeat_fits(plan.tile.tile_cols as nat, columns, s, blank, depths);
    }
    lemma_repeat_fits(
        plan.tile.tile_rows as nat,
        rows,
        StreamState { at: Position::start(), channels: blank },
        blank,
        depths,
    );
}

/// Pixels that can be had leave none that cannot.
proof fn lemma_no_pixel_error(image: ChannelImage, count: nat)
    requires
        forall|pixel: int| 0 <= pixel < count ==> (#[trigger] image.pixel_error(pixel)) is None,
    ensures
        image.first_pixel_error(count) is None,
    decreases count,
{
    if count > 0 {
        lemma_no_pixel_error(image, (count - 1) as nat);
    }
}

/// Whether a channel has samples that fit in its bit depth.
pub open spec fn usable(image: ChannelImage, c: int) -> bool {
    &&& image.channels[c] is Some
    &&& depth_in_range(image.depths[c])
    &&& forall|pixel: int|
        0 <= pixel < image.pixels() ==> #[trigger] image.channels[c]->0[pixel] <= max_sample(
            image.depths[c] as int,
        )
}

/// A sample of a usable channel can be had.
proof fn lemma_usable_sample(image: ChannelImage, c: usize, pixel: int)
    requires
        c < 8,
        usable(image, c as int),
        depth_in_range(image.output_bit_depth),
        0 <= pixel < image.pixels(),
    ensures
        image.sample(c, pixel) is Ok,
{
    assert(image.channels[c as int]->0[pixel] <= max_sample(image.depths[c as int] as int));
}

/// Whether the channels that make up the colours and the opacity of an image
/// are usable.
pub open spec fn colours_usable(image: ChannelImage) -> bool {
    &&& depth_in_range(image.output_bit_depth)
    &&& image.present[7] ==> usable(image, 7)
    &&& if image.monochrome {
        usable(image, 0)
    } else if image.full_ycbcr {
        usable(image, 1) && usable(image, 2) && usable(image, 3) && image.converter is Some
    } else {
        usable(image, 4) && usable(image, 5) && usable(image, 6)
    }
}

/// A pixel of an image with usable channels can be had.
proof fn lemma_usable_pixel(image: ChannelImage, pixel: int)
    requires
        colours_usable(image),
        0 <= pixel < image.pixels(),
    ensures
        image.pixel_error(pixel) is None,
{
    if image.present[7] {
        lemma_usable_sample(image, 7, pixel);
    }
    if image.monochrome {
        lemma_usable_sample(image, 0, pixel);
    } else if image.full_ycbcr {
        lemma_usable_sample(image, 1, pixel);
        lemma_usable_sample(image, 2, pixel);
        lemma_usable_sample(image, 3, pixel);
    } else {
        lemma_usable_sample(image, 4, pixel);
        lemma_usable_sample(image, 5, pixel);
        lemma_usable_sample(image, 6, pixel);
    }
}

/// The channels of a decoded frame are usable.
proof fn lemma_frame_usable(
    properties: &UncompressedPrimaryItemProperties,
    plan: FramePlan,
    payload: Seq<u8>,
)
    requires
        properties.wf(),
        frame_plan(properties) == Ok::<FramePlan, DecodeUncompressedError>(plan),
    ensures
        decoded_frame(properties, plan, payload) matches Ok(image) ==> colours_usable(image),
{
    if let Ok(image) = decoded_frame(properties, plan, payload) {
        lemma_plan(properties);
        lemma_channel_map_presence(
            plan.layout.specs,
            plan.layout.interleave_type,
            plan.layout.specs.len(),
        );
        lemma_output_depth(plan.map.present, plan.map.depths);
        assert forall|c: int| 0 <= c < 8 && plan.map.present[c] implies #[trigger] plan.map.depths[c]
            <= 16 by {
            assert(depth_in_range(plan.map.depths[c]));
        }
        lemma_samples_fit(payload, plan, properties.unc_c);
        let blank = blank_channels(plan.map, plan.tile.pixels());
        assert forall|c: int| 0 <= c < 8 && plan.map.present[c] implies #[trigger] usable(
            image,
            c,
        ) by {
            assert(blank[c] is Some);
            assert(depth_in_range(plan.map.depths[c]));
            assert(image.channels[c]->0.len() == blank[c]->0.len());
        }
    }
}

/// A decoded item has pixels, and every one of them can be had: its channels
/// are complete, and their samples fit in their bit depths.
pub proof fn lemma_decoded_pixels(
    properties: &UncompressedPrimaryItemProperties,
    item: &UncompressedItemData,
)
    requires
        properties.wf(),
    ensures
        decoded_item(properties, item) matches Ok(image) ==> {
            &&& 0 < image.width
            &&& 0 < image.height
            &&& image.first_pixel_error(image.pixels() as nat) is None
            &&& 4 * image.pixels() <= usize::MAX ==> image.image_error() is None
        },
{
    if let Ok(image) = decoded_item(properties, item) {
        let plan = frame_plan(properties)->Ok_0;
        let payload = payload_unpacked(
            item.item_id,
            &item.generic_compression_properties,
            item.payload@,
        )->Ok_0;
        lemma_frame_usable(properties, plan, payload);
        assert forall|pixel: int| 0 <= pixel < image.pixels() implies (#[trigger] image.pixel_error(
            pixel,
        )) is None by {
            lemma_usable_pixel(image, pixel);
        }
        lemma_no_pixel_error(image, image.pixels() as nat);
    }
}

/// Whether the channels that are there make up one set of colours: grey alone,
/// luma with Cb and Cr, or red, green and blue.
pub open spec fn one_channel_set(present: Seq<bool>) -> bool {
    let grey = present[0];
    let ycbcr = (present[1], present[2], present[3]);
    let rgb = (present[4], present[5], present[6]);
    let none = (false, false, false);
    let all = (true, true, true);
    ||| grey && ycbcr == none && rgb == none
    ||| !grey && ycbcr == all && rgb == none
    ||| !grey && ycbcr == none && rgb == all
}

/// Whether the channels of an image are those of a decoded item: one set of
/// colours, a sample for every pixel of every channel that is there, each
/// within its bit depth, full opacity where there is no channel for it, a
/// conversion exactly for luma with Cb and Cr, and every pixel to be had.
pub open spec fn sound_channels(image: ChannelImage) -> bool {
    &&& image.present.len() == 8
    &&& image.channels.len() == 8
    &&& one_channel_set(image.present)
    &&& forall|c: int| 0 <= c < 8 ==> ((#[trigger] image.channels[c]) is Some <==> image.present[c])
    &&& forall|c: int|
        0 <= c < 8 && image.present[c] ==> {
            &&& depth_in_range(image.depths[c])
            &&& (#[trigger] image.channels[c])->0.len() == image.pixels()
        }
    &&& forall|c: int, i: int|
        0 <= c < 8 && image.present[c] && 0 <= i < image.pixels()
            ==> #[trigger] image.channels[c]->0[i] < pow2(image.depths[c] as nat)
    &&& depth_in_range(image.output_bit_depth)
    &&& image.alpha_default == pow2(image.output_bit_depth as nat) - 1
    &&& image.monochrome == image.present[0]
    &&& image.full_ycbcr == (image.present[1] && image.present[2] && image.present[3])
    &&& image.converter is Some <==> image.full_ycbcr
    &&& forall|pixel: int|
        0 <= pixel < image.pixels() ==> (#[trigger] image.pixel_error(pixel)) is None
}

/// What an uncompressed item decodes to has sound channels.
pub proof fn lemma_decoded_channels(
    properties: &UncompressedPrimaryItemProperties,
    item: &UncompressedItemData,
)
    requires
        properties.wf(),
    ensures
        decoded_item(properties, item) matches Ok(image) ==> sound_channels(image),
{
    if let Ok(image) = decoded_item(properties, item) {
        let plan = frame_plan(properties)->Ok_0;
        let payload = payload_unpacked(
            item.item_id,
            &item.generic_compression_properties,
            item.payload@,
        )->Ok_0;
        lemma_frame_usable(properties, plan, payload);
        lemma_plan(properties);
        lemma_channel_map_presence(
            plan.layout.specs,
            plan.layout.interleave_type,
            plan.layout.specs.len(),
        );
        lemma_output_depth(plan.map.present, plan.map.depths);
        assert forall|c: int| 0 <= c < 8 && plan.map.present[c] implies #[trigger] plan.map.depths[c]
            <= 16 by {
            assert(depth_in_range(plan.map.depths[c]));
        }
        lemma_samples_fit(payload, plan, properties.unc_c);
        let blank = blank_channels(plan.map, plan.tile.pixels());
        assert forall|c: int| 0 <= c < 8 implies ((#[trigger] image.channels[c]) is Some
            <==> image.present[c]) by {
            assert(blank[c] is Some <==> plan.map.present[c]);
        }
        assert forall|c: int| 0 <= c < 8 && image.present[c] implies {
            &&& depth_in_range(image.depths[c])
            &&& (#[trigger] image.channels[c])->0.len() == image.pixels()
        } by {
            assert(blank[c] is Some);
            assert(depth_in_range(plan.map.depths[c]));
        }
        assert forall|c: int, i: int|
            0 <= c < 8 && image.present[c] && 0 <= i < image.pixels() implies
            #[trigger] image.channels[c]->0[i] < pow2(image.depths[c] as nat) by {
            assert(image.channels[c]->0[i] <= max_sample(image.depths[c] as int));
        }
        lemma2_to64();
        if image.output_bit_depth < 16 {
            vstd::arithmetic::power2::lemma_pow2_strictly_increases(
                image.output_bit_depth as nat,
                16,
            );
        }
        lemma_pow2_pos(image.output_bit_depth as nat);
        assert forall|pixel: int| 0 <= pixel < image.pixels() implies (#[trigger] image.pixel_error(
            pixel,
        )) is None by {
            lemma_usable_pixel(image, pixel);
        }
    }
}

} // verus!
