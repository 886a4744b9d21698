//! Where the samples of a tile go in the image.
#[allow(unused_imports)]
use crate::errors::DecodeUncompressedError;
use crate::laws::samples::{lemma_bits_of_byte, lemma_byte_painted};
#[allow(unused_imports)]
use crate::uncompressed::components::{
    component_layout, profile_layout, UncompressedChannelRole, UncompressedComponentDecodeSpec,
    UncompressedFrameConfig, UncompressedPrimaryItemProperties,
};
#[allow(unused_imports)]
use crate::uncompressed::frame::{shared_chroma_error, tile_interleaved, FramePlan};
#[allow(unused_imports)]
use crate::uncompressed::interleave::{
    component_column, component_interleaved, pixel_component, pixel_interleaved, row_interleaved,
    UncompressedComponentDecodeParams,
};
#[allow(unused_imports)]
use crate::uncompressed::mixed::{
    chroma_among, first_with_role, mixed_component, mixed_interleaved, other_chroma, pair_column,
    pair_row,
};
#[allow(unused_imports)]
use crate::uncompressed::multi_y::{
    complete_group, group_component, luma_among, multi_y_interleaved,
};
#[allow(unused_imports)]
use crate::uncompressed::reader::Position;
#[allow(unused_imports)]
use crate::uncompressed::stream::{repeat, StreamState, UncompressedDecodeTileRegion};
#[allow(unused_imports)]
use crate::uncompressed::tiles::{
    component_bases, component_places, sample_bits, tile_component_tile, tile_payload, tile_sizes,
    UncompressedTileDecodeLayout,
};
use vstd::prelude::*;

verus! {

/// A byte of a component goes to the pixels that share it: so many columns to
/// the right of where the tile begins, and so many rows below. The next byte
/// follows; no other pixel of the image changes.
pub proof fn lemma_byte_in_tile(
    data: Seq<u8>,
    spec: UncompressedComponentDecodeSpec,
    region: UncompressedDecodeTileRegion,
    shared: (int, int),
    row: int,
    column: int,
    state: StreamState,
    c: usize,
    start: int,
    height: int,
    x: int,
    y: int,
)
    requires
        spec.bit_depth == 8,
        spec.component_align_size == 0,
        spec.role.channel() == Some(c),
        c < state.channels.len(),
        state.channels[c as int] is Some,
        state.channels[c as int]->0.len() == region.image_width * height,
        1 <= shared.0,
        1 <= shared.1,
        0 <= column * shared.0,
        0 <= row * shared.1,
        region.origin_x + column * shared.0 + shared.0 <= region.image_width,
        region.origin_y + row * shared.1 + shared.1 <= height,
        8 * data.len() <= usize::MAX,
        state.at.bit == 8 * start,
        0 <= start < data.len(),
        0 <= x < region.image_width,
        0 <= y < height,
    ensures
        component_column(data, spec, region, shared, row)(state, column) matches Ok(next)
            && next.at.bit == 8 * (start + 1) && next.channels[c as int]->0[y * region.image_width
            + x] == (if region.origin_x + column * shared.0 <= x && x < region.origin_x + column
            * shared.0 + shared.0 && region.origin_y + row * shared.1 <= y && y < region.origin_y
            + row * shared.1 + shared.1 {
            data[start] as u16
        } else {
            state.channels[c as int]->0[y * region.image_width + x]
        }),
{
    lemma_bits_of_byte(data, start);
    let next = state.read(data, spec)->Ok_0.0;
    lemma_byte_painted(
        next,
        spec.role,
        c,
        region.image_width as int,
        height,
        (region.origin_x + column * shared.0, region.origin_y + row * shared.1, shared.0, shared.1),
        data[start] as u16,
        x,
        y,
    );
}

/// A byte of a pixel goes to that pixel of the tile, in the channel of its
/// component.
pub proof fn lemma_byte_of_pixel(
    data: Seq<u8>,
    specs: Seq<UncompressedComponentDecodeSpec>,
    region: UncompressedDecodeTileRegion,
    row: int,
    column: int,
    k: int,
    state: StreamState,
    c: usize,
    start: int,
    height: int,
)
    requires
        specs[k].bit_depth == 8,
        specs[k].component_align_size == 0,
        specs[k].role.channel() == Some(c),
        c < state.channels.len(),
        state.channels[c as int] is Some,
        state.channels[c as int]->0.len() == region.image_width * height,
        0 <= column,
        0 <= row,
        region.origin_x + column < region.image_width,
        region.origin_y + row < height,
        8 * data.len() <= usize::MAX,
        state.at.bit == 8 * start,
        0 <= start < data.len(),
    ensures
        pixel_component(data, specs, region, row, column)(state, k) matches Ok(next) && next.at.bit
            == 8 * (start + 1) && next.channels[c as int]->0[(region.origin_y + row)
            * region.image_width + (region.origin_x + column)] == data[start],
{
    lemma_bits_of_byte(data, start);
    let next = state.read(data, specs[k])->Ok_0.0;
    lemma_byte_painted(
        next,
        specs[k].role,
        c,
        region.image_width as int,
        height,
        (region.origin_x + column, region.origin_y + row, 1, 1),
        data[start] as u16,
        region.origin_x + column,
        region.origin_y + row,
    );
}

/// Two bytes of a pair go to the pixels that share them, in the tile where it
/// stands in the image: the first to the first component, the second to the
/// second.
pub proof fn lemma_pair_in_tile(
    data: Seq<u8>,
    specs: (UncompressedComponentDecodeSpec, UncompressedComponentDecodeSpec),
    region: UncompressedDecodeTileRegion,
    shared: (int, int),
    row: int,
    column: int,
    state: StreamState,
    channels: (usize, usize),
    start: int,
    height: int,
    x: int,
    y: int,
)
    requires
        specs.0.bit_depth == 8,
        specs.1.bit_depth == 8,
        specs.0.component_align_size == 0,
        specs.1.component_align_size == 0,
        specs.0.role.channel() == Some(channels.0),
        specs.1.role.channel() == Some(channels.1),
        channels.0 != channels.1,
        channels.0 < state.channels.len(),
        channels.1 < state.channels.len(),
        state.channels[channels.0 as int] is Some,
        state.channels[channels.1 as int] is Some,
        state.channels[channels.0 as int]->0.len() == region.image_width * height,
        state.channels[channels.1 as int]->0.len() == region.image_width * height,
        1 <= shared.0,
        1 <= shared.1,
        0 <= column * shared.0,
        0 <= row * shared.1,
        region.origin_x + column * shared.0 + shared.0 <= region.image_width,
        region.origin_y + row * shared.1 + shared.1 <= height,
        8 * data.len() <= usize::MAX,
        state.at.bit == 8 * start,
        0 <= start,
        start + 2 <= data.len(),
        region.origin_x + column * shared.0 <= x < region.origin_x + column * shared.0 + shared.0,
        region.origin_y + row * shared.1 <= y < region.origin_y + row * shared.1 + shared.1,
    ensures
        pair_column(data, specs.0, specs.1, region, shared, row)(state, column) matches Ok(next)
            && next.at.bit == 8 * (start + 2) && next.channels[channels.0 as int]->0[y
            * region.image_width + x] == data[start] && next.channels[channels.1 as int]->0[y
            * region.image_width + x] == data[start + 1],
{
    let w = region.image_width as int;
    let block = (
        region.origin_x + column * shared.0,
        region.origin_y + row * shared.1,
        shared.0,
        shared.1,
    );
    lemma_bits_of_byte(data, start);
    lemma_bits_of_byte(data, start + 1);
    let between = state.read(data, specs.0)->Ok_0.0;
    let next = between.read(data, specs.1)->Ok_0.0;
    lemma_byte_painted(next, specs.0.role, channels.0, w, height, block, data[start] as u16, x, y);
    let half = next.paint(
        specs.0.role,
        w,
        block.0,
        block.1,
        block.2,
        block.3,
        data[start] as u16,
    )->Ok_0;
    assert(half.channels[channels.1 as int] == next.channels[channels.1 as int]);
    lemma_byte_painted(
        half,
        specs.1.role,
        channels.1,
        w,
        height,
        block,
        data[start + 1] as u16,
        x,
        y,
    );
}

/// A byte of a group goes to its two pixels, in the tile where it stands in the
/// image: the first luma byte to the left pixel, the second to the right one,
/// a chroma byte to both.
pub proof fn lemma_group_in_tile(
    data: Seq<u8>,
    specs: Seq<UncompressedComponentDecodeSpec>,
    region: UncompressedDecodeTileRegion,
    row: int,
    column: int,
    k: int,
    state: StreamState,
    c: usize,
    start: int,
    height: int,
    right: bool,
)
    requires
        0 <= k < specs.len(),
        specs[k].bit_depth == 8,
        specs[k].component_align_size == 0,
        specs[k].role is Luma || specs[k].role is ChromaBlue || specs[k].role is ChromaRed,
        specs[k].role.channel() == Some(c),
        specs[k].role is Luma ==> luma_among(specs, k as nat) == (if right {
            1nat
        } else {
            0nat
        }),
        c < state.channels.len(),
        state.channels[c as int] is Some,
        state.channels[c as int]->0.len() == region.image_width * height,
        0 <= column,
        0 <= row,
        region.origin_x + 2 * column + 2 <= region.image_width,
        region.origin_y + row < height,
        8 * data.len() <= usize::MAX,
        state.at.bit == 8 * start,
        0 <= start < data.len(),
    ensures
        group_component(data, specs, region, row, column)(state, k) matches Ok(next) && next.at.bit
            == 8 * (start + 1) && next.channels[c as int]->0[(region.origin_y + row)
            * region.image_width + (region.origin_x + 2 * column + (if right {
            1int
        } else {
            0int
        }))] == data[start],
{
    lemma_bits_of_byte(data, start);
    let next = state.read(data, specs[k])->Ok_0.0;
    let x = region.origin_x + 2 * column;
    let y = region.origin_y + row;
    let at = if right {
        x + 1
    } else {
        x
    };
    let block = if specs[k].role is Luma {
        (at, y, 1int, 1int)
    } else {
        (x, y, 2int, 1int)
    };
    lemma_byte_painted(
        next,
        specs[k].role,
        c,
        region.image_width as int,
        height,
        block,
        data[start] as u16,
        at,
        y,
    );
}

/// A group is complete with two luma samples, one of Cb and one of Cr, in any
/// order; without one of these it is not.
pub proof fn lemma_groups_complete(specs: Seq<UncompressedComponentDecodeSpec>)
    requires
        specs.len() == 4,
    ensures
        specs[0].role is Luma && specs[1].role is ChromaBlue && specs[2].role is Luma
            && specs[3].role is ChromaRed ==> complete_group(specs),
        specs[0].role is ChromaBlue && specs[1].role is Luma && specs[2].role is ChromaRed
            && specs[3].role is Luma ==> complete_group(specs),
        complete_group(specs) ==> exists|i: int, j: int, u: int, v: int|
            0 <= i < j < 4 && 0 <= u < 4 && 0 <= v < 4 && (#[trigger] specs[i]).role is Luma && (
            #[trigger] specs[j]).role is Luma && (#[trigger] specs[u]).role is ChromaBlue && (
            #[trigger] specs[v]).role is ChromaRed,
{
    reveal_with_fuel(luma_among, 5);
    let cb = UncompressedChannelRole::ChromaBlue;
    let cr = UncompressedChannelRole::ChromaRed;
    assert(specs[0].role == cb || specs[0].role != cb);
    assert(specs[1].role == cb || specs[1].role != cb);
    assert(specs[3].role == cr || specs[3].role != cr);
    assert(specs[2].role == cr || specs[2].role != cr);
    if complete_group(specs) {
        let u = choose|u: int| 0 <= u < 4 && (#[trigger] specs[u]).role == cb;
        let v = choose|v: int| 0 <= v < 4 && (#[trigger] specs[v]).role == cr;
        let i = if specs[0].role is Luma {
            0int
        } else if specs[1].role is Luma {
            1int
        } else {
            2int
        };
        let j = if specs[3].role is Luma {
            3int
        } else if specs[2].role is Luma {
            2int
        } else {
            1int
        };
        assert(specs[i].role is Luma && specs[j].role is Luma && specs[u].role is ChromaBlue
            && specs[v].role is ChromaRed);
    }
}

/// In mixed order the first chroma component brings the other one with it,
/// sample by sample, and the other one is then passed over.
pub proof fn lemma_mixed_chroma(
    data: Seq<u8>,
    specs: Seq<UncompressedComponentDecodeSpec>,
    region: UncompressedDecodeTileRegion,
    state: StreamState,
)
    requires
        specs.len() == 3,
        specs[0].role is Luma,
        (specs[1].role is ChromaBlue && specs[2].role is ChromaRed) || (specs[1].role is ChromaRed
            && specs[2].role is ChromaBlue),
        region.width as int % 2 == 0,
        region.height as int % 2 == 0,
    ensures
        mixed_component(data, specs, region, 2)(state, 2) == Ok::<
            StreamState,
            crate::uncompressed::stream::Halt,
        >(state),
        mixed_component(data, specs, region, 2)(state, 1) == repeat(
            (region.height as int / 2) as nat,
            pair_row(data, specs[1], specs[2], region, (2, 2)),
            state,
        ),
        mixed_component(data, specs, region, 1)(state, 1) == repeat(
            region.height as nat,
            pair_row(data, specs[1], specs[2], region, (2, 1)),
            state,
        ),
        forall|role: UncompressedChannelRole|
            #![trigger other_chroma(role)]
            role is ChromaBlue || role is ChromaRed ==> other_chroma(role) != role && (other_chroma(
                role,
            ) is ChromaBlue || other_chroma(role) is ChromaRed),
{
    reveal_with_fuel(first_with_role, 4);
    assert(specs[1].role.is_chroma());
    assert(!chroma_among(specs, 1));
    assert(chroma_among(specs, 2));
    assert(region.height as int / 1 == region.height);
    assert(region.height as int % 1 == 0);
}

/// A tile is read in the order that the interleave type says: 0 component by
/// component, 1 pixel by pixel, 2 with chroma in pairs, 3 row by row, and 5 in
/// groups of two pixels.
pub proof fn lemma_orders(
    data: Seq<u8>,
    plan: FramePlan,
    config: UncompressedFrameConfig,
    region: UncompressedDecodeTileRegion,
    state: StreamState,
)
    ensures
        ({
            let specs = plan.layout.specs;
            let order = plan.layout.interleave_type;
            let sampling = plan.layout.sampling_type;
            let read = tile_interleaved(data, plan, config, region, state);
            &&& order == 0 ==> read == component_interleaved(
                data,
                specs,
                region,
                (UncompressedComponentDecodeParams {
                    row_align_size: config.row_align_size,
                    tile_align_size: config.tile_align_size,
                    sampling_type: sampling,
                    per_component_tile_alignment: false,
                }),
                state,
            )
            &&& order == 1 ==> read == pixel_interleaved(
                data,
                specs,
                region,
                config.pixel_size,
                config.row_align_size,
                state,
            )
            &&& order == 2 ==> read == mixed_interleaved(data, specs, region, sampling, state)
            &&& order == 3 ==> read == row_interleaved(
                data,
                specs,
                region,
                config.row_align_size,
                state,
            )
            &&& order == 5 ==> read == multi_y_interleaved(
                data,
                specs,
                region,
                config.pixel_size,
                config.row_align_size,
                sampling,
                state,
            )
        }),
{
}

/// In tile-component order the tile in a row and a column of tiles is read from
/// the part of each component that stands for it, counted row by row.
pub proof fn lemma_part_of_tile(
    payload: Seq<u8>,
    specs: Seq<UncompressedComponentDecodeSpec>,
    layout: UncompressedTileDecodeLayout,
    sampling_type: u8,
    sizes: Seq<usize>,
    bases: Seq<usize>,
    row: int,
    column: int,
    state: StreamState,
)
    ensures
        ({
            let part = tile_payload(
                payload,
                sizes,
                bases,
                row * layout.tile_cols + column,
                specs.len(),
            );
            let read = component_interleaved(
                part,
                specs,
                layout.region(row, column),
                (UncompressedComponentDecodeParams {
                    row_align_size: layout.row_align_size,
                    tile_align_size: layout.tile_align_size,
                    sampling_type,
                    per_component_tile_alignment: true,
                }),
                (StreamState { at: Position::start(), channels: state.channels }),
            );
            let step = tile_component_tile(
                payload,
                specs,
                layout,
                sampling_type,
                sizes,
                bases,
                row,
            )(state, column);
            match read {
                Err(halt) => step is Err,
                Ok(next) => step matches Ok(after) && after.channels == next.channels
                    && after.at.bit == 0,
            }
        }),
{
}

/// The payload of components in tiles has, for each of them, its tile size
/// times the number of tiles, and is refused where it is shorter.
pub proof fn lemma_places_of_components(
    payload: Seq<u8>,
    specs: Seq<UncompressedComponentDecodeSpec>,
    layout: UncompressedTileDecodeLayout,
    sampling_type: u8,
)
    ensures
        component_places(payload, specs, layout, sampling_type) matches Ok((sizes, bases)) ==> {
            &&& tile_sizes(specs, layout, sampling_type, specs.len()) == Ok::<
                Seq<usize>,
                DecodeUncompressedError,
            >(sizes)
            &&& component_bases(sizes, layout.tile_cols * layout.tile_rows, specs.len()) == Ok::<
                Seq<usize>,
                DecodeUncompressedError,
            >(bases)
            &&& bases.last() <= payload.len()
        },
{
    assert(layout.tile_rows * layout.tile_cols == layout.tile_cols * layout.tile_rows)
        by (nonlinear_arith);
}

/// A sample takes as many bits as it is deep, or, with an alignment, the fewest
/// whole bytes that hold it and are a multiple of the alignment.
pub proof fn lemma_bits_of_sample(spec: UncompressedComponentDecodeSpec, count: int)
    requires
        spec.bit_depth > 0,
        count >= 1,
    ensures
        spec.component_align_size == 0 ==> sample_bits(spec) == spec.bit_depth,
        spec.component_align_size > 0 ==> {
            let unit = 8 * spec.component_align_size;
            &&& spec.bit_depth <= sample_bits(spec)
            &&& unit * count >= spec.bit_depth ==> sample_bits(spec) <= unit * count
            &&& sample_bits(spec) % unit == 0
        },
{
    if spec.component_align_size > 0 {
        let a = spec.component_align_size as int;
        let n = (spec.bit_depth as int + 7) / 8;
        let up = crate::uncompressed::reader::align_up(n, a);
        crate::laws::samples::lemma_rounded_up(n, a);
        assert(up % a == 0 && n <= up < n + a);
        let q = up / a;
        vstd::arithmetic::div_mod::lemma_fundamental_div_mod(up, a);
        assert(8 * up == (8 * a) * q) by (nonlinear_arith)
            requires
                up == a * q,
        ;
        assert((8 * up) % (8 * a) == 0) by {
            vstd::arithmetic::div_mod::lemma_mod_multiples_basic(q, 8 * a);
            assert(q * (8 * a) == (8 * a) * q) by (nonlinear_arith);
        }
        if 8 * a * count >= spec.bit_depth {
            let whole = a * count;
            assert(8 * a * count == 8 * whole) by (nonlinear_arith)
                requires
                    whole == a * count,
            ;
            assert(whole >= n);
            assert(q <= count) by (nonlinear_arith)
                requires
                    a * q < n + a,
                    a * count >= n,
                    a > 0,
            ;
            assert(8 * up <= 8 * a * count) by (nonlinear_arith)
                requires
                    8 * up == (8 * a) * q,
                    q <= count,
                    a > 0,
            ;
        }
    }
}

/// A frame of version 1 has the layout of its profile. One of another version
/// has the components that it lists, and is refused without a list of types.
pub proof fn lemma_layout_of_version(properties: &UncompressedPrimaryItemProperties)
    ensures
        properties.unc_c.version == 1 ==> component_layout(properties) == profile_layout(
            properties.unc_c.profile,
        ),
        properties.unc_c.version != 1 && properties.component_types is None ==> component_layout(
            properties,
        ) is Err,
        properties.unc_c.version != 1 ==> (component_layout(properties) matches Ok(layout)
            ==> layout.sampling_type == properties.unc_c.sampling_type && layout.interleave_type
            == properties.unc_c.interleave_type && properties.component_types is Some
            && crate::uncompressed::components::mapped_components(
            properties.unc_c.components@,
            properties.component_types->0@,
            properties.unc_c.components@.len(),
        ) == Ok::<Seq<UncompressedComponentDecodeSpec>, DecodeUncompressedError>(layout.specs)),
{
}

/// Chroma that pixels share is accepted with luma, Cb and Cr, in the orders 0,
/// 2, 4 and 5, where the image and its tiles have whole pairs of columns, and in
/// 4:2:0 of rows, and where rows and tiles are aligned to whole pairs too. Pairs
/// take one luma component, groups two and 4:2:2.
pub proof fn lemma_shared_chroma_accepted(
    properties: &UncompressedPrimaryItemProperties,
    plan: FramePlan,
)
    requires
        plan.layout.sampling_type == 1 || plan.layout.sampling_type == 2,
    ensures
        ({
            let order = plan.layout.interleave_type;
            let two_rows = plan.layout.sampling_type == 2;
            let row_align = properties.unc_c.row_align_size;
            let tile_align = properties.unc_c.tile_align_size;
            let counts = plan.map.counts;
            shared_chroma_error(properties, plan.layout, plan.tile, plan.map) is None <==> {
                &&& plan.map.present[1] && plan.map.present[2] && plan.map.present[3]
                &&& order == 0 || order == 2 || order == 4 || order == 5
                &&& order == 2 ==> counts[1] == 1 && counts[2] == 1 && counts[3] == 1
                &&& order == 5 ==> !two_rows && counts[1] == 2 && counts[2] == 1 && counts[3] == 1
                &&& properties.width % 2 == 0
                &&& two_rows ==> properties.height % 2 == 0
                &&& plan.tile.tile_width % 2 == 0
                &&& two_rows ==> plan.tile.tile_height % 2 == 0
                &&& row_align % 2 == 0
                &&& !two_rows ==> tile_align % 2 == 0
                &&& two_rows ==> tile_align % 4 == 0
            }
        }),
{
    assert(properties.height as int % 1 == 0 && plan.tile.tile_height as int % 1 == 0);
}

} // verus!
