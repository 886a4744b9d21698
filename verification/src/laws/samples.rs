//! Where the samples of an uncompressed image stand in its payload.
use crate::laws::places::lemma_row_major;
#[allow(unused_imports)]
use crate::uncompressed::components::{
    UncompressedChannelRole, UncompressedComponentDecodeSpec,
};
#[allow(unused_imports)]
use crate::uncompressed::interleave::{
    component_column, component_interleaved, component_row, component_rows, pixel, pixel_component,
    pixel_interleaved, pixel_row, row_component, row_components, row_interleaved,
    UncompressedComponentDecodeParams,
};
#[allow(unused_imports)]
use crate::uncompressed::mixed::pair_column;
#[allow(unused_imports)]
use crate::uncompressed::multi_y::{group_component, luma_among};
#[allow(unused_imports)]
use crate::uncompressed::reader::{align_up, bit_at, bits_value, Position};
#[allow(unused_imports)]
use crate::uncompressed::stream::{
    in_block, painted_samples, repeat, Channels, Halt, Step, StreamState,
    UncompressedDecodeTileRegion,
};
use vstd::arithmetic::power2::{lemma2_to64, lemma_pow2_adds, pow2};
use vstd::prelude::*;

verus! {

/// The bits of a byte are its digits, the first of which counts most.
pub proof fn lemma_bits_of_byte(data: Seq<u8>, index: int)
    requires
        0 <= index,
    ensures
        bits_value(data, 8 * index, 8) == data[index],
{
    let b = data[index];
    reveal_with_fuel(bits_value, 9);
    assert((8 * index) / 8 == index && (8 * index + 1) / 8 == index && (8 * index + 2) / 8 == index
        && (8 * index + 3) / 8 == index && (8 * index + 4) / 8 == index && (8 * index + 5) / 8
        == index && (8 * index + 6) / 8 == index && (8 * index + 7) / 8 == index);
    assert((8 * index) % 8 == 0 && (8 * index + 1) % 8 == 1 && (8 * index + 2) % 8 == 2 && (8
        * index + 3) % 8 == 3 && (8 * index + 4) % 8 == 4 && (8 * index + 5) % 8 == 5 && (8 * index
        + 6) % 8 == 6 && (8 * index + 7) % 8 == 7);
    assert(128 * ((b >> 7u8) & 1u8) + 64 * ((b >> 6u8) & 1u8) + 32 * ((b >> 5u8) & 1u8) + 16 * ((b
        >> 4u8) & 1u8) + 8 * ((b >> 3u8) & 1u8) + 4 * ((b >> 2u8) & 1u8) + 2 * ((b >> 1u8) & 1u8)
        + ((b >> 0u8) & 1u8) == b) by (bit_vector);
}

/// Bits that follow each other spell a number as digits do: those in front
/// count so many times more as those behind can spell numbers.
pub proof fn lemma_bits_follow(data: Seq<u8>, pos: int, front: nat, back: nat)
    ensures
        bits_value(data, pos, front + back) == bits_value(data, pos, front) * pow2(back)
            + bits_value(data, pos + front, back),
        0 <= bits_value(data, pos, back) < pow2(back),
    decreases back,
{
    lemma2_to64();
    if back > 0 {
        let less = (back - 1) as nat;
        lemma_bits_follow(data, pos, front, less);
        lemma_pow2_adds(1, less);
        assert(bits_value(data, pos, front) * (2 * pow2(less)) == 2 * (bits_value(data, pos, front)
            * pow2(less))) by (nonlinear_arith);
        lemma_bit(data, pos + back - 1);
    }
}

/// A bit is zero or one.
proof fn lemma_bit(data: Seq<u8>, pos: int)
    ensures
        0 <= bit_at(data, pos) <= 1,
{
    let b = data[pos / 8];
    let shift = (7 - pos % 8) as u8;
    assert((b >> shift) & 1u8 <= 1u8) by (bit_vector);
}

/// Samples of eight bits at the beginning of a byte are that byte, and those
/// of sixteen bits are two bytes, the first of which counts most.
pub proof fn lemma_whole_bytes(data: Seq<u8>, index: int)
    requires
        0 <= index,
    ensures
        bits_value(data, 8 * index, 8) == data[index],
        bits_value(data, 8 * index, 16) == 256 * data[index] + data[index + 1],
{
    lemma_bits_of_byte(data, index);
    lemma_bits_of_byte(data, index + 1);
    lemma_bits_follow(data, 8 * index, 8, 8);
    lemma2_to64();
}

/// Rounding up gives the smallest multiple that is not smaller.
pub proof fn lemma_rounded_up(value: int, alignment: int)
    requires
        0 <= value,
        0 <= alignment,
    ensures
        alignment > 0 ==> align_up(value, alignment) % alignment == 0 && value <= align_up(
            value,
            alignment,
        ) < value + alignment,
        alignment == 0 ==> align_up(value, alignment) == value,
{
    if alignment > 0 && value % alignment != 0 {
        vstd::arithmetic::div_mod::lemma_fundamental_div_mod(value, alignment);
        let up = value / alignment + 1;
        assert(value + (alignment - value % alignment) == up * alignment) by (nonlinear_arith)
            requires
                value == alignment * (value / alignment) + value % alignment,
                up == value / alignment + 1,
        ;
        vstd::arithmetic::div_mod::lemma_mod_multiples_basic(up, alignment);
    }
}

/// A sample without alignment stands where the one before it ends. A sample
/// with alignment fills so many bytes, from the next whole byte on, and its
/// bits are the last of them.
pub proof fn lemma_sample_bits(
    state: StreamState,
    data: Seq<u8>,
    spec: UncompressedComponentDecodeSpec,
)
    requires
        1 <= spec.bit_depth <= 16,
        0 <= state.at.bit,
        8 * data.len() <= usize::MAX,
    ensures
        ({
            let depth = spec.bit_depth as int;
            let bytes = spec.component_align_size as int;
            let edge = align_up(state.at.bit, 8);
            &&& bytes == 0 && state.at.bit + depth <= 8 * data.len() ==> (state.read(
                data,
                spec,
            ) matches Ok((next, value)) && next.at.bit == state.at.bit + depth && next.channels
                == state.channels && value == bits_value(data, state.at.bit, depth as nat))
            &&& bytes > 0 && 8 * bytes >= depth && edge + 8 * bytes <= 8 * data.len() ==> (
            state.read(data, spec) matches Ok((next, value)) && next.at.bit == edge + 8 * bytes
                && next.channels == state.channels && value == bits_value(
                data,
                edge + 8 * bytes - depth,
                depth as nat,
            ))
            &&& bytes > 0 && 8 * bytes < depth ==> state.read(data, spec) is Err
            &&& bytes == 0 && state.at.bit + depth > 8 * data.len() ==> state.read(data, spec)
                is Err
        }),
{
    lemma_rounded_up(state.at.bit, 8);
    lemma_bits_follow(data, state.at.bit, 0, spec.bit_depth as nat);
    lemma_bits_follow(
        data,
        align_up(state.at.bit, 8) + 8 * spec.component_align_size - spec.bit_depth,
        0,
        spec.bit_depth as nat,
    );
    lemma2_to64();
    if spec.bit_depth < 16 {
        vstd::arithmetic::power2::lemma_pow2_strictly_increases(spec.bit_depth as nat, 16);
    }
}

/// One byte becomes one sample, for every pixel of a block.
proof fn lemma_byte_sample(
    state: StreamState,
    data: Seq<u8>,
    spec: UncompressedComponentDecodeSpec,
    c: usize,
    b: int,
    width: int,
    block: (int, int, int, int),
)
    requires
        spec.bit_depth == 8,
        spec.component_align_size == 0,
        spec.role.channel() == Some(c),
        8 * data.len() <= usize::MAX,
        state.at.bit == 8 * b,
        0 <= b < data.len(),
        c < state.channels.len(),
        state.channels[c as int] is Some,
        (block.1 + block.3 - 1) * width + (block.0 + block.2 - 1)
            < state.channels[c as int]->0.len(),
    ensures
        state.sample(data, spec, width, block.0, block.1, block.2, block.3) == Ok::<
            StreamState,
            Halt,
        >(
            StreamState {
                at: Position { bit: 8 * (b + 1), ..state.at },
                channels: state.channels.update(
                    c as int,
                    Some(
                        painted_samples(
                            state.channels[c as int]->0,
                            width,
                            block.0,
                            block.1,
                            block.2,
                            block.3,
                            data[b] as u16,
                        ),
                    ),
                ),
            },
        ),
{
    lemma_bits_of_byte(data, b);
}

/// A block of one or two columns, and the columns that share it.
proof fn lemma_shared_place(place: int, shared: int, index: int)
    requires
        1 <= shared <= 2,
        0 <= place,
    ensures
        index * shared <= place < index * shared + shared <==> place / shared == index,
        0 <= place / shared <= place,
{
    vstd::arithmetic::div_mod::lemma_fundamental_div_mod(place, shared);
    let quotient = place / shared;
    let rest = place % shared;
    assert(index * shared <= place < index * shared + shared <==> quotient == index)
        by (nonlinear_arith)
        requires
            place == shared * quotient + rest,
            0 <= rest < shared,
    ;
    assert(0 <= quotient <= place) by (nonlinear_arith)
        requires
            place == shared * quotient + rest,
            0 <= rest < shared,
            0 <= place,
            1 <= shared,
    ;
}

/// Whether a channel holds a byte of the payload for every pixel of the first
/// columns of a row of blocks.
spec fn row_filled(
    before: Seq<u16>,
    after: Seq<u16>,
    data: Seq<u8>,
    start: int,
    width: int,
    shared: (int, int),
    row: int,
    columns: int,
) -> bool {
    &&& after.len() == before.len()
    &&& forall|p: int|
        0 <= p < after.len() ==> #[trigger] after[p] == if (p / width) / shared.1 == row && (p
            % width) / shared.0 < columns {
            data[start + (p % width) / shared.0] as u16
        } else {
            before[p]
        }
}

/// One row of a component: byte after byte, each for one column of blocks.
proof fn lemma_component_columns(
    data: Seq<u8>,
    spec: UncompressedComponentDecodeSpec,
    region: UncompressedDecodeTileRegion,
    shared: (int, int),
    row: int,
    state: StreamState,
    c: usize,
    start: int,
    columns: nat,
)
    requires
        spec.bit_depth == 8,
        spec.component_align_size == 0,
        spec.role.channel() == Some(c),
        8 * data.len() <= usize::MAX,
        region.origin_x == 0,
        region.origin_y == 0,
        region.width == region.image_width,
        region.width > 0,
        1 <= shared.0 <= 2,
        1 <= shared.1 <= 2,
        columns * shared.0 <= region.width,
        0 <= row,
        row * shared.1 + shared.1 <= region.height,
        state.at.bit == 8 * start,
        0 <= start,
        start + columns <= data.len(),
        c < state.channels.len(),
        state.channels[c as int] is Some,
        state.channels[c as int]->0.len() == region.width * region.height,
    ensures
        repeat(columns, component_column(data, spec, region, shared, row), state) matches Ok(next)
            && next.at.bit == 8 * (start + columns) && next.channels.len() == state.channels.len()
            && (forall|d: int|
            0 <= d < state.channels.len() && d != c ==> #[trigger] next.channels[d]
                == state.channels[d]) && next.channels[c as int] is Some && row_filled(
            state.channels[c as int]->0,
            next.channels[c as int]->0,
            data,
            start,
            region.width as int,
            shared,
            row,
            columns as int,
        ),
    decreases columns,
{
    let step = component_column(data, spec, region, shared, row);
    let width = region.width as int;
    let before = state.channels[c as int]->0;
    if columns == 0 {
        assert forall|p: int| 0 <= p < before.len() implies #[trigger] before[p] == if (p / width)
            / shared.1 == row && (p % width) / shared.0 < 0 {
            data[start + (p % width) / shared.0] as u16
        } else {
            before[p]
        } by {
            lemma_shared_place(p % width, shared.0, 0);
        }
    } else {
        let fewer = (columns - 1) as nat;
        assert(fewer * shared.0 + shared.0 == columns * shared.0) by (nonlinear_arith)
            requires
                fewer == columns - 1,
        ;
        lemma_component_columns(data, spec, region, shared, row, state, c, start, fewer);
        let middle = repeat(fewer, step, state)->Ok_0;
        let x = fewer * shared.0;
        let y = row * shared.1;
        let h = region.height as int;
        let last = (y + shared.1 - 1) * width + (x + shared.0 - 1);
        assert(last < width * h) by (nonlinear_arith)
            requires
                last == (y + shared.1 - 1) * width + (x + shared.0 - 1),
                y + shared.1 <= h,
                x + shared.0 <= width,
                width > 0,
        ;
        lemma_byte_sample(
            middle,
            data,
            spec,
            c,
            start + fewer,
            width,
            (x, y, shared.0, shared.1),
        );
        let next = step(middle, fewer as int)->Ok_0;
        let (half, after) = (middle.channels[c as int]->0, next.channels[c as int]->0);
        assert(after == painted_samples(
            half,
            width,
            x,
            y,
            shared.0,
            shared.1,
            data[start + fewer] as u16,
        ));
        assert forall|p: int| 0 <= p < after.len() implies #[trigger] after[p] == if (p / width)
            / shared.1 == row && (p % width) / shared.0 < columns {
            data[start + (p % width) / shared.0] as u16
        } else {
            before[p]
        } by {
            vstd::arithmetic::div_mod::lemma_div_pos_is_pos(p, width);
            lemma_shared_place(p % width, shared.0, fewer as int);
            lemma_shared_place(p / width, shared.1, row);
            assert(half[p] == if (p / width) / shared.1 == row && (p % width) / shared.0 < fewer {
                data[start + (p % width) / shared.0] as u16
            } else {
                before[p]
            });
        }
    }
}

/// Whether a channel holds a byte of the payload for every pixel of the first
/// rows of blocks.
spec fn rows_filled(
    before: Seq<u16>,
    after: Seq<u16>,
    data: Seq<u8>,
    start: int,
    width: int,
    shared: (int, int),
    rows: int,
) -> bool {
    &&& after.len() == before.len()
    &&& forall|p: int|
        0 <= p < after.len() ==> #[trigger] after[p] == if (p / width) / shared.1 < rows {
            data[start + ((p / width) / shared.1) * (width / shared.0) + (p % width) / shared.0] as u16
        } else {
            before[p]
        }
}

/// The rows of a component, one after the other.
proof fn lemma_component_rows(
    data: Seq<u8>,
    spec: UncompressedComponentDecodeSpec,
    region: UncompressedDecodeTileRegion,
    shared: (int, int),
    state: StreamState,
    c: usize,
    start: int,
    rows: nat,
)
    requires
        spec.bit_depth == 8,
        spec.component_align_size == 0,
        spec.role.channel() == Some(c),
        8 * data.len() <= usize::MAX,
        region.origin_x == 0,
        region.origin_y == 0,
        region.width == region.image_width,
        region.width > 0,
        1 <= shared.0 <= 2,
        1 <= shared.1 <= 2,
        region.width as int % shared.0 == 0,
        rows * shared.1 <= region.height,
        state.at.bit == 8 * start,
        0 <= start,
        start + rows * (region.width as int / shared.0) <= data.len(),
        c < state.channels.len(),
        state.channels[c as int] is Some,
        state.channels[c as int]->0.len() == region.width * region.height,
    ensures
        repeat(rows, component_row(data, spec, region, shared, 0), state) matches Ok(next)
            && next.at.bit == 8 * (start + rows * (region.width as int / shared.0))
            && next.channels.len() == state.channels.len() && (forall|d: int|
            0 <= d < state.channels.len() && d != c ==> #[trigger] next.channels[d]
                == state.channels[d]) && next.channels[c as int] is Some && rows_filled(
            state.channels[c as int]->0,
            next.channels[c as int]->0,
            data,
            start,
            region.width as int,
            shared,
            rows as int,
        ),
    decreases rows,
{
    let step = component_row(data, spec, region, shared, 0);
    let width = region.width as int;
    let columns = width / shared.0;
    let before = state.channels[c as int]->0;
    assert(columns * shared.0 == width && columns >= 0) by {
        vstd::arithmetic::div_mod::lemma_fundamental_div_mod(width, shared.0);
        vstd::arithmetic::mul::lemma_mul_is_commutative(shared.0, columns);
        vstd::arithmetic::div_mod::lemma_div_pos_is_pos(width, shared.0);
    }
    if rows == 0 {
        assert forall|p: int| 0 <= p < before.len() implies #[trigger] before[p] == if (p / width)
            / shared.1 < 0 {
            data[start + ((p / width) / shared.1) * (width / shared.0) + (p % width) / shared.0] as u16
        } else {
            before[p]
        } by {
            vstd::arithmetic::div_mod::lemma_div_pos_is_pos(p, width);
            lemma_shared_place(p / width, shared.1, 0);
        }
        assert(0 * columns == 0);
    } else {
        let fewer = (rows - 1) as nat;
        assert(fewer * shared.1 + shared.1 == rows * shared.1 && fewer * columns + columns == rows
            * columns && 0 <= fewer * columns) by (nonlinear_arith)
            requires
                fewer == rows - 1,
                columns >= 0,
                rows >= 1,
        ;
        lemma_component_rows(data, spec, region, shared, state, c, start, fewer);
        let middle = repeat(fewer, step, state)->Ok_0;
        lemma_component_columns(
            data,
            spec,
            region,
            shared,
            fewer as int,
            middle.mark_row(),
            c,
            start + fewer * columns,
            columns as nat,
        );
        let next = step(middle, fewer as int)->Ok_0;
        let (half, after) = (middle.channels[c as int]->0, next.channels[c as int]->0);
        assert forall|p: int| 0 <= p < after.len() implies #[trigger] after[p] == if (p / width)
            / shared.1 < rows {
            data[start + ((p / width) / shared.1) * columns + (p % width) / shared.0] as u16
        } else {
            before[p]
        } by {
            vstd::arithmetic::div_mod::lemma_div_pos_is_pos(p, width);
            vstd::arithmetic::div_mod::lemma_mod_bound(p, width);
            assert((p % width) / shared.0 < columns) by (nonlinear_arith)
                requires
                    0 <= p % width < width,
                    columns * shared.0 == width,
                    shared.0 >= 1,
            ;
            assert(half[p] == if (p / width) / shared.1 < fewer {
                data[start + ((p / width) / shared.1) * columns + (p % width) / shared.0] as u16
            } else {
                before[p]
            });
        }
    }
}

/// A component of bytes, in component order: its samples stand row by row from
/// where it begins, one for each column and row of pixels, or for two columns
/// or rows that share one. Every pixel of its channel gets its sample, and the
/// next component begins behind the last one. No other channel changes.
pub proof fn lemma_component_plane(
    data: Seq<u8>,
    specs: Seq<UncompressedComponentDecodeSpec>,
    region: UncompressedDecodeTileRegion,
    params: UncompressedComponentDecodeParams,
    k: int,
    state: StreamState,
    c: usize,
    start: int,
    shared: (int, int),
    x: int,
    y: int,
)
    requires
        0 <= k < specs.len(),
        specs[k].bit_depth == 8,
        specs[k].component_align_size == 0,
        specs[k].role.channel() == Some(c),
        params.row_align_size == 0,
        !params.per_component_tile_alignment,
        params.sampling_type <= 2,
        shared.0 == (if specs[k].role.is_chroma() && params.sampling_type >= 1 {
            2int
        } else {
            1int
        }),
        shared.1 == (if specs[k].role.is_chroma() && params.sampling_type == 2 {
            2int
        } else {
            1int
        }),
        8 * data.len() <= usize::MAX,
        region.origin_x == 0,
        region.origin_y == 0,
        region.width == region.image_width,
        region.width > 0,
        region.width as int % shared.0 == 0,
        region.height as int % shared.1 == 0,
        state.at.bit == 8 * start,
        0 <= start,
        start + (region.height as int / shared.1) * (region.width as int / shared.0)
            <= data.len(),
        c < state.channels.len(),
        state.channels[c as int] is Some,
        state.channels[c as int]->0.len() == region.width * region.height,
        0 <= x < region.width,
        0 <= y < region.height,
    ensures
        component_rows(data, specs, region, params)(state, k) matches Ok(next) && next.at.bit == 8
            * (start + (region.height as int / shared.1) * (region.width as int / shared.0))
            && next.channels.len() == state.channels.len() && (forall|d: int|
            0 <= d < state.channels.len() && d != c ==> #[trigger] next.channels[d]
                == state.channels[d]) && next.channels[c as int] is Some
            && next.channels[c as int]->0.len() == region.width * region.height
            && next.channels[c as int]->0[y * region.width + x] == data[start + (y / shared.1) * (
        region.width as int / shared.0) + x / shared.0],
{
    let width = region.width as int;
    let rows = region.height as int / shared.1;
    vstd::arithmetic::div_mod::lemma_fundamental_div_mod(region.height as int, shared.1);
    vstd::arithmetic::mul::lemma_mul_is_commutative(shared.1, rows);
    lemma_component_rows(data, specs[k], region, shared, state, c, start, rows as nat);
    lemma_row_major(x, y, width, region.height as int);
    assert(y / shared.1 < rows) by (nonlinear_arith)
        requires
            0 <= y < rows * shared.1,
            shared.1 >= 1,
    ;
}

/// Whether components are bytes, each with a channel of its own that has a
/// sample for every pixel.
spec fn bytes_apart(
    specs: Seq<UncompressedComponentDecodeSpec>,
    channels: Channels,
    pixels: int,
) -> bool {
    &&& forall|k: int|
        0 <= k < specs.len() ==> {
            &&& (#[trigger] specs[k]).bit_depth == 8
            &&& specs[k].component_align_size == 0
            &&& specs[k].role.channel() is Some
            &&& specs[k].role.channel()->0 < channels.len()
            &&& channels[specs[k].role.channel()->0 as int] is Some
            &&& channels[specs[k].role.channel()->0 as int]->0.len() == pixels
        }
    &&& forall|j: int, k: int|
        0 <= j < k < specs.len() ==> (#[trigger] specs[j]).role.channel() != (
        #[trigger] specs[k]).role.channel()
}

/// The sample of a component's channel at a pixel.
spec fn held(channels: Channels, spec: UncompressedComponentDecodeSpec, pixel: int) -> u16 {
    channels[spec.role.channel()->0 as int]->0[pixel]
}

/// The components of one pixel, in pixel order.
proof fn lemma_pixel_components(
    data: Seq<u8>,
    specs: Seq<UncompressedComponentDecodeSpec>,
    region: UncompressedDecodeTileRegion,
    row: int,
    column: int,
    state: StreamState,
    start: int,
    count: nat,
)
    requires
        bytes_apart(specs, state.channels, region.width * region.height),
        8 * data.len() <= usize::MAX,
        region.origin_x == 0,
        region.origin_y == 0,
        region.width == region.image_width,
        0 <= row < region.height,
        0 <= column < region.width,
        state.at.bit == 8 * start,
        0 <= start,
        count <= specs.len(),
        start + count <= data.len(),
    ensures
        repeat(count, pixel_component(data, specs, region, row, column), state) matches Ok(next)
            && next.at.bit == 8 * (start + count) && next.channels.len() == state.channels.len()
            && bytes_apart(specs, next.channels, region.width * region.height) && (forall|k: int|
            0 <= k < count ==> held(
                next.channels,
                #[trigger] specs[k],
                row * region.width + column,
            ) == data[start + k]) && (forall|k: int, p: int|
            0 <= k < specs.len() && 0 <= p < region.width * region.height && p != row * region.width
                + column ==> #[trigger] held(next.channels, specs[k], p) == held(
                state.channels,
                specs[k],
                p,
            )),
    decreases count,
{
    let step = pixel_component(data, specs, region, row, column);
    let width = region.width as int;
    let at = row * width + column;
    lemma_row_major(column, row, width, region.height as int);
    if count > 0 {
        let fewer = (count - 1) as nat;
        lemma_pixel_components(data, specs, region, row, column, state, start, fewer);
        let middle = repeat(fewer, step, state)->Ok_0;
        let spec = specs[fewer as int];
        let c = spec.role.channel()->0;
        lemma_byte_sample(middle, data, spec, c, start + fewer, width, (column, row, 1, 1));
        let next = step(middle, fewer as int)->Ok_0;
        let (half, after) = (middle.channels[c as int]->0, next.channels[c as int]->0);
        assert forall|p: int| 0 <= p < after.len() && p != at implies #[trigger] after[p]
            == half[p] by {
            vstd::arithmetic::div_mod::lemma_fundamental_div_mod(p, width);
            vstd::arithmetic::mul::lemma_mul_is_commutative(width, p / width);
        }
        assert(in_block(at, width, column, row, 1, 1));
        assert(after[at] == data[start + fewer]);
        assert forall|k: int| 0 <= k < count implies held(
            next.channels,
            #[trigger] specs[k],
            at,
        ) == data[start + k] by {
            if k < fewer {
                assert(specs[k].role.channel() != spec.role.channel());
                assert(held(middle.channels, specs[k], at) == data[start + k]);
            }
        }
        assert forall|k: int, p: int|
            0 <= k < specs.len() && 0 <= p < region.width * region.height && p != at implies #[trigger] held(
            next.channels,
            specs[k],
            p,
        ) == held(state.channels, specs[k], p) by {
            assert(held(middle.channels, specs[k], p) == held(state.channels, specs[k], p));
            if k != fewer {
                if k < fewer {
                    assert(specs[k].role.channel() != spec.role.channel());
                } else {
                    assert(spec.role.channel() != specs[k].role.channel());
                }
            }
        }
    }
}

/// Whether the first pixels hold the bytes of the payload, those of a pixel
/// together.
spec fn pixels_filled(
    specs: Seq<UncompressedComponentDecodeSpec>,
    channels: Channels,
    data: Seq<u8>,
    start: int,
    count: int,
) -> bool {
    forall|k: int, p: int|
        0 <= k < specs.len() && 0 <= p < count ==> #[trigger] held(channels, specs[k], p)
            == data[start + p * specs.len() + k]
}

/// The pixels of one row, in pixel order.
proof fn lemma_pixel_columns(
    data: Seq<u8>,
    specs: Seq<UncompressedComponentDecodeSpec>,
    region: UncompressedDecodeTileRegion,
    row: int,
    state: StreamState,
    start: int,
    columns: nat,
)
    requires
        bytes_apart(specs, state.channels, region.width * region.height),
        8 * data.len() <= usize::MAX,
        region.origin_x == 0,
        region.origin_y == 0,
        region.width == region.image_width,
        0 <= row < region.height,
        columns <= region.width,
        0 <= start,
        state.at.bit == 8 * (start + (row * region.width) * specs.len()),
        start + (region.width * region.height) * specs.len() <= data.len(),
        pixels_filled(specs, state.channels, data, start, row * region.width),
    ensures
        repeat(columns, pixel(data, specs, region, 0, row), state) matches Ok(next) && next.at.bit
            == 8 * (start + (row * region.width + columns) * specs.len()) && next.channels.len()
            == state.channels.len() && bytes_apart(
            specs,
            next.channels,
            region.width * region.height,
        ) && pixels_filled(specs, next.channels, data, start, row * region.width + columns),
    decreases columns,
{
    let step = pixel(data, specs, region, 0, row);
    let n = specs.len() as int;
    if columns > 0 {
        let fewer = (columns - 1) as nat;
        lemma_pixel_columns(data, specs, region, row, state, start, fewer);
        let middle = repeat(fewer, step, state)->Ok_0;
        let at = row * region.width + fewer;
        lemma_row_major(fewer as int, row, region.width as int, region.height as int);
        let first = start + at * n;
        let all = region.width * region.height;
        assert(at * n + n == (at + 1) * n && (at + 1) * n <= all * n && 0 <= at * n)
            by (nonlinear_arith)
            requires
                0 <= at < all,
                n >= 0,
        ;
        lemma_pixel_components(
            data,
            specs,
            region,
            row,
            fewer as int,
            middle.mark_pixel(),
            first,
            specs.len(),
        );
        let next = step(middle, fewer as int)->Ok_0;
        assert forall|k: int, p: int|
            0 <= k < specs.len() && 0 <= p < at + 1 implies #[trigger] held(
            next.channels,
            specs[k],
            p,
        ) == data[start + p * specs.len() + k] by {
            if p == at {
                assert(held(next.channels, specs[k], at) == data[first + k]);
            } else {
                assert(held(next.channels, specs[k], p) == held(middle.channels, specs[k], p));
            }
        }
    }
}

/// The rows of a tile, in pixel order.
proof fn lemma_pixel_rows(
    data: Seq<u8>,
    specs: Seq<UncompressedComponentDecodeSpec>,
    region: UncompressedDecodeTileRegion,
    state: StreamState,
    start: int,
    rows: nat,
)
    requires
        bytes_apart(specs, state.channels, region.width * region.height),
        8 * data.len() <= usize::MAX,
        region.origin_x == 0,
        region.origin_y == 0,
        region.width == region.image_width,
        rows <= region.height,
        0 <= start,
        state.at.bit == 8 * start,
        start + (region.width * region.height) * specs.len() <= data.len(),
    ensures
        repeat(rows, pixel_row(data, specs, region, 0, 0), state) matches Ok(next) && next.at.bit
            == 8 * (start + (rows * region.width) * specs.len()) && next.channels.len()
            == state.channels.len() && bytes_apart(
            specs,
            next.channels,
            region.width * region.height,
        ) && pixels_filled(specs, next.channels, data, start, rows * region.width),
    decreases rows,
{
    let step = pixel_row(data, specs, region, 0, 0);
    let width = region.width as int;
    if rows == 0 {
        assert(0 * width == 0);
        assert((0int * width) * (specs.len() as int) == 0) by (nonlinear_arith)
            requires
                0int * width == 0,
        ;
    } else {
        let fewer = (rows - 1) as nat;
        lemma_pixel_rows(data, specs, region, state, start, fewer);
        let middle = repeat(fewer, step, state)->Ok_0;
        lemma_pixel_columns(
            data,
            specs,
            region,
            fewer as int,
            middle.mark_row(),
            start,
            region.width as nat,
        );
        assert(fewer * width + width == rows * width) by (nonlinear_arith)
            requires
                fewer == rows - 1,
        ;
    }
}

/// A tile of bytes in pixel order: the samples of a pixel stand together, in
/// the order of the components, and pixel follows pixel, row by row. Sample
/// `k` of the pixel in column `x` and row `y` is byte
/// `(y * width + x) * components + k` of the payload.
pub proof fn lemma_pixel_order(
    data: Seq<u8>,
    specs: Seq<UncompressedComponentDecodeSpec>,
    region: UncompressedDecodeTileRegion,
    state: StreamState,
    k: int,
    x: int,
    y: int,
)
    requires
        forall|i: int|
            0 <= i < specs.len() ==> {
                &&& (#[trigger] specs[i]).bit_depth == 8
                &&& specs[i].component_align_size == 0
                &&& specs[i].role.channel() is Some
                &&& specs[i].role.channel()->0 < state.channels.len()
                &&& state.channels[specs[i].role.channel()->0 as int] is Some
                &&& state.channels[specs[i].role.channel()->0 as int]->0.len() == region.width
                    * region.height
            },
        forall|i: int, j: int|
            0 <= i < j < specs.len() ==> (#[trigger] specs[i]).role.channel() != (
            #[trigger] specs[j]).role.channel(),
        8 * data.len() <= usize::MAX,
        region.origin_x == 0,
        region.origin_y == 0,
        region.width == region.image_width,
        state.at.bit == 0,
        (region.width * region.height) * specs.len() <= data.len(),
        0 <= k < specs.len(),
        0 <= x < region.width,
        0 <= y < region.height,
    ensures
        pixel_interleaved(data, specs, region, 0, 0, state) matches Ok(next)
            && next.channels[specs[k].role.channel()->0 as int] is Some
            && next.channels[specs[k].role.channel()->0 as int]->0[y * region.width + x] == data[(y
            * region.width + x) * specs.len() + k],
{
    assert(bytes_apart(specs, state.channels, region.width * region.height));
    lemma_pixel_rows(data, specs, region, state, 0, region.height as nat);
    lemma_row_major(x, y, region.width as int, region.height as int);
    assert(region.height * region.width == region.width * region.height) by (nonlinear_arith);
    let next = pixel_interleaved(data, specs, region, 0, 0, state)->Ok_0;
    assert(held(next.channels, specs[k], y * region.width + x) == data[0 + (y * region.width + x)
        * specs.len() + k]);
}

/// Whether the components of the first rows hold the bytes of the payload, one
/// row of a component after another; of the next row, the first components do.
spec fn rows_of_components_filled(
    specs: Seq<UncompressedComponentDecodeSpec>,
    channels: Channels,
    data: Seq<u8>,
    width: int,
    rows: int,
    components: int,
) -> bool {
    forall|k: int, p: int|
        0 <= k < specs.len() && 0 <= p && (p / width < rows || (p / width == rows && k
            < components)) && p < channels[specs[k].role.channel()->0 as int]->0.len()
            ==> #[trigger] held(channels, specs[k], p) == data[((p / width) * specs.len() + k)
            * width + p % width]
}

/// One row of the first components, in row order.
proof fn lemma_row_components(
    data: Seq<u8>,
    specs: Seq<UncompressedComponentDecodeSpec>,
    region: UncompressedDecodeTileRegion,
    row: int,
    state: StreamState,
    count: nat,
)
    requires
        bytes_apart(specs, state.channels, region.width * region.height),
        8 * data.len() <= usize::MAX,
        region.origin_x == 0,
        region.origin_y == 0,
        region.width == region.image_width,
        region.width > 0,
        0 <= row < region.height,
        count <= specs.len(),
        state.at.bit == 8 * ((row * specs.len()) * region.width),
        (region.height * specs.len()) * region.width <= data.len(),
        rows_of_components_filled(specs, state.channels, data, region.width as int, row, 0),
    ensures
        repeat(count, row_component(data, specs, region, 0, row), state) matches Ok(next)
            && next.at.bit == 8 * ((row * specs.len() + count) * region.width)
            && next.channels.len() == state.channels.len() && bytes_apart(
            specs,
            next.channels,
            region.width * region.height,
        ) && rows_of_components_filled(
            specs,
            next.channels,
            data,
            region.width as int,
            row,
            count as int,
        ),
    decreases count,
{
    let step = row_component(data, specs, region, 0, row);
    let width = region.width as int;
    let n = specs.len() as int;
    if count > 0 {
        let fewer = (count - 1) as nat;
        lemma_row_components(data, specs, region, row, state, fewer);
        let middle = repeat(fewer, step, state)->Ok_0;
        let spec = specs[fewer as int];
        let c = spec.role.channel()->0;
        let start = (row * n + fewer) * width;
        let h = region.height as int;
        assert(0 <= start && start + width <= (h * n) * width && start + width == (row * n + count)
            * width) by (nonlinear_arith)
            requires
                start == (row * n + fewer) * width,
                0 <= row < h,
                0 <= fewer < n,
                count == fewer + 1,
                width > 0,
        ;
        assert(row * 1 + 1 <= h && width / 1 == width && width * 1 == width);
        lemma_component_columns(
            data,
            spec,
            region,
            (1, 1),
            row,
            middle.mark_row(),
            c,
            start,
            region.width as nat,
        );
        let next = step(middle, fewer as int)->Ok_0;
        let (half, after) = (middle.channels[c as int]->0, next.channels[c as int]->0);
        assert forall|k: int, p: int|
            0 <= k < specs.len() && 0 <= p && (p / width < row || (p / width == row && k < count))
                && p < next.channels[specs[k].role.channel()->0 as int]->0.len() implies #[trigger] held(
            next.channels,
            specs[k],
            p,
        ) == data[((p / width) * specs.len() + k) * width + p % width] by {
            vstd::arithmetic::div_mod::lemma_mod_bound(p, width);
            assert((p / width) / 1 == p / width && (p % width) / 1 == p % width);
            if k == fewer {
                assert(after[p] == if (p / width) / 1 == row && (p % width) / 1 < width {
                    data[start + (p % width) / 1] as u16
                } else {
                    half[p]
                });
                if p / width < row {
                    assert(held(middle.channels, specs[k], p) == data[((p / width) * specs.len()
                        + k) * width + p % width]);
                }
            } else {
                if k < fewer {
                    assert(specs[k].role.channel() != spec.role.channel());
                } else {
                    assert(spec.role.channel() != specs[k].role.channel());
                }
                let d = specs[k].role.channel()->0 as int;
                assert(next.channels[d] == middle.channels[d]);
                assert(held(middle.channels, specs[k], p) == data[((p / width) * specs.len() + k)
                    * width + p % width]);
            }
        }
        assert forall|k: int| 0 <= k < specs.len() implies {
            &&& (#[trigger] specs[k]).bit_depth == 8
            &&& specs[k].component_align_size == 0
            &&& specs[k].role.channel() is Some
            &&& specs[k].role.channel()->0 < next.channels.len()
            &&& next.channels[specs[k].role.channel()->0 as int] is Some
            &&& next.channels[specs[k].role.channel()->0 as int]->0.len() == region.width
                * region.height
        } by {
            let d = specs[k].role.channel()->0 as int;
            if d != c {
                assert(next.channels[d] == middle.channels[d]);
            }
        }
    }
}

/// The rows of a tile, in row order.
proof fn lemma_rows_of_components(
    data: Seq<u8>,
    specs: Seq<UncompressedComponentDecodeSpec>,
    region: UncompressedDecodeTileRegion,
    state: StreamState,
    rows: nat,
)
    requires
        bytes_apart(specs, state.channels, region.width * region.height),
        8 * data.len() <= usize::MAX,
        region.origin_x == 0,
        region.origin_y == 0,
        region.width == region.image_width,
        region.width > 0,
        rows <= region.height,
        state.at.bit == 0,
        (region.height * specs.len()) * region.width <= data.len(),
    ensures
        repeat(rows, row_components(data, specs, region, 0), state) matches Ok(next) && next.at.bit
            == 8 * ((rows * specs.len()) * region.width) && next.channels.len()
            == state.channels.len() && bytes_apart(
            specs,
            next.channels,
            region.width * region.height,
        ) && rows_of_components_filled(
            specs,
            next.channels,
            data,
            region.width as int,
            rows as int,
            0,
        ),
    decreases rows,
{
    let step = row_components(data, specs, region, 0);
    let width = region.width as int;
    let n = specs.len() as int;
    if rows == 0 {
        assert((0int * n) * width == 0) by (nonlinear_arith);
        assert forall|k: int, p: int|
            0 <= k < specs.len() && 0 <= p && (p / width < 0 || (p / width == 0 && k < 0)) && p
                < state.channels[specs[k].role.channel()->0 as int]->0.len() implies #[trigger] held(
            state.channels,
            specs[k],
            p,
        ) == data[((p / width) * specs.len() + k) * width + p % width] by {
            vstd::arithmetic::div_mod::lemma_div_pos_is_pos(p, width);
        }
    } else {
        let fewer = (rows - 1) as nat;
        lemma_rows_of_components(data, specs, region, state, fewer);
        let middle = repeat(fewer, step, state)->Ok_0;
        lemma_row_components(data, specs, region, fewer as int, middle, specs.len());
        assert(fewer * n + n == rows * n) by (nonlinear_arith)
            requires
                fewer == rows - 1,
        ;
        let next = step(middle, fewer as int)->Ok_0;
        assert forall|k: int, p: int|
            0 <= k < specs.len() && 0 <= p && (p / width < rows || (p / width == rows && k < 0)) && p
                < next.channels[specs[k].role.channel()->0 as int]->0.len() implies #[trigger] held(
            next.channels,
            specs[k],
            p,
        ) == data[((p / width) * specs.len() + k) * width + p % width] by {
            assert(p / width < fewer || p / width == fewer);
        }
    }
}

/// A tile of bytes in row order: a row of each component, then the next row of
/// each. The sample of component `k` in column `x` and row `y` is byte
/// `(y * components + k) * width + x` of the payload.
pub proof fn lemma_row_order(
    data: Seq<u8>,
    specs: Seq<UncompressedComponentDecodeSpec>,
    region: UncompressedDecodeTileRegion,
    state: StreamState,
    k: int,
    x: int,
    y: int,
)
    requires
        forall|i: int|
            0 <= i < specs.len() ==> {
                &&& (#[trigger] specs[i]).bit_depth == 8
                &&& specs[i].component_align_size == 0
                &&& specs[i].role.channel() is Some
                &&& specs[i].role.channel()->0 < state.channels.len()
                &&& state.channels[specs[i].role.channel()->0 as int] is Some
                &&& state.channels[specs[i].role.channel()->0 as int]->0.len() == region.width
                    * region.height
            },
        forall|i: int, j: int|
            0 <= i < j < specs.len() ==> (#[trigger] specs[i]).role.channel() != (
            #[trigger] specs[j]).role.channel(),
        8 * data.len() <= usize::MAX,
        region.origin_x == 0,
        region.origin_y == 0,
        region.width == region.image_width,
        state.at.bit == 0,
        (region.height * specs.len()) * region.width <= data.len(),
        0 <= k < specs.len(),
        0 <= x < region.width,
        0 <= y < region.height,
    ensures
        row_interleaved(data, specs, region, 0, state) matches Ok(next)
            && next.channels[specs[k].role.channel()->0 as int] is Some
            && next.channels[specs[k].role.channel()->0 as int]->0[y * region.width + x] == data[(y
            * specs.len() + k) * region.width + x],
{
    assert(bytes_apart(specs, state.channels, region.width * region.height));
    lemma_rows_of_components(data, specs, region, state, region.height as nat);
    lemma_row_major(x, y, region.width as int, region.height as int);
    let next = row_interleaved(data, specs, region, 0, state)->Ok_0;
    let p = y * region.width + x;
    assert(held(next.channels, specs[k], p) == data[((p / (region.width as int)) * specs.len() + k)
        * (region.width as int) + p % (region.width as int)]);
}

/// Luma, Cb and Cr of bytes in component order, with chroma that four pixels
/// share: first the luma samples, row by row, then a quarter as many of Cb,
/// then as many of Cr.
pub proof fn lemma_component_order_420(
    data: Seq<u8>,
    specs: Seq<UncompressedComponentDecodeSpec>,
    region: UncompressedDecodeTileRegion,
    params: UncompressedComponentDecodeParams,
    state: StreamState,
    half: (int, int),
    x: int,
    y: int,
)
    requires
        specs.len() == 3,
        specs[0].role is Luma,
        specs[1].role is ChromaBlue,
        specs[2].role is ChromaRed,
        forall|k: int|
            0 <= k < 3 ==> (#[trigger] specs[k]).bit_depth == 8 && specs[k].component_align_size
                == 0,
        params.row_align_size == 0,
        !params.per_component_tile_alignment,
        params.sampling_type == 2,
        region.origin_x == 0,
        region.origin_y == 0,
        region.width == region.image_width,
        region.width == 2 * half.0,
        region.height == 2 * half.1,
        half.0 > 0,
        half.1 > 0,
        8 * data.len() <= usize::MAX,
        region.height * region.width + 2 * (half.1 * half.0) <= data.len(),
        state.at.bit == 0,
        state.channels.len() == 8,
        forall|c: int|
            1 <= c <= 3 ==> (#[trigger] state.channels[c]) is Some && state.channels[c]->0.len()
                == region.width * region.height,
        0 <= x < region.width,
        0 <= y < region.height,
    ensures
        component_interleaved(data, specs, region, params, state) matches Ok(next) && {
            let pixels = region.height * region.width;
            let shared = (y / 2) * half.0 + x / 2;
            let at = y * region.width + x;
            &&& next.channels[1] is Some && next.channels[1]->0[at] == data[at]
            &&& next.channels[2] is Some && next.channels[2]->0[at] == data[pixels + shared]
            &&& next.channels[3] is Some && next.channels[3]->0[at] == data[pixels + half.1 * half.0
                + shared]
        },
{
    let step = component_rows(data, specs, region, params);
    let (w, h) = (region.width as int, region.height as int);
    assert(w / 1 == w && h / 1 == h && w % 1 == 0 && h % 1 == 0 && x / 1 == x && y / 1 == y);
    assert(w / 2 == half.0 && h / 2 == half.1);
    assert(0 <= half.1 * half.0) by (nonlinear_arith)
        requires
            half.0 > 0,
            half.1 > 0,
    ;
    assert(0 <= h * w) by (nonlinear_arith)
        requires
            h > 0,
            w > 0,
    ;
    assert(state.channels[1] is Some && state.channels[2] is Some && state.channels[3] is Some);
    lemma_component_plane(data, specs, region, params, 0, state, 1, 0, (1, 1), x, y);
    let first = step(state, 0)->Ok_0;
    assert(first.channels[2] == state.channels[2] && first.channels[3] == state.channels[3]);
    lemma_component_plane(data, specs, region, params, 1, first, 2, h * w, (2, 2), x, y);
    let second = step(first, 1)->Ok_0;
    assert(second.channels[1] == first.channels[1] && second.channels[3] == first.channels[3]);
    lemma_component_plane(
        data,
        specs,
        region,
        params,
        2,
        second,
        3,
        h * w + half.1 * half.0,
        (2, 2),
        x,
        y,
    );
    let third = step(second, 2)->Ok_0;
    assert(third.channels[1] == second.channels[1] && third.channels[2] == second.channels[2]);
    lemma_three_steps(step, state, first, second);
}

/// Three steps, one after the other.
proof fn lemma_three_steps(
    step: spec_fn(StreamState, int) -> Step,
    state: StreamState,
    first: StreamState,
    second: StreamState,
)
    requires
        step(state, 0) == Ok::<StreamState, Halt>(first),
        step(first, 1) == Ok::<StreamState, Halt>(second),
    ensures
        repeat(3, step, state) == step(second, 2),
{
    assert(repeat(0, step, state) == Ok::<StreamState, Halt>(state));
    assert(repeat(1, step, state) == Ok::<StreamState, Halt>(first));
    assert(repeat(2, step, state) == Ok::<StreamState, Halt>(second));
}

/// One byte of a pair or a group becomes one sample, for every pixel of a
/// block: those get it, and no other pixel and no other channel changes.
pub proof fn lemma_byte_painted(
    state: StreamState,
    role: UncompressedChannelRole,
    c: usize,
    width: int,
    height: int,
    block: (int, int, int, int),
    value: u16,
    x: int,
    y: int,
)
    requires
        role.channel() == Some(c),
        c < state.channels.len(),
        state.channels[c as int] is Some,
        state.channels[c as int]->0.len() == width * height,
        0 <= block.0,
        0 <= block.1,
        block.0 + block.2 <= width,
        block.1 + block.3 <= height,
        1 <= block.2,
        1 <= block.3,
        0 <= x < width,
        0 <= y < height,
    ensures
        state.paint(role, width, block.0, block.1, block.2, block.3, value) matches Ok(next)
            && next.at == state.at && next.channels.len() == state.channels.len() && (forall|d: int|
            0 <= d < state.channels.len() && d != c ==> #[trigger] next.channels[d]
                == state.channels[d]) && next.channels[c as int] is Some
            && next.channels[c as int]->0.len() == width * height
            && next.channels[c as int]->0[y * width + x] == if block.0 <= x < block.0 + block.2
            && block.1 <= y < block.1 + block.3 {
            value
        } else {
            state.channels[c as int]->0[y * width + x]
        },
{
    lemma_row_major(x, y, width, height);
    let last = (block.1 + block.3 - 1) * width + (block.0 + block.2 - 1);
    assert(last < width * height) by (nonlinear_arith)
        requires
            last == (block.1 + block.3 - 1) * width + (block.0 + block.2 - 1),
            block.1 + block.3 <= height,
            block.0 + block.2 <= width,
            width > 0,
    ;
}

/// Chroma in pairs: of two components of bytes, the first byte of a pair
/// belongs to the first and the second to the second, for all pixels that
/// share the samples.
pub proof fn lemma_chroma_pair(
    data: Seq<u8>,
    first: UncompressedComponentDecodeSpec,
    second: UncompressedComponentDecodeSpec,
    region: UncompressedDecodeTileRegion,
    shared: (int, int),
    row: int,
    column: int,
    state: StreamState,
    c: usize,
    d: usize,
    start: int,
    x: int,
    y: int,
)
    requires
        first.bit_depth == 8,
        second.bit_depth == 8,
        first.component_align_size == 0,
        second.component_align_size == 0,
        first.role.channel() == Some(c),
        second.role.channel() == Some(d),
        c != d,
        c < state.channels.len(),
        d < state.channels.len(),
        state.channels[c as int] is Some,
        state.channels[d as int] is Some,
        state.channels[c as int]->0.len() == region.width * region.height,
        state.channels[d as int]->0.len() == region.width * region.height,
        region.origin_x == 0,
        region.origin_y == 0,
        region.width == region.image_width,
        1 <= shared.0,
        1 <= shared.1,
        0 <= column * shared.0,
        0 <= row * shared.1,
        column * shared.0 + shared.0 <= region.width,
        row * shared.1 + shared.1 <= region.height,
        8 * data.len() <= usize::MAX,
        state.at.bit == 8 * start,
        0 <= start,
        start + 2 <= data.len(),
        column * shared.0 <= x < column * shared.0 + shared.0,
        row * shared.1 <= y < row * shared.1 + shared.1,
    ensures
        pair_column(data, first, second, region, shared, row)(state, column) matches Ok(next)
            && next.at.bit == 8 * (start + 2) && next.channels[c as int]->0[y * region.width + x]
            == data[start] && next.channels[d as int]->0[y * region.width + x] == data[start + 1],
{
    let (w, h) = (region.width as int, region.height as int);
    let block = (column * shared.0, row * shared.1, shared.0, shared.1);
    lemma_bits_of_byte(data, start);
    lemma_bits_of_byte(data, start + 1);
    let between = state.read(data, first)->Ok_0.0;
    let next = between.read(data, second)->Ok_0.0;
    lemma_byte_painted(next, first.role, c, w, h, block, data[start] as u16, x, y);
    let half = next.paint(
        first.role,
        w,
        block.0,
        block.1,
        block.2,
        block.3,
        data[start] as u16,
    )->Ok_0;
    assert(half.channels[d as int] == next.channels[d as int]);
    lemma_byte_painted(half, second.role, d, w, h, block, data[start + 1] as u16, x, y);
}

/// A group of bytes of two pixels: the first luma byte is the left pixel's and
/// the second the right one's, wherever the chroma bytes stand between them; a
/// chroma byte is both pixels'. So it is for the orders Y Cb Y Cr and
/// Cb Y Cr Y.
pub proof fn lemma_group_of_two(
    data: Seq<u8>,
    specs: Seq<UncompressedComponentDecodeSpec>,
    region: UncompressedDecodeTileRegion,
    row: int,
    column: int,
    state: StreamState,
    start: int,
    luma_first: bool,
)
    requires
        specs.len() == 4,
        forall|k: int|
            0 <= k < 4 ==> (#[trigger] specs[k]).bit_depth == 8 && specs[k].component_align_size
                == 0,
        luma_first ==> specs[0].role is Luma && specs[1].role is ChromaBlue && specs[2].role is Luma
            && specs[3].role is ChromaRed,
        !luma_first ==> specs[0].role is ChromaBlue && specs[1].role is Luma && specs[2].role
            is ChromaRed && specs[3].role is Luma,
        state.channels.len() == 8,
        forall|c: int|
            1 <= c <= 3 ==> (#[trigger] state.channels[c]) is Some && state.channels[c]->0.len()
                == region.width * region.height,
        region.origin_x == 0,
        region.origin_y == 0,
        region.width == region.image_width,
        0 <= row < region.height,
        0 <= column,
        2 * column + 2 <= region.width,
        8 * data.len() <= usize::MAX,
        state.at.bit == 8 * start,
        0 <= start,
        start + 4 <= data.len(),
    ensures
        repeat(4, group_component(data, specs, region, row, column), state) matches Ok(next)
            && next.at.bit == 8 * (start + 4) && {
            let left = row * region.width + 2 * column;
            let right = row * region.width + (2 * column + 1);
            let (y0, cb, y1, cr) = if luma_first {
                (data[start], data[start + 1], data[start + 2], data[start + 3])
            } else {
                (data[start + 1], data[start], data[start + 3], data[start + 2])
            };
            &&& next.channels[1]->0[left] == y0
            &&& next.channels[1]->0[right] == y1
            &&& next.channels[2]->0[left] == cb
            &&& next.channels[2]->0[right] == cb
            &&& next.channels[3]->0[left] == cr
            &&& next.channels[3]->0[right] == cr
        },
{
    let step = group_component(data, specs, region, row, column);
    reveal_with_fuel(luma_among, 5);
    assert(state.channels[1] is Some && state.channels[2] is Some && state.channels[3] is Some);
    let early = if luma_first {
        1int
    } else {
        0int
    };
    lemma_group_step(data, specs, region, row, column, state, start, 0, 0);
    let s1 = step(state, 0)->Ok_0;
    lemma_group_step(data, specs, region, row, column, s1, start + 1, 1, early);
    let s2 = step(s1, 1)->Ok_0;
    lemma_group_step(data, specs, region, row, column, s2, start + 2, 2, 1);
    let s3 = step(s2, 2)->Ok_0;
    lemma_group_step(data, specs, region, row, column, s3, start + 3, 3, 1 + early);
    lemma_three_steps(step, state, s1, s2);
    assert(repeat(4, step, state) == step(s3, 3));
}

/// One byte of a group.
proof fn lemma_group_step(
    data: Seq<u8>,
    specs: Seq<UncompressedComponentDecodeSpec>,
    region: UncompressedDecodeTileRegion,
    row: int,
    column: int,
    state: StreamState,
    start: int,
    k: int,
    luma: int,
)
    requires
        0 <= k < specs.len(),
        specs[k].bit_depth == 8,
        specs[k].component_align_size == 0,
        specs[k].role is Luma || specs[k].role is ChromaBlue || specs[k].role is ChromaRed,
        luma == luma_among(specs, k as nat),
        specs[k].role is Luma ==> luma < 2,
        state.channels.len() == 8,
        state.channels[1] is Some,
        state.channels[2] is Some,
        state.channels[3] is Some,
        state.channels[1]->0.len() == region.width * region.height,
        state.channels[2]->0.len() == region.width * region.height,
        state.channels[3]->0.len() == region.width * region.height,
        region.origin_x == 0,
        region.origin_y == 0,
        region.width == region.image_width,
        0 <= row < region.height,
        0 <= column,
        2 * column + 2 <= region.width,
        8 * data.len() <= usize::MAX,
        state.at.bit == 8 * start,
        0 <= start,
        start + 1 <= data.len(),
    ensures
        group_component(data, specs, region, row, column)(state, k) matches Ok(next) && {
            let left = row * region.width + 2 * column;
            let right = row * region.width + (2 * column + 1);
            let byte = data[start] as u16;
            &&& next.at.bit == 8 * (start + 1)
            &&& next.channels.len() == 8
            &&& next.channels[1] is Some && next.channels[2] is Some && next.channels[3] is Some
            &&& next.channels[1]->0.len() == region.width * region.height
            &&& next.channels[2]->0.len() == region.width * region.height
            &&& next.channels[3]->0.len() == region.width * region.height
            &&& !(specs[k].role is Luma) ==> next.channels[1] == state.channels[1]
            &&& !(specs[k].role is ChromaBlue) ==> next.channels[2] == state.channels[2]
            &&& !(specs[k].role is ChromaRed) ==> next.channels[3] == state.channels[3]
            &&& specs[k].role is Luma ==> next.channels[1]->0[left] == (if luma == 0 {
                byte
            } else {
                state.channels[1]->0[left]
            }) && next.channels[1]->0[right] == (if luma == 1 {
                byte
            } else {
                state.channels[1]->0[right]
            })
            &&& specs[k].role is ChromaBlue ==> next.channels[2]->0[left] == byte
                && next.channels[2]->0[right] == byte
            &&& specs[k].role is ChromaRed ==> next.channels[3]->0[left] == byte
                && next.channels[3]->0[right] == byte
        },
{
    let spec = specs[k];
    let (w, h) = (region.width as int, region.height as int);
    lemma_bits_of_byte(data, start);
    let next = state.read(data, spec)->Ok_0.0;
    let byte = data[start] as u16;
    let x = 2 * column;
    if spec.role is Luma {
        lemma_byte_painted(next, spec.role, 1, w, h, (x + luma, row, 1, 1), byte, x, row);
        lemma_byte_painted(next, spec.role, 1, w, h, (x + luma, row, 1, 1), byte, x + 1, row);
    } else {
        let c = if spec.role is ChromaBlue {
            2usize
        } else {
            3usize
        };
        lemma_byte_painted(next, spec.role, c, w, h, (x, row, 2, 1), byte, x, row);
        lemma_byte_painted(next, spec.role, c, w, h, (x, row, 2, 1), byte, x + 1, row);
    }
}

} // verus!
