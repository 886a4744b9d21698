//! Samples on their way from the stream into the channels.
use super::components::{
    uncompressed_channel_name, UncompressedChannelRole, UncompressedComponentDecodeSpec,
};
#[allow(unused_imports)]
use super::components::channel_name;
use super::reader::{invalid_input, UncompressedBitReader};
#[allow(unused_imports)]
use super::reader::{bits_value, invalid, Position};
use crate::errors::DecodeUncompressedError;
use crate::text::{Arg, Detail};
use vstd::prelude::*;

verus! {

/// A part of the image that is decoded in one go, and where it lies.
#[derive(Clone, Copy, Debug, PartialEq, Eq, Structural)]
pub struct UncompressedDecodeTileRegion {
    pub image_width: usize,
    pub width: usize,
    pub height: usize,
    pub origin_x: usize,
    pub origin_y: usize,
}

impl UncompressedDecodeTileRegion {
    /// The number of pixels of the image up to the last row of the region.
    pub open spec fn pixels(self) -> int {
        (self.origin_y + self.height) * self.image_width
    }

    /// The region lies within the image's columns, and its pixels can be
    /// counted.
    pub open spec fn wf(self) -> bool {
        &&& self.origin_x + self.width <= self.image_width
        &&& self.origin_y + self.height <= usize::MAX
        &&& self.pixels() <= usize::MAX
    }
}

/// The samples of each channel that is there, in row-major order.
pub type Channels = Seq<Option<Seq<u16>>>;

/// The samples that the buffers hold.
pub open spec fn channels_of(buffers: [Option<Vec<u16>>; 8]) -> Channels {
    Seq::new(
        8,
        |c: int|
            match buffers@[c] {
                Some(samples) => Some(samples@),
                None => None,
            },
    )
}

/// The same channels are there, with as many samples.
pub open spec fn same_shape(left: Channels, right: Channels) -> bool {
    &&& left.len() == right.len()
    &&& forall|c: int|
        0 <= c < left.len() ==> ((#[trigger] left[c]) is Some <==> right[c] is Some) && (left[c] is Some
            ==> left[c]->0.len() == right[c]->0.len())
}

/// Whether pixel `index` of an image of `width` columns lies in the block of
/// `columns` by `rows` pixels at `(x, y)`.
pub open spec fn in_block(index: int, width: int, x: int, y: int, columns: int, rows: int) -> bool {
    x <= index % width < x + columns && y <= index / width < y + rows
}

/// The samples with every pixel of a block set to `sample`.
pub open spec fn painted_samples(
    samples: Seq<u16>,
    width: int,
    x: int,
    y: int,
    columns: int,
    rows: int,
    sample: u16,
) -> Seq<u16> {
    Seq::new(
        samples.len(),
        |i: int|
            if in_block(i, width, x, y, columns, rows) {
                sample
            } else {
                samples[i]
            },
    )
}

/// The channels with a block of the role's channel set to `sample`, as far as
/// the channel reaches; padding and a channel that is not there leave them as
/// they are.
pub open spec fn painted(
    channels: Channels,
    role: UncompressedChannelRole,
    width: int,
    x: int,
    y: int,
    columns: int,
    rows: int,
    sample: u16,
) -> Channels {
    match role.channel() {
        None => channels,
        Some(c) => match channels[c as int] {
            None => channels,
            Some(samples) => channels.update(
                c as int,
                Some(painted_samples(samples, width, x, y, columns, rows, sample)),
            ),
        },
    }
}

/// Whether pixel `index` is the first of a block, in row-major order, that
/// `length` samples do not reach.
pub open spec fn first_beyond(
    index: int,
    length: int,
    width: int,
    x: int,
    y: int,
    columns: int,
    rows: int,
) -> bool {
    &&& in_block(index, width, x, y, columns, rows)
    &&& length <= index
    &&& forall|i: int|
        0 <= i < index && #[trigger] in_block(i, width, x, y, columns, rows) ==> i < length
}

/// Why a block of the role's channel cannot be set: the channel is not there,
/// or it does not reach so far.
pub open spec fn paint_error(
    channels: Channels,
    role: UncompressedChannelRole,
    width: int,
    x: int,
    y: int,
    columns: int,
    rows: int,
) -> Option<DecodeUncompressedError> {
    match role.channel() {
        None => None,
        Some(c) => match channels[c as int] {
            None => Some(
                invalid(
                    Detail::One(
                        "decoded channel buffer for {} was not initialized",
                        Arg::Word(channel_name(c as int)),
                    ),
                ),
            ),
            Some(samples) => if (y + rows - 1) * width + (x + columns - 1) < samples.len() {
                None
            } else {
                let index = choose|i: int|
                    first_beyond(i, samples.len() as int, width, x, y, columns, rows);
                Some(
                    invalid(
                        Detail::Three(
                            "decoded sample index {} exceeds {} channel length {}",
                            Arg::Num(index as i128),
                            Arg::Word(channel_name(c as int)),
                            Arg::Num(samples.len() as i128),
                        ),
                    ),
                )
            },
        },
    }
}

/// The stream position and the samples decoded so far.
pub struct StreamState {
    pub at: Position,
    pub channels: Channels,
}

/// Why decoding stopped, and what it left behind.
pub struct Halt {
    pub error: DecodeUncompressedError,
    pub left: StreamState,
}

/// What a decoding step comes to.
pub type Step = Result<StreamState, Halt>;

/// Where the bits of the next sample of a component begin: an aligned sample
/// stands at the end of its bytes. Where there is no room for it, why not, and
/// where the reader then stands.
pub open spec fn sample_start(
    at: Position,
    data: Seq<u8>,
    spec: UncompressedComponentDecodeSpec,
) -> Result<Position, (DecodeUncompressedError, Position)> {
    if spec.component_align_size == 0 {
        Ok(at)
    } else if spec.component_align_size * 8 < spec.bit_depth {
        Err(
            (
                invalid(
                    Detail::Two(
                        "component_align_size {} bytes is too small for {}-bit sample",
                        Arg::Num(spec.component_align_size as i128),
                        Arg::Num(spec.bit_depth as i128),
                    ),
                ),
                at,
            ),
        )
    } else {
        let edge = at.to_byte_boundary();
        match edge.skip_bits(data, spec.component_align_size * 8 - spec.bit_depth) {
            Ok(start) => Ok(start),
            Err(e) => Err((e, edge)),
        }
    }
}

impl StreamState {
    /// Moves the position, or fails with its error.
    pub open spec fn moved(self, to: Result<Position, DecodeUncompressedError>) -> Step {
        match to {
            Ok(at) => Ok(StreamState { at, ..self }),
            Err(error) => Err(Halt { error, left: self }),
        }
    }

    /// A row ends: at a byte boundary, and padded to the row alignment.
    pub open spec fn row_ended(self, data: Seq<u8>, alignment: int) -> Step {
        match self.at.row_aligned(data, alignment) {
            Ok(at) => Ok(StreamState { at, ..self }),
            Err(error) => Err(
                Halt { error, left: StreamState { at: self.at.to_byte_boundary(), ..self } },
            ),
        }
    }

    /// A pixel begins.
    pub open spec fn mark_pixel(self) -> StreamState {
        StreamState { at: Position { pixel_start: self.at.byte(), ..self.at }, ..self }
    }

    /// A row begins.
    pub open spec fn mark_row(self) -> StreamState {
        StreamState { at: Position { row_start: self.at.byte(), ..self.at }, ..self }
    }

    /// A tile begins.
    pub open spec fn mark_tile(self) -> StreamState {
        StreamState { at: Position { tile_start: self.at.byte(), ..self.at }, ..self }
    }

    /// Reads a sample of a component: the state behind it, and its value.
    pub open spec fn read(self, data: Seq<u8>, spec: UncompressedComponentDecodeSpec) -> Result<
        (StreamState, u16),
        Halt,
    > {
        match sample_start(self.at, data, spec) {
            Err((error, at)) => Err(Halt { error, left: StreamState { at, ..self } }),
            Ok(start) => match start.read_bits(data, spec.bit_depth as int) {
                Err(error) => Err(Halt { error, left: StreamState { at: start, ..self } }),
                Ok(end) => Ok(
                    (
                        StreamState { at: end, ..self },
                        bits_value(data, start.bit, spec.bit_depth as nat) as u16,
                    ),
                ),
            },
        }
    }

    /// Sets a block of a role's channel to a sample.
    pub open spec fn paint(
        self,
        role: UncompressedChannelRole,
        width: int,
        x: int,
        y: int,
        columns: int,
        rows: int,
        sample: u16,
    ) -> Step {
        let after = StreamState {
            channels: painted(self.channels, role, width, x, y, columns, rows, sample),
            ..self
        };
        match paint_error(self.channels, role, width, x, y, columns, rows) {
            Some(error) => Err(Halt { error, left: after }),
            None => Ok(after),
        }
    }

    /// Reads a sample of a component and sets a block of its channel to it.
    pub open spec fn sample(
        self,
        data: Seq<u8>,
        spec: UncompressedComponentDecodeSpec,
        width: int,
        x: int,
        y: int,
        columns: int,
        rows: int,
    ) -> Step {
        match self.read(data, spec) {
            Err(halt) => Err(halt),
            Ok((next, value)) => next.paint(spec.role, width, x, y, columns, rows, value),
        }
    }
}

/// `count` steps, one after the other, up to the first that fails.
pub open spec fn repeat(
    count: nat,
    step: spec_fn(StreamState, int) -> Step,
    from: StreamState,
) -> Step
    decreases count,
{
    if count == 0 {
        Ok(from)
    } else {
        match repeat((count - 1) as nat, step, from) {
            Err(e) => Err(e),
            Ok(state) => step(state, count - 1),
        }
    }
}

/// Where a step fails, no later step counts.
pub proof fn lemma_repeat_error(
    few: nat,
    many: nat,
    step: spec_fn(StreamState, int) -> Step,
    from: StreamState,
)
    requires
        few <= many,
        repeat(few, step, from) is Err,
    ensures
        repeat(many, step, from) == repeat(few, step, from),
    decreases many - few,
{
    if few < many {
        lemma_repeat_error(few, (many - 1) as nat, step, from);
    }
}

/// The state that a reader and the buffers hold.
pub open spec fn state_of(
    reader: UncompressedBitReader<'_>,
    buffers: [Option<Vec<u16>>; 8],
) -> StreamState {
    StreamState { at: reader.position(), channels: channels_of(buffers) }
}

/// Reads one sample of a component.
pub fn read_uncompressed_component_sample(
    reader: &mut UncompressedBitReader<'_>,
    spec: UncompressedComponentDecodeSpec,
) -> (result: Result<u16, DecodeUncompressedError>)
    requires
        old(reader).wf(),
    ensures
        final(reader).wf(),
        final(reader).bytes() == old(reader).bytes(),
        forall|channels: Channels|
            match (#[trigger] (StreamState { at: old(reader).position(), channels }).read(
                old(reader).bytes(),
                spec,
            )) {
                Ok((next, value)) => result == Ok::<u16, DecodeUncompressedError>(value) && next
                    == (StreamState { at: final(reader).position(), channels }),
                Err(halt) => result == Err::<u16, DecodeUncompressedError>(halt.error)
                    && halt.left == (StreamState { at: final(reader).position(), channels }),
            },
{
    if spec.component_align_size != 0 {
        let alignment_bits: usize = (spec.component_align_size as usize) * 8;
        if alignment_bits < spec.bit_depth as usize {
            return invalid_input(
                Detail::Two(
                    "component_align_size {} bytes is too small for {}-bit sample",
                    Arg::Num(spec.component_align_size as i128),
                    Arg::Num(spec.bit_depth as i128),
                ),
            );
        }
        reader.skip_to_byte_boundary();
        reader.skip_bits(alignment_bits - spec.bit_depth as usize)?;
    }
    reader.read_bits(spec.bit_depth as usize)
}

/// Sets one sample of a component's channel.
pub fn write_uncompressed_component_sample(
    channel_samples: &mut [Option<Vec<u16>>; 8],
    spec: UncompressedComponentDecodeSpec,
    pixel_index: usize,
    sample: u16,
) -> (result: Result<(), DecodeUncompressedError>)
    ensures
        match spec.role.channel() {
            None => result is Ok && *final(channel_samples) == *old(channel_samples),
            Some(c) => match channels_of(*old(channel_samples))[c as int] {
                None => result == Err::<(), DecodeUncompressedError>(
                    invalid(
                        Detail::One(
                            "decoded channel buffer for {} was not initialized",
                            Arg::Word(channel_name(c as int)),
                        ),
                    ),
                ) && channels_of(*final(channel_samples)) == channels_of(*old(channel_samples)),
                Some(samples) => if pixel_index >= samples.len() {
                    channels_of(*final(channel_samples)) == channels_of(*old(channel_samples))
                        && result == Err::<(), DecodeUncompressedError>(
                        invalid(
                            Detail::Three(
                                "decoded sample index {} exceeds {} channel length {}",
                                Arg::Num(pixel_index as i128),
                                Arg::Word(channel_name(c as int)),
                                Arg::Num(samples.len() as i128),
                            ),
                        ),
                    )
                } else {
                    &&& result is Ok
                    &&& channels_of(*final(channel_samples)) == channels_of(
                        *old(channel_samples),
                    ).update(c as int, Some(samples.update(pixel_index as int, sample)))
                },
            },
        },
{
    let channel_index: usize = match spec.role.channel_index() {
        Some(index) => index,
        None => {
            return Ok(());
        },
    };
    let ghost before = *channel_samples;
    match &mut channel_samples[channel_index] {
        None => {
            return invalid_input(
                Detail::One(
                    "decoded channel buffer for {} was not initialized",
                    Arg::Word(uncompressed_channel_name(channel_index)),
                ),
            );
        },
        Some(samples) => {
            if pixel_index >= samples.len() {
                return invalid_input(
                    Detail::Three(
                        "decoded sample index {} exceeds {} channel length {}",
                        Arg::Num(pixel_index as i128),
                        Arg::Word(uncompressed_channel_name(channel_index)),
                        Arg::Num(samples.len() as i128),
                    ),
                );
            }
            samples[pixel_index] = sample;
        },
    }
    proof {
        let c = channel_index as int;
        assert(channels_of(*channel_samples) =~= channels_of(before).update(
            c,
            Some(channels_of(before)[c]->0.update(pixel_index as int, sample)),
        ));
    }
    Ok(())
}

/// A pixel is told by its row and column.
proof fn lemma_pixel_index(index: int, width: int, row: int, column: int)
    requires
        0 <= index,
        0 <= row,
        0 <= column < width,
    ensures
        (index == row * width + column) <==> (index / width == row && index % width == column),
{
    vstd::arithmetic::div_mod::lemma_fundamental_div_mod(index, width);
    vstd::arithmetic::mul::lemma_mul_is_commutative(width, index / width);
    if index == row * width + column {
        vstd::arithmetic::div_mod::lemma_fundamental_div_mod_converse(index, width, row, column);
    }
}

/// A pixel before another stands in an earlier row, or before it in its row.
proof fn lemma_pixel_before(index: int, width: int, row: int, column: int)
    requires
        0 <= index < row * width + column,
        0 <= row,
        0 <= column < width,
    ensures
        index / width < row || (index / width == row && index % width < column),
{
    vstd::arithmetic::div_mod::lemma_fundamental_div_mod(index, width);
    let (q, r) = (index / width, index % width);
    assert(0 <= r < width);
    if q > row {
        assert(width * q >= row * width + width) by (nonlinear_arith)
            requires
                q >= row + 1,
                width > 0,
        ;
    }
    if q == row {
        assert(width * q == row * width) by (nonlinear_arith)
            requires
                q == row,
        ;
    }
}

/// The first pixel of a block beyond the samples is one pixel.
proof fn lemma_first_beyond(
    index: int,
    length: int,
    width: int,
    x: int,
    y: int,
    columns: int,
    rows: int,
)
    requires
        0 <= length,
        first_beyond(index, length, width, x, y, columns, rows),
    ensures
        index == (choose|i: int| first_beyond(i, length, width, x, y, columns, rows)),
{
    let other = choose|i: int| first_beyond(i, length, width, x, y, columns, rows);
    assert(first_beyond(other, length, width, x, y, columns, rows));
    if other < index {
        assert(in_block(other, width, x, y, columns, rows));
    }
    if index < other {
        assert(in_block(index, width, x, y, columns, rows));
    }
}

/// Sets a block of a component's channel to a sample.
pub fn write_uncompressed_component_sample_block(
    channel_samples: &mut [Option<Vec<u16>>; 8],
    spec: UncompressedComponentDecodeSpec,
    image_width: usize,
    sample_origin: (usize, usize),
    repeat: (usize, usize),
    sample: u16,
) -> (result: Result<(), DecodeUncompressedError>)
    requires
        1 <= repeat.0,
        1 <= repeat.1,
        sample_origin.0 + repeat.0 <= image_width,
        sample_origin.1 + repeat.1 <= usize::MAX,
        (sample_origin.1 + repeat.1) * image_width <= usize::MAX,
    ensures
        same_shape(channels_of(*old(channel_samples)), channels_of(*final(channel_samples))),
        channels_of(*final(channel_samples)) == painted(
            channels_of(*old(channel_samples)),
            spec.role,
            image_width as int,
            sample_origin.0 as int,
            sample_origin.1 as int,
            repeat.0 as int,
            repeat.1 as int,
            sample,
        ),
        match paint_error(
            channels_of(*old(channel_samples)),
            spec.role,
            image_width as int,
            sample_origin.0 as int,
            sample_origin.1 as int,
            repeat.0 as int,
            repeat.1 as int,
        ) {
            Some(e) => result == Err::<(), DecodeUncompressedError>(e),
            None => result is Ok,
        },
{
    let (x, y): (usize, usize) = sample_origin;
    let (columns, rows): (usize, usize) = repeat;
    let ghost before = channels_of(*channel_samples);
    let ghost w = image_width as int;
    let ghost (left, top) = (x as int, y as int);
    let ghost (wide, high) = (columns as int, rows as int);
    let channel_index: usize = match spec.role.channel_index() {
        Some(index) => index,
        None => {
            return Ok(());
        },
    };
    let ghost c = channel_index as int;
    if channel_samples[channel_index].is_none() {
        return invalid_input(
            Detail::One(
                "decoded channel buffer for {} was not initialized",
                Arg::Word(uncompressed_channel_name(channel_index)),
            ),
        );
    }
    let ghost samples = before[c]->0;
    let ghost length = samples.len() as int;
    let mut row: usize = 0;
    proof {
        assert(painted_samples(samples, w, left, top, wide, 0, sample) =~= samples);
        assert(before.update(c, Some(samples)) =~= before);
    }
    while row < rows
        invariant
            row <= rows,
            sample_origin == (x, y),
            repeat == (columns, rows),
            w == image_width,
            left == x,
            top == y,
            wide == columns,
            high == rows,
            1 <= columns,
            x + columns <= image_width,
            y + rows <= usize::MAX,
            (y + rows) * w <= usize::MAX,
            before == channels_of(*old(channel_samples)),
            before.len() == 8,
            spec.role.channel() == Some(channel_index),
            c == channel_index,
            0 <= c < 8,
            before[c] is Some,
            samples == before[c]->0,
            length == samples.len(),
            channels_of(*channel_samples) == before.update(
                c,
                Some(painted_samples(samples, w, left, top, wide, row as int, sample)),
            ),
            row > 0 ==> (top + row - 1) * w + (left + wide - 1) < length,
            forall|i: int|
                #[trigger] in_block(i, w, left, top, wide, high) && i / w < top + row && 0 <= i
                    ==> i < length,
        decreases rows - row,
    {
        let ghost row_start = painted_samples(samples, w, left, top, wide, row as int, sample);
        proof {
            assert((y + row) * w + w <= (y + rows) * w) by (nonlinear_arith)
                requires
                    row + 1 <= rows,
                    w >= 0,
            ;
            assert((y + row) * w >= 0) by (nonlinear_arith)
                requires
                    y + row >= 0,
                    w >= 0,
            ;
            assert(painted_samples(row_start, w, left, top + row, 0, 1, sample) =~= row_start);
        }
        let row_offset: usize = (y + row) * image_width;
        let mut column: usize = 0;
        while column < columns
            invariant
                column <= columns,
                row < rows,
                sample_origin == (x, y),
                repeat == (columns, rows),
                w == image_width,
                left == x,
                top == y,
                wide == columns,
                high == rows,
                x + columns <= image_width,
                y + rows <= usize::MAX,
                (y + rows) * w <= usize::MAX,
                row_offset == (y + row) * w,
                row_offset + w <= (y + rows) * w,
                before == channels_of(*old(channel_samples)),
                before.len() == 8,
                spec.role.channel() == Some(channel_index),
                c == channel_index,
                0 <= c < 8,
                before[c] is Some,
                samples == before[c]->0,
                length == samples.len(),
                row_start == painted_samples(samples, w, left, top, wide, row as int, sample),
                channels_of(*channel_samples) == before.update(
                    c,
                    Some(painted_samples(row_start, w, left, top + row, column as int, 1, sample)),
                ),
                column > 0 ==> row_offset + left + column - 1 < length,
                forall|i: int|
                    #[trigger] in_block(i, w, left, top, wide, high) && 0 <= i && (i / w < top
                        + row || (i / w == top + row && i % w < left + column)) ==> i < length,
            decreases columns - column,
        {
            let pixel_index: usize = row_offset + (x + column);
            let ghost at = painted_samples(row_start, w, left, top + row, column as int, 1, sample);
            let ghost next = painted_samples(row_start, w, left, top + row, column + 1, 1, sample);
            let written: Result<(), DecodeUncompressedError> = write_uncompressed_component_sample(
                channel_samples,
                spec,
                pixel_index,
                sample,
            );
            proof {
                lemma_pixel_index(pixel_index as int, w, top + row, left + column);
                assert(in_block(pixel_index as int, w, left, top, wide, high));
                if pixel_index < length {
                    assert forall|i: int| 0 <= i < next.len() implies next[i] == at.update(
                        pixel_index as int,
                        sample,
                    )[i] by {
                        lemma_pixel_index(i, w, top + row, left + column);
                    }
                    assert(next =~= at.update(pixel_index as int, sample));
                    assert(channels_of(*channel_samples) =~= before.update(c, Some(next)));
                    assert forall|i: int|
                        #[trigger] in_block(i, w, left, top, wide, high) && 0 <= i && (i / w < top
                            + row || (i / w == top + row && i % w < left + column + 1)) implies i
                        < length by {
                        lemma_pixel_index(i, w, top + row, left + column);
                    }
                } else {
                    assert forall|i: int|
                        0 <= i < pixel_index && #[trigger] in_block(
                            i,
                            w,
                            left,
                            top,
                            wide,
                            high,
                        ) implies i < length by {
                        lemma_pixel_before(i, w, top + row, left + column);
                    }
                    assert(first_beyond(pixel_index as int, length, w, left, top, wide, high));
                    lemma_first_beyond(pixel_index as int, length, w, left, top, wide, high);
                    let whole = painted_samples(samples, w, left, top, wide, high, sample);
                    assert forall|i: int| 0 <= i < length implies whole[i] == at[i] by {
                        lemma_pixel_before(i, w, top + row, left + column);
                    }
                    assert(whole =~= at);
                    assert((top + row) * w + (left + column) <= (top + high - 1) * w + (left + wide
                        - 1)) by (nonlinear_arith)
                        requires
                            row + 1 <= high,
                            column + 1 <= wide,
                            w >= 0,
                    ;
                }
            }
            match written {
                Ok(()) => {},
                Err(e) => {
                    return Err(e);
                },
            }
            column = column + 1;
        }
        proof {
            let next = painted_samples(samples, w, left, top, wide, row + 1, sample);
            assert(next =~= painted_samples(row_start, w, left, top + row, wide, 1, sample));
            assert(channels_of(*channel_samples) =~= before.update(c, Some(next)));
        }
        row = row + 1;
    }
    Ok(())
}

/// Reads a sample of a component and sets a block of its channel to it.
pub fn decode_uncompressed_sample(
    reader: &mut UncompressedBitReader<'_>,
    spec: UncompressedComponentDecodeSpec,
    image_width: usize,
    sample_origin: (usize, usize),
    repeat: (usize, usize),
    channel_samples: &mut [Option<Vec<u16>>; 8],
) -> (result: Result<(), DecodeUncompressedError>)
    requires
        old(reader).wf(),
        1 <= repeat.0,
        1 <= repeat.1,
        sample_origin.0 + repeat.0 <= image_width,
        sample_origin.1 + repeat.1 <= usize::MAX,
        (sample_origin.1 + repeat.1) * image_width <= usize::MAX,
    ensures
        final(reader).wf(),
        final(reader).bytes() == old(reader).bytes(),
        same_shape(channels_of(*old(channel_samples)), channels_of(*final(channel_samples))),
        match state_of(*old(reader), *old(channel_samples)).sample(
            old(reader).bytes(),
            spec,
            image_width as int,
            sample_origin.0 as int,
            sample_origin.1 as int,
            repeat.0 as int,
            repeat.1 as int,
        ) {
            Ok(next) => result is Ok && state_of(*final(reader), *final(channel_samples)) == next,
            Err(halt) => {
                &&& result == Err::<(), DecodeUncompressedError>(halt.error)
                &&& state_of(*final(reader), *final(channel_samples)) == halt.left
            },
        },
{
    let ghost before = state_of(*reader, *channel_samples);
    let ghost data = reader.bytes();
    assert(before == (StreamState { at: reader.position(), channels: before.channels }));
    let sample: u16 = match read_uncompressed_component_sample(reader, spec) {
        Ok(sample) => sample,
        Err(e) => {
            assert(before.read(data, spec) is Err);
            return Err(e);
        },
    };
    assert(before.read(data, spec) is Ok);
    write_uncompressed_component_sample_block(
        channel_samples,
        spec,
        image_width,
        sample_origin,
        repeat,
        sample,
    )
}

} // verus!
