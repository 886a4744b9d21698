//! The tiles of an image, and the order in which all tiles of one component
//! come before those of the next.
use super::components::UncompressedComponentDecodeSpec;
use super::interleave::{
    decode_uncompressed_component_interleave, uncompressed_tile_subsampling,
    UncompressedComponentDecodeParams,
};
#[allow(unused_imports)]
use super::interleave::{component_interleaved, tile_subsampling};
#[allow(unused_imports)]
use super::reader::{align_up, invalid, Position};
use super::reader::{invalid_input, UncompressedBitReader};
use super::stream::UncompressedDecodeTileRegion;
#[allow(unused_imports)]
use super::stream::{
    channels_of, lemma_repeat_error, repeat, same_shape, state_of, Channels, Halt, Step, StreamState,
};
use crate::errors::DecodeUncompressedError;
use crate::text::{Arg, Detail};
use vstd::prelude::*;

verus! {

/// The tile grid of an image and the padding of its tiles.
#[derive(Clone, Copy, Debug, PartialEq, Eq, Structural)]
pub struct UncompressedTileDecodeLayout {
    pub tile_rows: usize,
    pub tile_cols: usize,
    pub tile_width: usize,
    pub tile_height: usize,
    pub image_width: usize,
    pub row_align_size: u32,
    pub tile_align_size: u32,
}

impl UncompressedTileDecodeLayout {
    /// The number of rows that the tiles cover.
    pub open spec fn rows(self) -> int {
        self.tile_rows * self.tile_height
    }

    /// The number of pixels of the rows that the tiles cover.
    pub open spec fn pixels(self) -> int {
        self.rows() * self.image_width
    }

    /// The tiles lie within the image's columns, and its pixels can be counted.
    pub open spec fn wf(self) -> bool {
        &&& self.tile_cols * self.tile_width <= self.image_width
        &&& self.rows() <= usize::MAX
        &&& self.pixels() <= usize::MAX
    }

    /// The region of the tile at `row` and `column` of the grid.
    pub open spec fn region(self, row: int, column: int) -> UncompressedDecodeTileRegion {
        UncompressedDecodeTileRegion {
            image_width: self.image_width,
            width: self.tile_width,
            height: self.tile_height,
            origin_x: (column * self.tile_width) as usize,
            origin_y: (row * self.tile_height) as usize,
        }
    }

    /// The region of a tile of the grid.
    pub fn tile_region(self, row: usize, column: usize) -> (region: UncompressedDecodeTileRegion)
        requires
            self.wf(),
            row < self.tile_rows,
            column < self.tile_cols,
        ensures
            region == self.region(row as int, column as int),
            region.wf(),
            region.pixels() <= self.pixels(),
    {
        proof {
            lemma_tile_region(self, row as int, column as int);
        }
        UncompressedDecodeTileRegion {
            image_width: self.image_width,
            width: self.tile_width,
            height: self.tile_height,
            origin_x: column * self.tile_width,
            origin_y: row * self.tile_height,
        }
    }
}

/// A tile of the grid lies within the image.
proof fn lemma_tile_region(layout: UncompressedTileDecodeLayout, row: int, column: int)
    requires
        layout.wf(),
        0 <= row < layout.tile_rows,
        0 <= column < layout.tile_cols,
    ensures
        0 <= column * layout.tile_width <= layout.image_width,
        0 <= row * layout.tile_height <= usize::MAX,
        layout.region(row, column).wf(),
        layout.region(row, column).pixels() <= layout.pixels(),
{
    let tw = layout.tile_width as int;
    let th = layout.tile_height as int;
    assert(0 <= column * tw && column * tw + tw <= layout.tile_cols * tw) by (nonlinear_arith)
        requires
            0 <= column,
            column + 1 <= layout.tile_cols,
            tw >= 0,
    ;
    assert(0 <= row * th && row * th + th <= layout.tile_rows * th) by (nonlinear_arith)
        requires
            0 <= row,
            row + 1 <= layout.tile_rows,
            th >= 0,
    ;
    let w = layout.image_width as int;
    assert((row * th + th) * w <= layout.rows() * w) by (nonlinear_arith)
        requires
            row * th + th <= layout.rows(),
            w >= 0,
    ;
}

/// `value` rounded up, where it can be represented.
pub open spec fn aligned(value: int, alignment: int, target: &'static str) -> Result<
    int,
    DecodeUncompressedError,
> {
    if align_up(value, alignment) > usize::MAX {
        Err(
            invalid(
                Detail::Three(
                    "{} alignment overflow while aligning {} bytes to {} bytes",
                    Arg::Word(target),
                    Arg::Num(value as i128),
                    Arg::Num(alignment as i128),
                ),
            ),
        )
    } else {
        Ok(align_up(value, alignment))
    }
}

/// Rounds `value` up to a multiple of `alignment`; zero asks for none.
pub fn align_up_uncompressed_bytes(
    value: usize,
    alignment: usize,
    target: &'static str,
) -> (result: Result<usize, DecodeUncompressedError>)
    ensures
        match aligned(value as int, alignment as int, target) {
            Ok(bytes) => result is Ok && result->Ok_0 == bytes,
            Err(e) => result == Err::<usize, DecodeUncompressedError>(e),
        },
{
    if alignment == 0 {
        return Ok(value);
    }
    let residual: usize = value % alignment;
    if residual == 0 {
        return Ok(value);
    }
    match value.checked_add(alignment - residual) {
        Some(bytes) => Ok(bytes),
        None => invalid_input(
            Detail::Three(
                "{} alignment overflow while aligning {} bytes to {} bytes",
                Arg::Word(target),
                Arg::Num(value as i128),
                Arg::Num(alignment as i128),
            ),
        ),
    }
}

/// The number of bits that a sample of the component takes, padding included.
pub open spec fn sample_bits(spec: UncompressedComponentDecodeSpec) -> int {
    if spec.component_align_size == 0 {
        spec.bit_depth as int
    } else {
        8 * align_up((spec.bit_depth as int + 7) / 8, spec.component_align_size as int)
    }
}

/// The number of bytes of one tile of a component, padding included.
pub open spec fn tile_bytes(
    spec: UncompressedComponentDecodeSpec,
    tile_width: int,
    tile_height: int,
    row_align_size: int,
    tile_align_size: int,
    sampling_type: u8,
) -> Result<int, DecodeUncompressedError> {
    match tile_subsampling(spec.role, sampling_type, tile_width, tile_height) {
        Err(e) => Err(e),
        Ok((x, y)) => {
            let columns = tile_width / x;
            let rows = tile_height / y;
            let row_bits = sample_bits(spec) * columns;
            if row_bits > usize::MAX {
                Err(
                    invalid(
                        Detail::Two(
                            "component row bit-size overflow for tile width {} and component bit-size {}",
                            Arg::Num(columns as i128),
                            Arg::Num(sample_bits(spec) as i128),
                        ),
                    ),
                )
            } else if row_bits + 7 > usize::MAX {
                Err(invalid(Detail::Plain("component row byte-size overflow")))
            } else {
                match aligned((row_bits + 7) / 8, row_align_size, "row") {
                    Err(e) => Err(e),
                    Ok(row_bytes) => if row_bytes * rows > usize::MAX {
                        Err(
                            invalid(
                                Detail::Two(
                                    "component tile byte-size overflow for {} bytes/row and tile height {}",
                                    Arg::Num(row_bytes as i128),
                                    Arg::Num(rows as i128),
                                ),
                            ),
                        )
                    } else {
                        aligned(row_bytes * rows, tile_align_size, "tile")
                    },
                }
            }
        },
    }
}

/// The number of bytes of one tile of a component.
pub fn uncompressed_component_tile_size_bytes(
    spec: UncompressedComponentDecodeSpec,
    tile_width: usize,
    tile_height: usize,
    row_align_size: u32,
    tile_align_size: u32,
    sampling_type: u8,
) -> (result: Result<usize, DecodeUncompressedError>)
    ensures
        match tile_bytes(
            spec,
            tile_width as int,
            tile_height as int,
            row_align_size as int,
            tile_align_size as int,
            sampling_type,
        ) {
            Ok(bytes) => result is Ok && result->Ok_0 == bytes,
            Err(e) => result == Err::<usize, DecodeUncompressedError>(e),
        },
{
    let (subsample_x, subsample_y): (usize, usize) = uncompressed_tile_subsampling(
        spec.role,
        sampling_type,
        tile_width,
        tile_height,
    )?;
    let component_tile_width: usize = tile_width / subsample_x;
    let component_tile_height: usize = tile_height / subsample_y;
    let mut bits_per_component: usize = spec.bit_depth as usize;
    if spec.component_align_size != 0 {
        let component_alignment: usize = spec.component_align_size as usize;
        let component_bytes: usize = (bits_per_component + 7) / 8;
        let residual: usize = component_bytes % component_alignment;
        let aligned_component_bytes: usize = if residual == 0 {
            component_bytes
        } else {
            component_bytes + (component_alignment - residual)
        };
        bits_per_component = aligned_component_bytes * 8;
    }
    assert(bits_per_component == sample_bits(spec));
    let bits_per_row: usize = match bits_per_component.checked_mul(component_tile_width) {
        Some(bits) => bits,
        None => {
            return invalid_input(
                Detail::Two(
                    "component row bit-size overflow for tile width {} and component bit-size {}",
                    Arg::Num(component_tile_width as i128),
                    Arg::Num(bits_per_component as i128),
                ),
            );
        },
    };
    let padded_bits: usize = match bits_per_row.checked_add(7) {
        Some(bits) => bits,
        None => {
            return invalid_input(Detail::Plain("component row byte-size overflow"));
        },
    };
    let bytes_per_row: usize = align_up_uncompressed_bytes(
        padded_bits / 8,
        row_align_size as usize,
        "row",
    )?;
    let bytes_per_tile: usize = match bytes_per_row.checked_mul(component_tile_height) {
        Some(bytes) => bytes,
        None => {
            return invalid_input(
                Detail::Two(
                    "component tile byte-size overflow for {} bytes/row and tile height {}",
                    Arg::Num(bytes_per_row as i128),
                    Arg::Num(component_tile_height as i128),
                ),
            );
        },
    };
    align_up_uncompressed_bytes(bytes_per_tile, tile_align_size as usize, "tile")
}

/// The sum of the first `count` numbers.
pub open spec fn total(sizes: Seq<usize>, count: nat) -> int
    decreases count,
{
    if count == 0 {
        0
    } else {
        total(sizes, (count - 1) as nat) + sizes[count - 1]
    }
}

/// The tile sizes of the first `count` components, where they can be counted.
pub open spec fn tile_sizes(
    specs: Seq<UncompressedComponentDecodeSpec>,
    layout: UncompressedTileDecodeLayout,
    sampling_type: u8,
    count: nat,
) -> Result<Seq<usize>, DecodeUncompressedError>
    decreases count,
{
    if count == 0 {
        Ok(Seq::empty())
    } else {
        match tile_sizes(specs, layout, sampling_type, (count - 1) as nat) {
            Err(e) => Err(e),
            Ok(sizes) => match tile_bytes(
                specs[count - 1],
                layout.tile_width as int,
                layout.tile_height as int,
                layout.row_align_size as int,
                layout.tile_align_size as int,
                sampling_type,
            ) {
                Err(e) => Err(e),
                Ok(size) => if total(sizes, sizes.len()) + size > usize::MAX {
                    Err(
                        invalid(
                            Detail::One(
                                "tile-component payload-size overflow while accumulating component {}",
                                Arg::Num((count - 1) as i128),
                            ),
                        ),
                    )
                } else {
                    Ok(sizes.push(size as usize))
                },
            },
        }
    }
}

/// Where the first `count` components begin in the payload, and behind them
/// the end of the last: each component takes a tile size for every tile.
pub open spec fn component_bases(sizes: Seq<usize>, tile_count: int, count: nat) -> Result<
    Seq<usize>,
    DecodeUncompressedError,
>
    decreases count,
{
    if count == 0 {
        Ok(seq![0usize])
    } else {
        match component_bases(sizes, tile_count, (count - 1) as nat) {
            Err(e) => Err(e),
            Ok(bases) => {
                let region = sizes[count - 1] * tile_count;
                if region > usize::MAX {
                    Err(
                        invalid(
                            Detail::Two(
                                "tile-component payload-size overflow for component {} across {} tiles",
                                Arg::Num((count - 1) as i128),
                                Arg::Num(tile_count as i128),
                            ),
                        ),
                    )
                } else if bases.last() + region > usize::MAX {
                    Err(
                        invalid(
                            Detail::One(
                                "tile-component payload-size overflow while accumulating component {} region",
                                Arg::Num((count - 1) as i128),
                            ),
                        ),
                    )
                } else {
                    Ok(bases.push((bases.last() + region) as usize))
                }
            },
        }
    }
}

/// The bytes of one tile: its part of each of the first `count` components.
pub open spec fn tile_payload(
    payload: Seq<u8>,
    sizes: Seq<usize>,
    bases: Seq<usize>,
    tile_index: int,
    count: nat,
) -> Seq<u8>
    decreases count,
{
    if count == 0 {
        Seq::empty()
    } else {
        let begin = bases[count - 1] + sizes[count - 1] * tile_index;
        tile_payload(payload, sizes, bases, tile_index, (count - 1) as nat) + payload.subrange(
            begin,
            begin + sizes[count - 1],
        )
    }
}

/// One tile, decoded from its own bytes.
pub open spec fn tile_component_tile(
    payload: Seq<u8>,
    specs: Seq<UncompressedComponentDecodeSpec>,
    layout: UncompressedTileDecodeLayout,
    sampling_type: u8,
    sizes: Seq<usize>,
    bases: Seq<usize>,
    tile_row: int,
) -> spec_fn(StreamState, int) -> Step {
    |state: StreamState, tile_column: int|
        {
            let index = tile_row * layout.tile_cols + tile_column;
            match component_interleaved(
                tile_payload(payload, sizes, bases, index, specs.len()),
                specs,
                layout.region(tile_row, tile_column),
                UncompressedComponentDecodeParams {
                    row_align_size: layout.row_align_size,
                    tile_align_size: layout.tile_align_size,
                    sampling_type,
                    per_component_tile_alignment: true,
                },
                StreamState { at: Position::start(), ..state },
            ) {
                Err(e) => Err(e),
                Ok(next) => Ok(StreamState { at: Position::start(), ..next }),
            }
        }
}

/// One row of tiles.
pub open spec fn tile_component_row(
    payload: Seq<u8>,
    specs: Seq<UncompressedComponentDecodeSpec>,
    layout: UncompressedTileDecodeLayout,
    sampling_type: u8,
    sizes: Seq<usize>,
    bases: Seq<usize>,
) -> spec_fn(StreamState, int) -> Step {
    |state: StreamState, tile_row: int|
        repeat(
            layout.tile_cols as nat,
            tile_component_tile(payload, specs, layout, sampling_type, sizes, bases, tile_row),
            state,
        )
}

/// An image whose payload holds all tiles of a component before those of the
/// next.
pub open spec fn tile_component_interleaved(
    payload: Seq<u8>,
    specs: Seq<UncompressedComponentDecodeSpec>,
    layout: UncompressedTileDecodeLayout,
    sampling_type: u8,
    channels: Channels,
) -> Step {
    let start = StreamState { at: Position::start(), channels };
    match component_places(payload, specs, layout, sampling_type) {
        Err(error) => Err(Halt { error, left: start }),
        Ok((sizes, bases)) => repeat(
            layout.tile_rows as nat,
            tile_component_row(payload, specs, layout, sampling_type, sizes, bases),
            start,
        ),
    }
}

/// The tile size of every component and where it begins in the payload, or
/// why the payload cannot hold them.
pub open spec fn component_places(
    payload: Seq<u8>,
    specs: Seq<UncompressedComponentDecodeSpec>,
    layout: UncompressedTileDecodeLayout,
    sampling_type: u8,
) -> Result<(Seq<usize>, Seq<usize>), DecodeUncompressedError> {
    let tile_count = layout.tile_rows * layout.tile_cols;
    if tile_count > usize::MAX {
        Err(
            invalid(
                Detail::Two(
                    "uncompressed tile-count overflow for tile grid {}x{}",
                    Arg::Num(layout.tile_cols as i128),
                    Arg::Num(layout.tile_rows as i128),
                ),
            ),
        )
    } else {
        match tile_sizes(specs, layout, sampling_type, specs.len()) {
            Err(e) => Err(e),
            Ok(sizes) => match component_bases(sizes, tile_count, specs.len()) {
                Err(e) => Err(e),
                Ok(bases) => if bases.last() > payload.len() {
                    Err(
                        invalid(
                            Detail::Two(
                                "tile-component payload is truncated: need {} bytes, have {} bytes",
                                Arg::Num(bases.last() as i128),
                                Arg::Num(payload.len() as i128),
                            ),
                        ),
                    )
                } else {
                    Ok((sizes, bases))
                },
            },
        }
    }
}

proof fn lemma_tile_sizes_error(
    specs: Seq<UncompressedComponentDecodeSpec>,
    layout: UncompressedTileDecodeLayout,
    sampling_type: u8,
    few: nat,
    many: nat,
)
    requires
        few <= many,
        tile_sizes(specs, layout, sampling_type, few) is Err,
    ensures
        tile_sizes(specs, layout, sampling_type, many) == tile_sizes(
            specs,
            layout,
            sampling_type,
            few,
        ),
    decreases many - few,
{
    if few < many {
        lemma_tile_sizes_error(specs, layout, sampling_type, few, (many - 1) as nat);
    }
}

proof fn lemma_total_push(sizes: Seq<usize>, size: usize, count: nat)
    requires
        count <= sizes.len(),
    ensures
        total(sizes.push(size), count) == total(sizes, count),
    decreases count,
{
    if count > 0 {
        lemma_total_push(sizes, size, (count - 1) as nat);
    }
}

proof fn lemma_component_bases_error(sizes: Seq<usize>, tile_count: int, few: nat, many: nat)
    requires
        few <= many,
        component_bases(sizes, tile_count, few) is Err,
    ensures
        component_bases(sizes, tile_count, many) == component_bases(sizes, tile_count, few),
    decreases many - few,
{
    if few < many {
        lemma_component_bases_error(sizes, tile_count, few, (many - 1) as nat);
    }
}

/// The part of a component lies before that of the next.
proof fn lemma_component_bases(sizes: Seq<usize>, tile_count: int, count: nat)
    requires
        count <= sizes.len(),
        tile_count >= 0,
    ensures
        component_bases(sizes, tile_count, count) matches Ok(bases) ==> {
            &&& bases.len() == count + 1
            &&& forall|k: int|
                0 <= k < count ==> bases[k] + (#[trigger] sizes[k]) * tile_count == bases[k + 1]
            &&& forall|k: int| 0 <= k <= count ==> #[trigger] bases[k] <= bases.last()
        },
    decreases count,
{
    if count > 0 {
        lemma_component_bases(sizes, tile_count, (count - 1) as nat);
        if component_bases(sizes, tile_count, count) is Ok {
            let before = component_bases(sizes, tile_count, (count - 1) as nat)->Ok_0;
            let bases = component_bases(sizes, tile_count, count)->Ok_0;
            let region = sizes[count - 1] * tile_count;
            assert(region >= 0) by (nonlinear_arith)
                requires
                    region == sizes[count - 1] * tile_count,
                    sizes[count - 1] >= 0,
                    tile_count >= 0,
            ;
            assert(bases == before.push((before.last() + region) as usize));
        }
    }
}

/// Computes the tile size of every component.
fn component_tile_sizes(
    specs: &[UncompressedComponentDecodeSpec],
    tile_layout: UncompressedTileDecodeLayout,
    sampling_type: u8,
) -> (result: Result<Vec<usize>, DecodeUncompressedError>)
    ensures
        match tile_sizes(specs@, tile_layout, sampling_type, specs@.len()) {
            Ok(sizes) => result is Ok && result->Ok_0@ == sizes && sizes.len() == specs@.len(),
            Err(e) => result == Err::<Vec<usize>, DecodeUncompressedError>(e),
        },
{
    let mut sizes: Vec<usize> = Vec::new();
    let mut per_tile_size: usize = 0;
    let mut k: usize = 0;
    while k < specs.len()
        invariant
            k <= specs@.len(),
            sizes@.len() == k,
            per_tile_size == total(sizes@, k as nat),
            tile_sizes(specs@, tile_layout, sampling_type, k as nat) == Ok::<
                Seq<usize>,
                DecodeUncompressedError,
            >(sizes@),
        decreases specs@.len() - k,
    {
        proof {
            if tile_sizes(specs@, tile_layout, sampling_type, (k + 1) as nat) is Err {
                lemma_tile_sizes_error(
                    specs@,
                    tile_layout,
                    sampling_type,
                    (k + 1) as nat,
                    specs@.len(),
                );
            }
        }
        let component_tile_size: usize = uncompressed_component_tile_size_bytes(
            specs[k],
            tile_layout.tile_width,
            tile_layout.tile_height,
            tile_layout.row_align_size,
            tile_layout.tile_align_size,
            sampling_type,
        )?;
        per_tile_size =
        match per_tile_size.checked_add(component_tile_size) {
            Some(size) => size,
            None => {
                return invalid_input(
                    Detail::One(
                        "tile-component payload-size overflow while accumulating component {}",
                        Arg::Num(k as i128),
                    ),
                );
            },
        };
        proof {
            lemma_total_push(sizes@, component_tile_size, k as nat);
        }
        sizes.push(component_tile_size);
        k = k + 1;
    }
    Ok(sizes)
}

/// Computes where every component begins in the payload, and where the last
/// one ends.
fn component_base_offsets(sizes: &Vec<usize>, tile_count: usize) -> (result: Result<
    Vec<usize>,
    DecodeUncompressedError,
>)
    ensures
        match component_bases(sizes@, tile_count as int, sizes@.len()) {
            Ok(bases) => result is Ok && result->Ok_0@ == bases,
            Err(e) => result == Err::<Vec<usize>, DecodeUncompressedError>(e),
        },
{
    let mut bases: Vec<usize> = Vec::new();
    let mut full_layout_size: usize = 0;
    bases.push(full_layout_size);
    assert(bases@ =~= seq![0usize]);
    let mut k: usize = 0;
    while k < sizes.len()
        invariant
            k <= sizes@.len(),
            bases@.len() == k + 1,
            full_layout_size == bases@.last(),
            component_bases(sizes@, tile_count as int, k as nat) == Ok::<
                Seq<usize>,
                DecodeUncompressedError,
            >(bases@),
        decreases sizes@.len() - k,
    {
        proof {
            if component_bases(sizes@, tile_count as int, (k + 1) as nat) is Err {
                lemma_component_bases_error(
                    sizes@,
                    tile_count as int,
                    (k + 1) as nat,
                    sizes@.len(),
                );
            }
        }
        let component_region_size: usize = match sizes[k].checked_mul(tile_count) {
            Some(size) => size,
            None => {
                return invalid_input(
                    Detail::Two(
                        "tile-component payload-size overflow for component {} across {} tiles",
                        Arg::Num(k as i128),
                        Arg::Num(tile_count as i128),
                    ),
                );
            },
        };
        full_layout_size =
        match full_layout_size.checked_add(component_region_size) {
            Some(size) => size,
            None => {
                return invalid_input(
                    Detail::One(
                        "tile-component payload-size overflow while accumulating component {} region",
                        Arg::Num(k as i128),
                    ),
                );
            },
        };
        bases.push(full_layout_size);
        k = k + 1;
    }
    Ok(bases)
}

/// Collects the bytes of one tile.
fn collect_tile_payload(
    payload: &[u8],
    sizes: &Vec<usize>,
    bases: &Vec<usize>,
    tile_index: usize,
    tile_count: usize,
) -> (bytes: Vec<u8>)
    requires
        tile_index < tile_count,
        component_bases(sizes@, tile_count as int, sizes@.len()) == Ok::<
            Seq<usize>,
            DecodeUncompressedError,
        >(bases@),
        bases@.last() <= payload@.len(),
    ensures
        bytes@ == tile_payload(payload@, sizes@, bases@, tile_index as int, sizes@.len()),
{
    proof {
        lemma_component_bases(sizes@, tile_count as int, sizes@.len());
    }
    let mut bytes: Vec<u8> = Vec::new();
    let mut k: usize = 0;
    while k < sizes.len()
        invariant
            k <= sizes@.len(),
            tile_index < tile_count,
            bases@.len() == sizes@.len() + 1,
            bases@.last() <= payload@.len(),
            forall|j: int|
                0 <= j < sizes@.len() ==> bases@[j] + (#[trigger] sizes@[j]) * tile_count
                    == bases@[j + 1],
            forall|j: int| 0 <= j <= sizes@.len() ==> #[trigger] bases@[j] <= bases@.last(),
            bytes@ == tile_payload(payload@, sizes@, bases@, tile_index as int, k as nat),
        decreases sizes@.len() - k,
    {
        let size: usize = sizes[k];
        let base: usize = bases[k];
        proof {
            assert(bases@[k as int] + sizes@[k as int] * tile_count == bases@[k + 1]);
            assert(0 <= size * tile_index && size * tile_index + size <= size * tile_count)
                by (nonlinear_arith)
                requires
                    size >= 0,
                    0 <= tile_index,
                    tile_index + 1 <= tile_count,
            ;
            assert(bases@[k + 1] <= bases@.last());
        }
        let begin: usize = base + size * tile_index;
        let end: usize = begin + size;
        bytes.extend_from_slice(vstd::slice::slice_subrange(payload, begin, end));
        k = k + 1;
        assert(bytes@ =~= tile_payload(payload@, sizes@, bases@, tile_index as int, k as nat));
    }
    bytes
}

/// Decodes one row of tiles.
fn decode_tile_component_row(
    payload: &[u8],
    specs: &[UncompressedComponentDecodeSpec],
    tile_layout: UncompressedTileDecodeLayout,
    sampling_type: u8,
    sizes: &Vec<usize>,
    bases: &Vec<usize>,
    tile_row: usize,
    channel_samples: &mut [Option<Vec<u16>>; 8],
) -> (result: Result<(), DecodeUncompressedError>)
    requires
        tile_layout.wf(),
        tile_row < tile_layout.tile_rows,
        tile_layout.tile_rows * tile_layout.tile_cols <= usize::MAX,
        sizes@.len() == specs@.len(),
        component_bases(
            sizes@,
            tile_layout.tile_rows * tile_layout.tile_cols,
            sizes@.len(),
        ) == Ok::<Seq<usize>, DecodeUncompressedError>(bases@),
        bases@.last() <= payload@.len(),
    ensures
        same_shape(channels_of(*old(channel_samples)), channels_of(*final(channel_samples))),
        match repeat(
            tile_layout.tile_cols as nat,
            tile_component_tile(
                payload@,
                specs@,
                tile_layout,
                sampling_type,
                sizes@,
                bases@,
                tile_row as int,
            ),
            StreamState { at: Position::start(), channels: channels_of(*old(channel_samples)) },
        ) {
            Ok(next) => result is Ok && next == (StreamState {
                at: Position::start(),
                channels: channels_of(*final(channel_samples)),
            }),
            Err(halt) => {
                &&& result == Err::<(), DecodeUncompressedError>(halt.error)
                &&& channels_of(*final(channel_samples)) == halt.left.channels
            },
        },
{
    let ghost start = StreamState { at: Position::start(), channels: channels_of(*channel_samples) };
    let ghost step = tile_component_tile(
        payload@,
        specs@,
        tile_layout,
        sampling_type,
        sizes@,
        bases@,
        tile_row as int,
    );
    let tile_count: usize = tile_layout.tile_rows * tile_layout.tile_cols;
    let mut tile_column: usize = 0;
    while tile_column < tile_layout.tile_cols
        invariant
            tile_column <= tile_layout.tile_cols,
            tile_layout.wf(),
            tile_row < tile_layout.tile_rows,
            tile_count == tile_layout.tile_rows * tile_layout.tile_cols,
            sizes@.len() == specs@.len(),
            component_bases(sizes@, tile_count as int, sizes@.len()) == Ok::<
                Seq<usize>,
                DecodeUncompressedError,
            >(bases@),
            bases@.last() <= payload@.len(),
            start == (StreamState {
                at: Position::start(),
                channels: channels_of(*old(channel_samples)),
            }),
            same_shape(start.channels, channels_of(*channel_samples)),
            step == tile_component_tile(
                payload@,
                specs@,
                tile_layout,
                sampling_type,
                sizes@,
                bases@,
                tile_row as int,
            ),
            repeat(tile_column as nat, step, start) == Ok::<StreamState, Halt>(
                StreamState { at: Position::start(), channels: channels_of(*channel_samples) },
            ),
        decreases tile_layout.tile_cols - tile_column,
    {
        let ghost here = StreamState {
            at: Position::start(),
            channels: channels_of(*channel_samples),
        };
        assert(repeat((tile_column + 1) as nat, step, start) == step(here, tile_column as int));
        proof {
            if step(here, tile_column as int) is Err {
                lemma_repeat_error(
                    (tile_column + 1) as nat,
                    tile_layout.tile_cols as nat,
                    step,
                    start,
                );
            }
            assert(0 <= tile_row * tile_layout.tile_cols && tile_row * tile_layout.tile_cols
                + tile_layout.tile_cols <= tile_layout.tile_rows * tile_layout.tile_cols)
                by (nonlinear_arith)
                requires
                    0 <= tile_row,
                    tile_row + 1 <= tile_layout.tile_rows,
                    tile_layout.tile_cols >= 0,
            ;
        }
        let tile_index: usize = tile_row * tile_layout.tile_cols + tile_column;
        let tile_bytes: Vec<u8> = collect_tile_payload(
            payload,
            sizes,
            bases,
            tile_index,
            tile_count,
        );
        let tile_region: UncompressedDecodeTileRegion = tile_layout.tile_region(
            tile_row,
            tile_column,
        );
        let mut tile_reader: UncompressedBitReader<'_> = UncompressedBitReader::new(
            tile_bytes.as_slice(),
        );
        assert(state_of(tile_reader, *channel_samples) == here);
        decode_uncompressed_component_interleave(
            &mut tile_reader,
            specs,
            tile_region,
            UncompressedComponentDecodeParams {
                row_align_size: tile_layout.row_align_size,
                tile_align_size: tile_layout.tile_align_size,
                sampling_type,
                per_component_tile_alignment: true,
            },
            channel_samples,
        )?;
        tile_column = tile_column + 1;
    }
    Ok(())
}

/// Decodes an image whose payload holds all tiles of a component before those
/// of the next.
pub fn decode_uncompressed_tile_component_interleave(
    payload: &[u8],
    specs: &[UncompressedComponentDecodeSpec],
    tile_layout: UncompressedTileDecodeLayout,
    sampling_type: u8,
    channel_samples: &mut [Option<Vec<u16>>; 8],
) -> (result: Result<(), DecodeUncompressedError>)
    requires
        tile_layout.wf(),
    ensures
        same_shape(channels_of(*old(channel_samples)), channels_of(*final(channel_samples))),
        match tile_component_interleaved(
            payload@,
            specs@,
            tile_layout,
            sampling_type,
            channels_of(*old(channel_samples)),
        ) {
            Ok(next) => result is Ok && channels_of(*final(channel_samples)) == next.channels,
            Err(halt) => {
                &&& result == Err::<(), DecodeUncompressedError>(halt.error)
                &&& channels_of(*final(channel_samples)) == halt.left.channels
            },
        },
        component_places(payload@, specs@, tile_layout, sampling_type) matches Err(e) ==> {
            &&& result == Err::<(), DecodeUncompressedError>(e)
            &&& channels_of(*final(channel_samples)) == channels_of(*old(channel_samples))
        },
{
    let tile_count: usize = match tile_layout.tile_rows.checked_mul(tile_layout.tile_cols) {
        Some(count) => count,
        None => {
            return invalid_input(
                Detail::Two(
                    "uncompressed tile-count overflow for tile grid {}x{}",
                    Arg::Num(tile_layout.tile_cols as i128),
                    Arg::Num(tile_layout.tile_rows as i128),
                ),
            );
        },
    };
    let sizes: Vec<usize> = component_tile_sizes(specs, tile_layout, sampling_type)?;
    let bases: Vec<usize> = component_base_offsets(&sizes, tile_count)?;
    proof {
        lemma_component_bases(sizes@, tile_count as int, sizes@.len());
    }
    let full_layout_size: usize = bases[bases.len() - 1];
    if full_layout_size > payload.len() {
        return invalid_input(
            Detail::Two(
                "tile-component payload is truncated: need {} bytes, have {} bytes",
                Arg::Num(full_layout_size as i128),
                Arg::Num(payload.len() as i128),
            ),
        );
    }
    let ghost start = StreamState { at: Position::start(), channels: channels_of(*channel_samples) };
    let ghost step = tile_component_row(
        payload@,
        specs@,
        tile_layout,
        sampling_type,
        sizes@,
        bases@,
    );
    let mut tile_row: usize = 0;
    while tile_row < tile_layout.tile_rows
        invariant
            tile_row <= tile_layout.tile_rows,
            tile_layout.wf(),
            tile_count == tile_layout.tile_rows * tile_layout.tile_cols,
            tile_sizes(specs@, tile_layout, sampling_type, specs@.len()) == Ok::<
                Seq<usize>,
                DecodeUncompressedError,
            >(sizes@),
            sizes@.len() == specs@.len(),
            component_bases(sizes@, tile_count as int, sizes@.len()) == Ok::<
                Seq<usize>,
                DecodeUncompressedError,
            >(bases@),
            bases@.last() <= payload@.len(),
            start == (StreamState {
                at: Position::start(),
                channels: channels_of(*old(channel_samples)),
            }),
            same_shape(start.channels, channels_of(*channel_samples)),
            step == tile_component_row(
                payload@,
                specs@,
                tile_layout,
                sampling_type,
                sizes@,
                bases@,
            ),
            repeat(tile_row as nat, step, start) == Ok::<StreamState, Halt>(
                StreamState { at: Position::start(), channels: channels_of(*channel_samples) },
            ),
        decreases tile_layout.tile_rows - tile_row,
    {
        let ghost here = StreamState {
            at: Position::start(),
            channels: channels_of(*channel_samples),
        };
        assert(repeat((tile_row + 1) as nat, step, start) == step(here, tile_row as int));
        proof {
            if step(here, tile_row as int) is Err {
                lemma_repeat_error(
                    (tile_row + 1) as nat,
                    tile_layout.tile_rows as nat,
                    step,
                    start,
                );
            }
        }
        decode_tile_component_row(
            payload,
            specs,
            tile_layout,
            sampling_type,
            &sizes,
            &bases,
            tile_row,
            channel_samples,
        )?;
        tile_row = tile_row + 1;
    }
    Ok(())
}

} // verus!
