//! How much memory decoding a tile of a grid takes.
use super::coded::HeicGridTileItemData;
use super::nal::{
    payload_cut_error, split_length_prefixed_units, Cut, LengthPrefixedHevcNalUnit,
};
#[allow(unused_imports)]
use super::nal::{is_sps, payload_error, units_from, views, NalView};
#[allow(unused_imports)]
use super::sps::{array_type_layout, parse_outcome, parses, sps_metadata, unplaced};
use super::sps::{heic_layout_from_sps_chroma_array_type, hevc_metadata_from_sps, HevcSps};
#[allow(unused_imports)]
use super::stream::slices;
use crate::errors::DecodeHeicError;
#[allow(unused_imports)]
use crate::errors::first;
use crate::types::HeicPixelLayout;
use vstd::prelude::*;
use vstd::slice::slice_subrange;

verus! {

/// A number, or the largest of 64 bits where it does not fit.
pub open spec fn capped(value: int) -> u64 {
    if value > u64::MAX {
        u64::MAX
    } else {
        value as u64
    }
}

/// A product, or the largest number of 64 bits where it does not fit.
fn capped_product(one: u64, other: u64) -> (product: u64)
    ensures
        product == capped(one * other),
{
    proof {
        assert(0 <= one * other <= 0xffff_ffff_ffff_ffff * 0xffff_ffff_ffff_ffff)
            by (nonlinear_arith)
            requires
                one <= 0xffff_ffff_ffff_ffff,
                other <= 0xffff_ffff_ffff_ffff,
        ;
    }
    let product: u128 = one as u128 * other as u128;
    if product > u64::MAX as u128 {
        u64::MAX
    } else {
        product as u64
    }
}

/// A sum, or the largest number of 64 bits where it does not fit.
fn capped_sum(one: u64, other: u64) -> (sum: u64)
    ensures
        sum == capped(one + other),
{
    one.saturating_add(other)
}

/// Whether the bytes at a place are the three that are put into a unit so that
/// it does not look like a start code.
pub open spec fn escape_at(bytes: Seq<u8>, place: int) -> bool {
    0 <= place && place + 2 < bytes.len() && bytes[place] == 0 && bytes[place + 1] == 0
        && bytes[place + 2] == 3
}

/// The number of escapes that begin before a place.
pub open spec fn escapes_before(bytes: Seq<u8>, place: nat) -> nat
    decreases place,
{
    if place == 0 {
        0
    } else {
        escapes_before(bytes, (place - 1) as nat) + if escape_at(bytes, place - 1) {
            1nat
        } else {
            0
        }
    }
}

/// The number of escapes is no larger than the place.
proof fn lemma_few_escapes(bytes: Seq<u8>, place: nat)
    ensures
        escapes_before(bytes, place) <= place,
    decreases place,
{
    if place > 0 {
        lemma_few_escapes(bytes, (place - 1) as nat);
    }
}

/// The number of escapes in a unit.
pub fn count_hevc_emulation_prevention_bytes(bytes: &[u8]) -> (count: u64)
    ensures
        count == escapes_before(bytes@, bytes@.len()),
{
    let total: usize = bytes.len();
    let mut count: u64 = 0;
    let mut cursor: usize = 0;
    while cursor < total
        invariant
            cursor <= total,
            total == bytes@.len(),
            count == escapes_before(bytes@, cursor as nat),
        decreases total - cursor,
    {
        proof {
            lemma_few_escapes(bytes@, cursor as nat);
            reveal_with_fuel(escapes_before, 4);
        }
        if total - cursor > 2 && bytes[cursor] == 0 && bytes[cursor + 1] == 0 && bytes[cursor + 2]
            == 3 {
            count = count + 1;
            cursor = cursor + 3;
        } else {
            cursor = cursor + 1;
        }
    }
    count
}

/// What the units of a stream take.
#[derive(Clone, Copy, Debug, PartialEq, Eq, Structural)]
pub struct HeicGridTileStreamMemoryEstimate {
    pub normalized_stream_bytes: u64,
    pub rbsp_bytes: u64,
    pub emulation_prevention_position_bytes: u64,
    pub nal_count: u64,
}

/// The bytes of the records that the decoder and the library keep of a unit.
#[derive(Clone, Copy, Debug, PartialEq, Eq, Structural)]
pub struct NalRecordSizes {
    pub backend: u64,
    pub parsed: u64,
}

impl Default for HeicGridTileStreamMemoryEstimate {
    fn default() -> (estimate: Self)
        ensures
            estimate == no_units(),
    {
        HeicGridTileStreamMemoryEstimate {
            normalized_stream_bytes: 0,
            rbsp_bytes: 0,
            emulation_prevention_position_bytes: 0,
            nal_count: 0,
        }
    }
}

/// What no units take.
pub open spec fn no_units() -> HeicGridTileStreamMemoryEstimate {
    HeicGridTileStreamMemoryEstimate {
        normalized_stream_bytes: 0,
        rbsp_bytes: 0,
        emulation_prevention_position_bytes: 0,
        nal_count: 0,
    }
}

/// The bytes for the places of so many escapes, in a list that grew to hold
/// them.
pub open spec fn position_bytes(escapes: int) -> u64 {
    if escapes == 0 {
        0
    } else {
        capped(capped(capped(escapes * 2) + 4) * 4)
    }
}

/// What units take with one more.
pub open spec fn with_unit(
    estimate: HeicGridTileStreamMemoryEstimate,
    unit: Seq<u8>,
) -> HeicGridTileStreamMemoryEstimate {
    let body = unit.subrange(2, unit.len() as int);
    HeicGridTileStreamMemoryEstimate {
        normalized_stream_bytes: capped(
            capped(estimate.normalized_stream_bytes + unit.len()) + 4,
        ),
        nal_count: capped(estimate.nal_count + 1),
        rbsp_bytes: if unit.len() < 2 {
            estimate.rbsp_bytes
        } else {
            capped(estimate.rbsp_bytes + body.len())
        },
        emulation_prevention_position_bytes: if unit.len() < 2 {
            estimate.emulation_prevention_position_bytes
        } else {
            capped(
                estimate.emulation_prevention_position_bytes + position_bytes(
                    escapes_before(body, body.len()) as int,
                ),
            )
        },
    }
}

/// The bytes of a list that grew to hold so many records of a size.
pub open spec fn list_bytes(count: u64, size: u64) -> u64 {
    if count == 0 {
        0
    } else {
        capped(capped(capped(count * 2) + 4) * size)
    }
}

/// The bytes of a list that grew to hold so many records of a size.
pub fn conservative_vec_storage_bytes(element_count: u64, element_size: u64) -> (bytes: u64)
    ensures
        bytes == list_bytes(element_count, element_size),
{
    if element_count == 0 {
        return 0;
    }
    capped_product(capped_sum(capped_product(element_count, 2), 4), element_size)
}

impl HeicGridTileStreamMemoryEstimate {
    /// Counts one more unit.
    pub fn add_nal(&mut self, nal_unit: &[u8]) -> (result: Result<(), DecodeHeicError>)
        ensures
            if nal_unit@.len() > u32::MAX {
                result == Err::<(), DecodeHeicError>(
                    DecodeHeicError::NalUnitTooLarge { nal_size: nal_unit@.len() as usize },
                ) && *final(self) == *old(self)
            } else {
                result is Ok && *final(self) == with_unit(*old(self), nal_unit@)
            },
    {
        let nal_size: usize = nal_unit.len();
        if nal_size > u32::MAX as usize {
            return Err(DecodeHeicError::NalUnitTooLarge { nal_size });
        }
        self.normalized_stream_bytes = capped_sum(
            capped_sum(self.normalized_stream_bytes, nal_size as u64),
            4,
        );
        self.nal_count = capped_sum(self.nal_count, 1);
        if nal_size < 2 {
            return Ok(());
        }
        let body: &[u8] = slice_subrange(nal_unit, 2, nal_size);
        self.rbsp_bytes = capped_sum(self.rbsp_bytes, body.len() as u64);
        let escapes: u64 = count_hevc_emulation_prevention_bytes(body);
        if escapes > 0 {
            self.emulation_prevention_position_bytes = capped_sum(
                self.emulation_prevention_position_bytes,
                capped_product(capped_sum(capped_product(escapes, 2), 4), 4),
            );
        }
        Ok(())
    }

    /// The bytes that the decoder needs for the stream.
    pub open spec fn total(self, sizes: NalRecordSizes) -> u64 {
        let stream = capped(capped(self.normalized_stream_bytes * 2) + self.rbsp_bytes);
        capped(
            capped(
                capped(stream + self.emulation_prevention_position_bytes) + list_bytes(
                    self.nal_count,
                    sizes.backend,
                ),
            ) + list_bytes(self.nal_count, sizes.parsed),
        )
    }

    /// The bytes that the decoder needs for the stream.
    pub fn estimated_decoder_bytes(&self, sizes: NalRecordSizes) -> (bytes: u64)
        ensures
            bytes == self.total(sizes),
    {
        let stream: u64 = capped_sum(
            capped_product(self.normalized_stream_bytes, 2),
            self.rbsp_bytes,
        );
        let backend: u64 = conservative_vec_storage_bytes(self.nal_count, sizes.backend);
        let parsed: u64 = conservative_vec_storage_bytes(self.nal_count, sizes.parsed);
        capped_sum(
            capped_sum(capped_sum(stream, self.emulation_prevention_position_bytes), backend),
            parsed,
        )
    }
}

/// The bytes of a decoded frame and of what the decoder works on, for each
/// pixel.
pub open spec fn working_bytes(layout: HeicPixelLayout) -> u64 {
    match layout {
        HeicPixelLayout::Yuv400 => 4,
        HeicPixelLayout::Yuv420 => 6,
        HeicPixelLayout::Yuv422 => 8,
        HeicPixelLayout::Yuv444 => 12,
    }
}

/// The bytes of the frame that a parameter set describes, or why it describes
/// none.
pub open spec fn frame_bytes(sps: HevcSps) -> Result<u64, DecodeHeicError> {
    match sps_metadata(sps) {
        Err(e) => Err(e),
        Ok(_) => match array_type_layout(sps.chroma_format_idc) {
            None => Err(
                DecodeHeicError::UnsupportedSpsChromaArrayType {
                    chroma_array_type: sps.chroma_format_idc,
                },
            ),
            Some(layout) => Ok(
                capped(
                    capped(sps.pic_width_in_luma_samples * sps.pic_height_in_luma_samples)
                        * working_bytes(layout),
                ),
            ),
        },
    }
}

/// The bytes of the frame that a parameter set describes. The whole frame
/// counts, not only what is visible of it.
pub fn estimate_heic_grid_sps_decode_bytes(sps: &HevcSps) -> (result: Result<u64, DecodeHeicError>)
    ensures
        result == frame_bytes(*sps),
{
    hevc_metadata_from_sps(sps)?;
    let layout: HeicPixelLayout = heic_layout_from_sps_chroma_array_type(sps.chroma_format_idc)?;
    let bytes: u64 = match layout {
        HeicPixelLayout::Yuv400 => 4,
        HeicPixelLayout::Yuv420 => 6,
        HeicPixelLayout::Yuv422 => 8,
        HeicPixelLayout::Yuv444 => 12,
    };
    Ok(
        capped_product(
            capped_product(
                sps.pic_width_in_luma_samples as u64,
                sps.pic_height_in_luma_samples as u64,
            ),
            bytes,
        ),
    )
}

/// The units of a tile: its parameter sets, then those of its payload, as far
/// as that is whole.
pub open spec fn tile_units(tile: &HeicGridTileItemData) -> Seq<NalView> {
    unplaced(tile.hvcc.headers()) + units_from(
        tile.payload@,
        tile.hvcc.nal_length_size as int,
        0,
    ).0
}

/// What a unit of a tile meets, by what parsing it came to where it is a
/// parameter set.
pub open spec fn unit_error(unit: NalView, parsed: Result<HevcSps, String>) -> Option<
    DecodeHeicError,
> {
    if unit.bytes.len() > u32::MAX {
        Some(DecodeHeicError::NalUnitTooLarge { nal_size: unit.bytes.len() as usize })
    } else if !is_sps(unit.bytes) {
        None
    } else {
        match parse_outcome(parsed, unit.offset) {
            Err(e) => Some(e),
            Ok(sps) => match frame_bytes(sps) {
                Err(e) => Some(e),
                Ok(_) => None,
            },
        }
    }
}

/// The first error that the units of a tile meet.
pub open spec fn walk_error(
    units: Seq<NalView>,
    parsed: Seq<Result<HevcSps, String>>,
    count: nat,
) -> Option<DecodeHeicError>
    decreases count,
{
    if count == 0 {
        None
    } else {
        first(
            walk_error(units, parsed, (count - 1) as nat),
            unit_error(units[count - 1], parsed[count - 1]),
        )
    }
}

/// What the first units of a tile take.
pub open spec fn walk_memory(units: Seq<NalView>, count: nat) -> HeicGridTileStreamMemoryEstimate
    decreases count,
{
    if count == 0 {
        no_units()
    } else {
        with_unit(walk_memory(units, (count - 1) as nat), units[count - 1].bytes)
    }
}

/// The bytes of the largest frame that a parameter set among the first units
/// describes, where there is one.
pub open spec fn walk_frame(
    units: Seq<NalView>,
    parsed: Seq<Result<HevcSps, String>>,
    count: nat,
) -> Option<u64>
    decreases count,
{
    if count == 0 {
        None
    } else {
        let before = walk_frame(units, parsed, (count - 1) as nat);
        if !is_sps(units[count - 1].bytes) {
            before
        } else {
            let bytes = frame_bytes(parsed[count - 1]->Ok_0)->Ok_0;
            match before {
                Some(largest) if largest >= bytes => Some(largest),
                _ => Some(bytes),
            }
        }
    }
}

/// Whether parsing the first units of a tile may have come to `parsed`, where
/// they are parameter sets, and not too large.
pub open spec fn units_parsed<P: Fn(&[u8]) -> Result<HevcSps, String>>(
    parse_sps: P,
    units: Seq<NalView>,
    parsed: Seq<Result<HevcSps, String>>,
) -> bool {
    forall|k: int|
        0 <= k < parsed.len() && is_sps(units[k].bytes) && units[k].bytes.len() <= u32::MAX
            ==> parses(
            parse_sps,
            units[k].bytes,
            #[trigger] parsed[k],
        )
}

/// Whether the estimate for a tile came to `result`, by what parsing its
/// parameter sets came to.
pub open spec fn tile_estimated(
    tile: &HeicGridTileItemData,
    parsed: Seq<Result<HevcSps, String>>,
    sizes: NalRecordSizes,
    result: Result<u64, DecodeHeicError>,
) -> bool {
    let units = tile_units(tile);
    let cut = units_from(tile.payload@, tile.hvcc.nal_length_size as int, 0).1;
    match walk_error(units, parsed, parsed.len()) {
        Some(e) => result == Err::<u64, DecodeHeicError>(e),
        None => parsed.len() == units.len() && result == (match cut {
            Some(cut) => Err::<u64, DecodeHeicError>(
                payload_error(cut, tile.hvcc.nal_length_size),
            ),
            None => match walk_frame(units, parsed, units.len()) {
                None => Err(DecodeHeicError::MissingSpsNalUnit),
                Some(frame) => {
                    let bytes = capped(frame + walk_memory(units, units.len()).total(sizes));
                    Ok(
                        if bytes == 0 {
                            1
                        } else {
                            bytes
                        },
                    )
                },
            },
        }),
    }
}

/// The units of a tile.
fn all_units<'a>(tile: &'a HeicGridTileItemData) -> (split: (
    Vec<LengthPrefixedHevcNalUnit<'a>>,
    Option<Cut>,
))
    requires
        1 <= tile.hvcc.nal_length_size <= 4,
    ensures
        views(split.0@) == tile_units(tile),
        split.1 == units_from(tile.payload@, tile.hvcc.nal_length_size as int, 0).1,
{
    let headers: Vec<&[u8]> = tile.hvcc.header_units();
    let (units, cut): (Vec<LengthPrefixedHevcNalUnit<'a>>, Option<Cut>) =
        split_length_prefixed_units(
        tile.payload.as_slice(),
        tile.hvcc.nal_length_size as usize,
    );
    let mut all: Vec<LengthPrefixedHevcNalUnit<'a>> = Vec::new();
    let mut k: usize = 0;
    while k < headers.len()
        invariant
            k <= headers@.len(),
            slices(headers@) == tile.hvcc.headers(),
            all@.len() == k,
            forall|i: int|
                0 <= i < k ==> #[trigger] all@[i].offset == 0 && all@[i].bytes == headers@[i],
        decreases headers@.len() - k,
    {
        all.push(LengthPrefixedHevcNalUnit { offset: 0, bytes: headers[k] });
        k = k + 1;
    }
    let ghost count = headers@.len() as int;
    let mut j: usize = 0;
    while j < units.len()
        invariant
            j <= units@.len(),
            slices(headers@) == tile.hvcc.headers(),
            count == headers@.len(),
            all@.len() == count + j,
            forall|i: int|
                0 <= i < count ==> #[trigger] all@[i].offset == 0 && all@[i].bytes == headers@[i],
            forall|i: int| count <= i < count + j ==> #[trigger] all@[i] == units@[i - count],
        decreases units@.len() - j,
    {
        all.push(units[j]);
        j = j + 1;
    }
    proof {
        let spec = tile_units(tile);
        assert(tile.hvcc.headers().len() == count);
        assert(views(units@).len() == units@.len());
        assert forall|i: int| 0 <= i < all@.len() implies #[trigger] views(all@)[i]
            == spec[i] by {
            if i < count {
                assert(all@[i].offset == 0);
                assert(slices(headers@)[i] == headers@[i]@);
            } else {
                assert(all@[i] == units@[i - count]);
                assert(views(units@)[i - count] == units@[i - count]@);
            }
        }
        assert(views(all@) =~= spec);
    }
    (all, cut)
}

/// The bytes that decoding a tile takes, by its parameter sets and its stream.
/// Of several parameter sets the one with the largest frame counts.
pub fn estimate_heic_grid_tile_decode_bytes<P: Fn(&[u8]) -> Result<HevcSps, String>>(
    tile: &HeicGridTileItemData,
    sizes: NalRecordSizes,
    parse_sps: &P,
) -> (result: Result<u64, DecodeHeicError>)
    requires
        forall|unit: &[u8]| #[trigger] parse_sps.requires((unit,)),
    ensures
        if tile.hvcc.nal_length_size < 1 || tile.hvcc.nal_length_size > 4 {
            result == Err::<u64, DecodeHeicError>(
                DecodeHeicError::InvalidNalLengthSize {
                    nal_length_size: tile.hvcc.nal_length_size,
                },
            )
        } else {
            exists|parsed: Seq<Result<HevcSps, String>>|
                {
                    &&& parsed.len() <= tile_units(tile).len()
                    &&& #[trigger] units_parsed(*parse_sps, tile_units(tile), parsed)
                    &&& tile_estimated(tile, parsed, sizes, result)
                }
        },
{
    let size: u8 = tile.hvcc.nal_length_size;
    if size < 1 || size > 4 {
        return Err(DecodeHeicError::InvalidNalLengthSize { nal_length_size: size });
    }
    let (units, cut): (Vec<LengthPrefixedHevcNalUnit<'_>>, Option<Cut>) = all_units(tile);
    let ghost spec = tile_units(tile);
    let ghost mut parsed: Seq<Result<HevcSps, String>> = Seq::empty();
    let mut memory: HeicGridTileStreamMemoryEstimate = HeicGridTileStreamMemoryEstimate::default();
    let mut frame: Option<u64> = None;
    let mut k: usize = 0;
    while k < units.len()
        invariant
            k <= units@.len(),
            views(units@) == spec,
            spec == tile_units(tile),
            size == tile.hvcc.nal_length_size,
            1 <= size <= 4,
            parsed.len() == k,
            units_parsed(*parse_sps, spec, parsed),
            walk_error(spec, parsed, k as nat) is None,
            memory == walk_memory(spec, k as nat),
            frame == walk_frame(spec, parsed, k as nat),
            forall|unit: &[u8]| #[trigger] parse_sps.requires((unit,)),
        decreases units@.len() - k,
    {
        let unit: LengthPrefixedHevcNalUnit<'_> = units[k];
        let ghost earlier = parsed;
        assert(views(units@)[k as int] == unit@);
        assert(spec[k as int] == unit@);
        match memory.add_nal(unit.bytes) {
            Err(e) => {
                proof {
                    parsed = parsed.push(arbitrary());
                    lemma_earlier_units(spec, earlier, parsed, k as nat);
                    assert(units_parsed(*parse_sps, spec, parsed));
                }
                return Err(e);
            },
            Ok(()) => {},
        }
        if unit.is_sequence_parameter_set() {
            let outcome: Result<HevcSps, String> = parse_sps(unit.bytes);
            proof {
                assert(parses(*parse_sps, unit@.bytes, outcome));
                parsed = parsed.push(outcome);
                lemma_earlier_units(spec, earlier, parsed, k as nat);
                assert(units_parsed(*parse_sps, spec, parsed));
            }
            let sps: HevcSps = match outcome {
                Err(detail) => {
                    return Err(DecodeHeicError::SpsParseFailed { offset: unit.offset, detail });
                },
                Ok(sps) => sps,
            };
            let bytes: u64 = estimate_heic_grid_sps_decode_bytes(&sps)?;
            frame = match frame {
                Some(largest) => if largest >= bytes {
                    Some(largest)
                } else {
                    Some(bytes)
                },
                None => Some(bytes),
            };
        } else {
            proof {
                parsed = parsed.push(arbitrary());
                lemma_earlier_units(spec, earlier, parsed, k as nat);
                assert(units_parsed(*parse_sps, spec, parsed));
            }
        }
        k = k + 1;
    }
    assert(units@.len() == spec.len());
    match cut {
        Some(cut) => {
            return Err(payload_cut_error(cut, size));
        },
        None => {},
    }
    match frame {
        None => Err(DecodeHeicError::MissingSpsNalUnit),
        Some(frame) => {
            let bytes: u64 = capped_sum(frame, memory.estimated_decoder_bytes(sizes));
            if bytes == 0 {
                Ok(1)
            } else {
                Ok(bytes)
            }
        },
    }
}

/// What the first units of a tile come to does not depend on the later ones.
proof fn lemma_earlier_units(
    units: Seq<NalView>,
    parsed: Seq<Result<HevcSps, String>>,
    more: Seq<Result<HevcSps, String>>,
    count: nat,
)
    requires
        count <= parsed.len() <= more.len(),
        forall|k: int| 0 <= k < parsed.len() ==> #[trigger] more[k] == parsed[k],
    ensures
        walk_error(units, more, count) == walk_error(units, parsed, count),
        walk_frame(units, more, count) == walk_frame(units, parsed, count),
    decreases count,
{
    if count > 0 {
        lemma_earlier_units(units, parsed, more, (count - 1) as nat);
        assert(more[count - 1] == parsed[count - 1]);
    }
}

/// Whether a number is the bytes of the largest frame that a parameter set
/// among the units describes.
pub open spec fn is_largest_frame(
    units: Seq<NalView>,
    parsed: Seq<Result<HevcSps, String>>,
    count: int,
    bytes: u64,
) -> bool {
    &&& exists|k: int|
        0 <= k < count && is_sps((#[trigger] units[k]).bytes) && frame_bytes(parsed[k]->Ok_0)
            == Ok::<u64, DecodeHeicError>(bytes)
    &&& forall|k: int|
        0 <= k < count && is_sps((#[trigger] units[k]).bytes) ==> frame_bytes(
            parsed[k]->Ok_0,
        )->Ok_0 <= bytes
}

/// The walk keeps the largest frame.
proof fn lemma_walk_frame(
    units: Seq<NalView>,
    parsed: Seq<Result<HevcSps, String>>,
    count: nat,
)
    requires
        count <= units.len(),
        count <= parsed.len(),
        walk_error(units, parsed, count) is None,
    ensures
        match walk_frame(units, parsed, count) {
            None => forall|k: int| 0 <= k < count ==> !is_sps((#[trigger] units[k]).bytes),
            Some(bytes) => is_largest_frame(units, parsed, count as int, bytes),
        },
    decreases count,
{
    if count > 0 {
        let last = count - 1;
        lemma_walk_frame(units, parsed, last as nat);
        assert(unit_error(units[last], parsed[last]) is None);
        if let Some(bytes) = walk_frame(units, parsed, count) {
            let before = walk_frame(units, parsed, last as nat);
            if before == Some(bytes) {
                let k = choose|k: int|
                    0 <= k < last && is_sps((#[trigger] units[k]).bytes) && frame_bytes(
                        parsed[k]->Ok_0,
                    ) == Ok::<u64, DecodeHeicError>(bytes);
                assert(is_sps(units[k].bytes));
            } else {
                assert(is_sps(units[last].bytes));
            }
            assert(is_largest_frame(units, parsed, count as int, bytes));
        }
    }
}

/// Units that meet no error meet none together.
proof fn lemma_no_walk_error(
    units: Seq<NalView>,
    parsed: Seq<Result<HevcSps, String>>,
    count: nat,
)
    requires
        forall|k: int| 0 <= k < count ==> unit_error(#[trigger] units[k], parsed[k]) is None,
    ensures
        walk_error(units, parsed, count) is None,
    decreases count,
{
    if count > 0 {
        lemma_no_walk_error(units, parsed, (count - 1) as nat);
        assert(unit_error(units[count - 1], parsed[count - 1]) is None);
    }
}

/// Of a tile whose payload is whole and whose units meet no error, the
/// estimate is the largest frame of all parameter sets, those of the item and
/// those of the payload, and what the decoder needs for all units. Without a
/// parameter set there is none.
pub proof fn lemma_tile_estimate(
    tile: &HeicGridTileItemData,
    parsed: Seq<Result<HevcSps, String>>,
    sizes: NalRecordSizes,
    result: Result<u64, DecodeHeicError>,
)
    requires
        tile_estimated(tile, parsed, sizes, result),
        units_from(tile.payload@, tile.hvcc.nal_length_size as int, 0).1 is None,
        forall|k: int|
            0 <= k < parsed.len() ==> unit_error(#[trigger] tile_units(tile)[k], parsed[k]) is None,
    ensures
        ({
            let units = tile_units(tile);
            let memory = walk_memory(units, units.len()).total(sizes);
            if exists|k: int| 0 <= k < units.len() && is_sps((#[trigger] units[k]).bytes) {
                exists|frame: u64|
                    {
                        &&& #[trigger] is_largest_frame(units, parsed, units.len() as int, frame)
                        &&& result == Ok::<u64, DecodeHeicError>(
                            if frame + memory == 0 {
                                1
                            } else {
                                capped(frame + memory)
                            },
                        )
                    }
            } else {
                result == Err::<u64, DecodeHeicError>(DecodeHeicError::MissingSpsNalUnit)
            }
        }),
{
    let units = tile_units(tile);
    lemma_no_walk_error(units, parsed, parsed.len());
    lemma_walk_frame(units, parsed, units.len());
}

} // verus!
