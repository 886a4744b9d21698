//! Where a reader of packed samples stands, and what a stream takes to decode.
#[allow(unused_imports)]
use crate::errors::DecodeUncompressedError;
#[allow(unused_imports)]
use crate::hevc::estimate::{
    frame_bytes, position_bytes, with_unit, HeicGridTileStreamMemoryEstimate, NalRecordSizes,
};
#[allow(unused_imports)]
use crate::hevc::sps::HevcSps;
#[allow(unused_imports)]
use crate::uncompressed::reader::Position;
use vstd::prelude::*;

verus! {

/// A number of one to sixteen bits can be read where the stream still has so
/// many, and the reader then stands behind it.
pub proof fn lemma_number_is_read(at: Position, data: Seq<u8>, count: int)
    requires
        8 * data.len() <= usize::MAX,
        0 <= at.bit,
        0 <= count,
    ensures
        at.read_bits(data, count) is Ok ==> 1 <= count <= 16,
        1 <= count <= 16 ==> (at.read_bits(data, count) is Ok <==> at.bit + count <= 8
            * data.len()),
        at.read_bits(data, count) matches Ok(next) ==> next.bit == at.bit + count
            && next.pixel_start == at.pixel_start && next.row_start == at.row_start
            && next.tile_start == at.tile_start,
{
}

/// A padded pixel takes up as many bytes as its size says; without a size
/// nothing is padded, and a pixel larger than its size is refused.
pub proof fn lemma_pixel_is_padded(at: Position, data: Seq<u8>, pixel_size: int)
    requires
        0 <= at.pixel_start <= at.byte(),
        at.bit % 8 == 0,
    ensures
        pixel_size == 0 ==> at.pixel_aligned(data, pixel_size) == Ok::<
            Position,
            DecodeUncompressedError,
        >(at),
        0 < pixel_size < at.byte() - at.pixel_start ==> at.pixel_aligned(data, pixel_size) is Err,
        at.pixel_aligned(data, pixel_size) matches Ok(next) ==> {
            &&& pixel_size != 0 ==> next.byte() == at.pixel_start + pixel_size
            &&& next.bit % 8 == 0
            &&& next.bit <= 8 * data.len() || next == at
        },
{
}

/// A row that is ended stands at a byte, and its length is the next multiple of
/// the alignment; without an alignment it is the next byte.
pub proof fn lemma_row_is_padded(at: Position, data: Seq<u8>, alignment: int)
    requires
        0 <= at.row_start,
        8 * at.row_start <= at.bit,
        0 <= alignment,
    ensures
        at.row_aligned(data, alignment) matches Ok(next) ==> {
            let used = next.byte() - at.row_start;
            &&& next.bit % 8 == 0
            &&& at.bit <= next.bit
            &&& alignment == 0 ==> next.bit < at.bit + 8
            &&& alignment > 0 ==> used % alignment == 0 && next.bit < at.bit + 8 * alignment + 8
            &&& alignment > 0 && at.bit % 8 == 0 ==> next.bit < at.bit + 8 * alignment
            &&& next.row_start == at.row_start
        },
{
    let end = at.to_byte_boundary();
    assert(end.bit % 8 == 0 && at.bit <= end.bit < at.bit + 8) by {
        crate::laws::samples::lemma_rounded_up(at.bit, 8);
    }
    if alignment > 0 {
        lemma_next_multiple(end.byte() - at.row_start, alignment);
    }
}

/// A tile that is ended has a length that is the next multiple of the
/// alignment.
pub proof fn lemma_tile_is_padded(at: Position, data: Seq<u8>, alignment: int)
    requires
        0 <= at.tile_start,
        8 * at.tile_start <= at.bit,
        at.bit % 8 == 0,
        0 <= alignment,
    ensures
        at.tile_aligned(data, alignment) matches Ok(next) ==> {
            let used = next.byte() - at.tile_start;
            &&& next.bit % 8 == 0
            &&& at.bit <= next.bit
            &&& alignment == 0 ==> next == at
            &&& alignment > 0 ==> used % alignment == 0 && next.bit < at.bit + 8 * alignment
        },
{
    if alignment > 0 {
        lemma_next_multiple(at.byte() - at.tile_start, alignment);
    }
}

/// What is missing to the next multiple.
proof fn lemma_next_multiple(used: int, alignment: int)
    requires
        0 < alignment,
    ensures
        0 <= used % alignment < alignment,
        (used + alignment - used % alignment) % alignment == 0,
{
    vstd::arithmetic::div_mod::lemma_fundamental_div_mod(used, alignment);
    vstd::arithmetic::div_mod::lemma_mod_bound(used, alignment);
    assert(used + alignment - used % alignment == alignment * (used / alignment + 1))
        by (nonlinear_arith)
        requires
            used == alignment * (used / alignment) + used % alignment,
    ;
    vstd::arithmetic::div_mod::lemma_mod_multiples_basic(used / alignment + 1, alignment);
    assert((used / alignment + 1) * alignment == alignment * (used / alignment + 1))
        by (nonlinear_arith);
}

/// One more unit takes its own bytes and four for its length; of its payload
/// the two bytes of its header are not kept; and it is counted.
pub proof fn lemma_memory_of_unit(estimate: HeicGridTileStreamMemoryEstimate, unit: Seq<u8>)
    requires
        estimate.normalized_stream_bytes + unit.len() + 4 <= u64::MAX,
        estimate.rbsp_bytes + unit.len() <= u64::MAX,
        estimate.nal_count < u64::MAX,
    ensures
        ({
            let more = with_unit(estimate, unit);
            &&& more.normalized_stream_bytes == estimate.normalized_stream_bytes + unit.len() + 4
            &&& more.nal_count == estimate.nal_count + 1
            &&& unit.len() >= 2 ==> more.rbsp_bytes == estimate.rbsp_bytes + unit.len() - 2
            &&& unit.len() < 2 ==> more.rbsp_bytes == estimate.rbsp_bytes
        }),
        position_bytes(0) == 0,
        forall|escapes: int|
            #![trigger position_bytes(escapes)]
            0 < escapes < 0x1000_0000 ==> position_bytes(escapes) == 8 * escapes + 16,
{
}

/// Decoding a stream takes room for two copies of it, for its payloads, for the
/// places of their escapes, and for two records of each unit.
pub proof fn lemma_memory_of_stream(
    estimate: HeicGridTileStreamMemoryEstimate,
    sizes: NalRecordSizes,
)
    requires
        estimate.normalized_stream_bytes <= 0x1000_0000_0000,
        estimate.rbsp_bytes <= 0x1000_0000_0000,
        estimate.emulation_prevention_position_bytes <= 0x1000_0000_0000,
        0 < estimate.nal_count < 0x1000_0000,
        sizes.backend <= 0xffff,
        sizes.parsed <= 0xffff,
    ensures
        estimate.total(sizes) == 2 * estimate.normalized_stream_bytes + estimate.rbsp_bytes
            + estimate.emulation_prevention_position_bytes + (2 * estimate.nal_count + 4)
            * sizes.backend + (2 * estimate.nal_count + 4) * sizes.parsed,
{
    let room = 2 * estimate.nal_count + 4;
    assert(0 <= room * sizes.backend <= 0x2000_0004 * 0xffff && 0 <= room * sizes.parsed
        <= 0x2000_0004 * 0xffff) by (nonlinear_arith)
        requires
            0 <= room <= 0x2000_0004,
            0 <= sizes.backend <= 0xffff,
            0 <= sizes.parsed <= 0xffff,
    ;
}

/// A decoded frame takes, for each of its luma samples, visible or not, four
/// bytes and the share of its chroma samples.
pub proof fn lemma_memory_of_frame(sps: HevcSps)
    requires
        sps.pic_width_in_luma_samples <= 0xffff,
        sps.pic_height_in_luma_samples <= 0xffff,
    ensures
        frame_bytes(sps) matches Ok(bytes) ==> bytes == (sps.pic_width_in_luma_samples
            * sps.pic_height_in_luma_samples) * (if sps.chroma_format_idc == 0 {
            4int
        } else if sps.chroma_format_idc == 1 {
            6int
        } else if sps.chroma_format_idc == 2 {
            8int
        } else {
            12int
        }),
{
    assert(0 <= sps.pic_width_in_luma_samples * sps.pic_height_in_luma_samples <= 0xffff * 0xffff)
        by (nonlinear_arith)
        requires
            sps.pic_width_in_luma_samples <= 0xffff,
            sps.pic_height_in_luma_samples <= 0xffff,
    ;
}

} // verus!
