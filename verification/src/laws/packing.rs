//! How a compressed payload is unpacked.
#[allow(unused_imports)]
use crate::bytes::be_value;
#[allow(unused_imports)]
use crate::errors::DecodeUncompressedError;
#[allow(unused_imports)]
use crate::fourcc::FourCc;
use crate::laws::streams::lemma_four_bytes_spell;
#[allow(unused_imports)]
use crate::uncompressed::components::UncompressedComponentDecodeSpec;
#[allow(unused_imports)]
use crate::uncompressed::compression::{
    brotli_unpacked, configuration, deflate_unpacked, payload_unpacked, sizes_before, table_units,
    unit_bytes, unit_size, unit_table, unit_unpacked, units_unpacked, zlib_unpacked,
    GenericCompressedUnit, UncompressedGenericCompressionProperties, UnpackError,
};
#[allow(unused_imports)]
use crate::uncompressed::tiles::{component_bases, tile_bytes, tile_payload};
use vstd::prelude::*;

verus! {

/// A unit is unpacked by the method that its type spells: `brot`, `zlib` or
/// `defl`. There is no other method.
pub proof fn lemma_methods(method: FourCc, data: Seq<u8>, index: int)
    ensures
        method@ == seq!['b' as u8, 'r' as u8, 'o' as u8, 't' as u8] && brotli_unpacked(data) is Ok
            ==> unit_unpacked(method, data, index) is Ok && unit_unpacked(method, data, index)->Ok_0
            == brotli_unpacked(data)->Ok_0,
        method@ == seq!['z' as u8, 'l' as u8, 'i' as u8, 'b' as u8] && zlib_unpacked(data) is Ok
            ==> unit_unpacked(method, data, index) is Ok && unit_unpacked(method, data, index)->Ok_0
            == zlib_unpacked(data)->Ok_0,
        method@ == seq!['d' as u8, 'e' as u8, 'f' as u8, 'l' as u8] && deflate_unpacked(data) is Ok
            ==> unit_unpacked(method, data, index) is Ok && unit_unpacked(method, data, index)->Ok_0
            == deflate_unpacked(data)->Ok_0,
        unit_unpacked(method, data, index) is Ok ==> method@ == seq![
            'b' as u8,
            'r' as u8,
            'o' as u8,
            't' as u8,
        ] || method@ == seq!['z' as u8, 'l' as u8, 'i' as u8, 'b' as u8] || method@ == seq![
            'd' as u8,
            'e' as u8,
            'f' as u8,
            'l' as u8,
        ],
{
    let code = method@;
    if unit_unpacked(method, data, index) is Ok {
        if code[0] == 'b' as u8 {
            assert(code =~= seq!['b' as u8, 'r' as u8, 'o' as u8, 't' as u8]);
        } else if code[0] == 'z' as u8 {
            assert(code =~= seq!['z' as u8, 'l' as u8, 'i' as u8, 'b' as u8]);
        } else {
            assert(code =~= seq!['d' as u8, 'e' as u8, 'f' as u8, 'l' as u8]);
        }
    }
}

/// A configuration holds, behind its version and flags, the method in four
/// bytes and the kind of its units in one. It is accepted in version 0 and with
/// kinds up to 4.
pub proof fn lemma_configuration(offset: u64, payload: Seq<u8>)
    ensures
        configuration(offset, payload) is Ok <==> payload.len() >= 9 && payload[0] == 0
            && payload[8] <= 4,
        configuration(offset, payload) matches Ok(config) ==> config.compression_type@
            == payload.subrange(4, 8) && config.compressed_unit_type == payload[8],
{
    if let Ok(config) = configuration(offset, payload) {
        assert(config.compression_type@ =~= payload.subrange(4, 8));
    }
}

/// The entries of a table of units follow each other without a gap, behind
/// nine bytes. Each holds the offset of its unit, in as many bytes as a code of
/// three bits says, and then its size, in as many as the next code says: codes
/// 1 to 4 stand for 2, 3, 4 and 8 bytes, and code 0 for no offset and for a
/// size of one byte. The number of units stands in the four bytes before.
pub proof fn lemma_unit_table(
    property_offset: u64,
    payload: Seq<u8>,
    offset_code: int,
    size_code: int,
    widths: (int, int),
    k: int,
)
    requires
        payload.len() >= 9,
        payload[0] == 0,
        0 <= offset_code < 5,
        0 <= size_code < 5,
        payload[4] == 32 * offset_code + 4 * size_code,
        widths.0 == (if offset_code == 0 {
            0int
        } else if offset_code == 4 {
            8int
        } else {
            offset_code + 1
        }),
        widths.1 == (if size_code == 0 {
            1int
        } else if size_code == 4 {
            8int
        } else {
            size_code + 1
        }),
        0 <= k,
    ensures
        ({
            let count = 16777216 * payload[5] + 65536 * payload[6] + 256 * payload[7] + payload[8];
            match unit_table(property_offset, payload) {
                Err(_) => true,
                Ok(units) => {
                    &&& units.len() == count
                    &&& 9 + (widths.0 + widths.1) * count <= payload.len()
                    &&& k < count ==> {
                        let at = 9 + k * (widths.0 + widths.1);
                        &&& units[k].size == be_value(
                            payload.subrange(at + widths.0, at + widths.0 + widths.1),
                        ) as u64
                        &&& offset_code > 0 ==> units[k].offset == be_value(
                            payload.subrange(at, at + widths.0),
                        ) as u64
                    }
                },
            }
        }),
{
    lemma_four_bytes_spell(payload.subrange(5, 9));
    let count = be_value(payload.subrange(5, 9));
    assert((32 * offset_code + 4 * size_code) / 32 == offset_code);
    assert(((32 * offset_code + 4 * size_code) / 4) % 8 == size_code);
    if let Ok(units) = unit_table(property_offset, payload) {
        lemma_table_entries(property_offset, payload, widths, count as nat, k);
    }
}

/// The entries of a table, one by one.
proof fn lemma_table_entries(
    property_offset: u64,
    payload: Seq<u8>,
    widths: (int, int),
    count: nat,
    k: int,
)
    requires
        0 <= k,
        0 <= widths.0,
    ensures
        table_units(property_offset, payload, widths.0, widths.1, count) matches Ok(units) ==> {
            &&& units.len() == count
            &&& k < count ==> {
                let at = 9 + k * (widths.0 + widths.1);
                &&& units[k].size == be_value(
                    payload.subrange(at + widths.0, at + widths.0 + widths.1),
                ) as u64
                &&& widths.0 > 0 ==> units[k].offset == be_value(
                    payload.subrange(at, at + widths.0),
                ) as u64
                &&& widths.0 == 0 ==> units[k].offset == sizes_before(
                    payload,
                    widths.0,
                    widths.1,
                    k as nat,
                ) as u64
            }
        },
    decreases count,
{
    if count > 0 {
        lemma_table_entries(property_offset, payload, widths, (count - 1) as nat, k);
    }
}

/// Units without stored offsets follow each other without a gap: the first
/// begins at the beginning, and each next one where the one before ends.
pub proof fn lemma_units_without_offsets(
    property_offset: u64,
    payload: Seq<u8>,
    size_code: int,
    k: int,
)
    requires
        payload.len() >= 9,
        payload[0] == 0,
        0 <= size_code < 5,
        payload[4] == 4 * size_code,
        0 <= k,
    ensures
        unit_table(property_offset, payload) matches Ok(units) ==> {
            &&& units.len() > 0 ==> units[0].offset == 0
            &&& k + 1 < units.len() ==> units[k + 1].offset == units[k].offset + units[k].size
        },
{
    let width = if size_code == 0 {
        1int
    } else if size_code == 4 {
        8int
    } else {
        size_code + 1
    };
    let count = be_value(payload.subrange(5, 9));
    lemma_four_bytes_spell(payload.subrange(5, 9));
    assert((4 * size_code) / 32 == 0);
    assert(((4 * size_code) / 4) % 8 == size_code);
    if let Ok(units) = unit_table(property_offset, payload) {
        lemma_table_entries(property_offset, payload, (0, width), count as nat, 0);
        lemma_table_entries(property_offset, payload, (0, width), count as nat, k);
        lemma_table_entries(property_offset, payload, (0, width), count as nat, k + 1);
        if k + 1 < units.len() {
            lemma_sizes_fit(property_offset, payload, width, count as nat, (k + 1) as nat);
            lemma_sizes_fit(property_offset, payload, width, count as nat, k as nat);
            let field = payload.subrange(9 + k * (0 + width) + 0, 9 + k * (0 + width) + 0 + width);
            crate::bytes::lemma_be_value_bound(field);
            assert(be_value(field) == unit_size(payload, 0, width, k));
            lemma_sizes_positive(payload, width, k as nat);
        }
    }
}

/// Where a table is accepted, the sizes before any of its units can be written
/// down.
proof fn lemma_sizes_fit(property_offset: u64, payload: Seq<u8>, width: int, count: nat, few: nat)
    requires
        table_units(property_offset, payload, 0, width, count) is Ok,
        few <= count,
    ensures
        sizes_before(payload, 0, width, few) <= u64::MAX,
    decreases count,
{
    if few < count {
        lemma_sizes_fit(property_offset, payload, width, (count - 1) as nat, few);
    }
}

/// Sizes are not below zero.
proof fn lemma_sizes_positive(payload: Seq<u8>, width: int, count: nat)
    ensures
        0 <= sizes_before(payload, 0, width, count),
    decreases count,
{
    if count > 0 {
        lemma_sizes_positive(payload, width, (count - 1) as nat);
        let at = 9 + (count - 1) * (0 + width) + 0;
        crate::bytes::lemma_be_value_bound(payload.subrange(at, at + width));
    }
}

/// A unit is the part of the payload that begins at its offset and is as long
/// as its size. It is refused exactly where the payload ends before.
pub proof fn lemma_unit_of_payload(payload: Seq<u8>, unit: GenericCompressedUnit, index: int)
    requires
        payload.len() <= usize::MAX,
    ensures
        unit_bytes(payload, unit, index) is Ok <==> unit.offset + unit.size <= payload.len(),
        unit_bytes(payload, unit, index) matches Ok(bytes) ==> bytes == payload.subrange(
            unit.offset as int,
            unit.offset + unit.size,
        ),
{
}

/// Units are unpacked one after the other, and what they hold stands one
/// behind the other.
pub proof fn lemma_units_follow(
    method: FourCc,
    payload: Seq<u8>,
    units: Seq<GenericCompressedUnit>,
    count: nat,
)
    requires
        count < units.len(),
    ensures
        units_unpacked(method, payload, units, 0) == Ok::<Seq<u8>, UnpackError>(Seq::empty()),
        units_unpacked(method, payload, units, count + 1) matches Ok(all) ==> {
            &&& units_unpacked(method, payload, units, count) is Ok
            &&& unit_bytes(payload, units[count as int], count as int) is Ok
            &&& unit_unpacked(
                method,
                unit_bytes(payload, units[count as int], count as int)->Ok_0,
                count as int,
            ) is Ok
            &&& all == units_unpacked(method, payload, units, count)->Ok_0 + unit_unpacked(
                method,
                unit_bytes(payload, units[count as int], count as int)->Ok_0,
                count as int,
            )->Ok_0
        },
{
}

/// A payload without a configuration is not compressed. One with a
/// configuration for the whole item and without a table is one unit.
pub proof fn lemma_payload_of_one_unit(
    item_id: u32,
    properties: &UncompressedGenericCompressionProperties,
    payload: Seq<u8>,
)
    requires
        properties.unit_tables@.len() == 0,
        payload.len() <= usize::MAX,
        payload.len() <= u64::MAX,
    ensures
        properties.configurations@.len() == 0 ==> payload_unpacked(item_id, properties, payload)
            == Ok::<Seq<u8>, UnpackError>(payload),
        properties.configurations@.len() == 1 ==> (match configuration(
            properties.configurations@[0].offset,
            properties.configurations@[0].payload@,
        ) {
            Ok(config) => (config.compressed_unit_type <= 1 ==> (match unit_unpacked(
                config.compression_type,
                payload,
                0,
            ) {
                Ok(bytes) => payload_unpacked(item_id, properties, payload) == Ok::<
                    Seq<u8>,
                    UnpackError,
                >(bytes),
                Err(_) => payload_unpacked(item_id, properties, payload) is Err,
            })) && (config.compressed_unit_type > 1 ==> payload_unpacked(
                item_id,
                properties,
                payload,
            ) is Err),
            Err(_) => payload_unpacked(item_id, properties, payload) is Err,
        }),
{
    reveal_with_fuel(units_unpacked, 2);
    assert(payload.subrange(0, payload.len() as int) =~= payload);
    assert forall|bytes: Seq<u8>| #[trigger] (Seq::<u8>::empty() + bytes) == bytes by {
        assert(Seq::<u8>::empty() + bytes =~= bytes);
    }
}

/// The tiles of a component stand one behind the other, and those of the next
/// component behind them: a component begins so many tiles behind the one
/// before it as there are tiles. The bytes of a tile are its part of each
/// component, in order.
pub proof fn lemma_tiles_of_components(
    payload: Seq<u8>,
    sizes: Seq<usize>,
    bases: Seq<usize>,
    tiles: int,
    index: int,
    count: nat,
)
    requires
        component_bases(sizes, tiles, (count + 1) as nat) == Ok::<
            Seq<usize>,
            DecodeUncompressedError,
        >(bases),
        0 <= tiles,
    ensures
        bases.len() == count + 2,
        bases[count as int + 1] == bases[count as int] + sizes[count as int] * tiles,
        component_bases(sizes, tiles, 0) == Ok::<Seq<usize>, DecodeUncompressedError>(seq![0usize]),
        tile_payload(payload, sizes, bases, index, count + 1) == tile_payload(
            payload,
            sizes,
            bases,
            index,
            count,
        ) + payload.subrange(
            bases[count as int] + sizes[count as int] * index,
            bases[count as int] + sizes[count as int] * index + sizes[count as int],
        ),
{
    lemma_bases_count(sizes, tiles, count);
    let before = component_bases(sizes, tiles, count)->Ok_0;
    let size = sizes[count as int] as int;
    assert(0 <= size * tiles) by (nonlinear_arith)
        requires
            0 <= size,
            0 <= tiles,
    ;
    assert(bases == before.push((before.last() + sizes[count as int] * tiles) as usize));
}

/// There is one base more than there are components.
proof fn lemma_bases_count(sizes: Seq<usize>, tiles: int, count: nat)
    ensures
        component_bases(sizes, tiles, count) matches Ok(bases) ==> bases.len() == count + 1,
    decreases count,
{
    if count > 0 {
        lemma_bases_count(sizes, tiles, (count - 1) as nat);
    }
}

/// A tile of bytes without alignment has one byte for every column and row of
/// pixels, or for two that share a sample.
pub proof fn lemma_bytes_of_tile(
    spec: UncompressedComponentDecodeSpec,
    width: int,
    height: int,
    sampling_type: u8,
)
    requires
        spec.bit_depth == 8,
        spec.component_align_size == 0,
        sampling_type <= 2,
        0 < width <= 65535,
        0 < height <= 8191,
        width % 2 == 0,
        height % 2 == 0,
    ensures
        ({
            let chroma = spec.role.is_chroma();
            let expected = if chroma && sampling_type == 2 {
                (width / 2) * (height / 2)
            } else if chroma && sampling_type == 1 {
                (width / 2) * height
            } else {
                width * height
            };
            tile_bytes(spec, width, height, 0, 0, sampling_type) == Ok::<
                int,
                DecodeUncompressedError,
            >(expected)
        }),
{
    let (half_w, half_h) = (width / 2, height / 2);
    assert(width / 1 == width && height / 1 == height && width % 1 == 0 && height % 1 == 0);
    assert((8 * width + 7) / 8 == width && (8 * half_w + 7) / 8 == half_w);
    assert(0 <= width * height <= 65535 * 8191 && 0 <= half_w * half_h <= 65535 * 8191 && 0
        <= half_w * height <= 65535 * 8191) by (nonlinear_arith)
        requires
            0 < width <= 65535,
            0 < height <= 8191,
            0 <= half_w <= width,
            0 <= half_h <= height,
    ;
}

} // verus!
