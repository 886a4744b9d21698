//! Generic compression of uncompressed items: the `cmpC` property names the
//! method, the `icef` property lists the units that are unpacked one by one.
use super::reader::{invalid_input, unsupported_feature};
#[allow(unused_imports)]
use super::reader::{invalid, unsupported};
#[allow(unused_imports)]
use crate::bytes::be_value;
use crate::bytes::{read_be, read_u32_be_from};
use crate::errors::{DecodeUncompressedError, InputFault};
#[allow(unused_imports)]
use crate::fourcc::spells;
use crate::fourcc::{four_cc_is, FourCc};
use crate::text::{Arg, Detail};
use std::io::Read;
use vstd::prelude::*;
use vstd::slice::slice_subrange;

verus! {

/// `compressed_unit_type`: the whole item is one unit.
pub const GENERIC_COMPRESSED_UNIT_FULL_ITEM: u8 = 0;

/// `compressed_unit_type`: the image is one unit.
pub const GENERIC_COMPRESSED_UNIT_IMAGE: u8 = 1;

/// `compressed_unit_type`: each tile is a unit.
pub const GENERIC_COMPRESSED_UNIT_IMAGE_TILE: u8 = 2;

/// `compressed_unit_type`: each row is a unit.
pub const GENERIC_COMPRESSED_UNIT_IMAGE_ROW: u8 = 3;

/// `compressed_unit_type`: each pixel is a unit.
pub const GENERIC_COMPRESSED_UNIT_IMAGE_PIXEL: u8 = 4;

/// A property as it stands in the file.
#[derive(Clone, Debug, PartialEq, Eq)]
pub struct RawProperty {
    pub offset: u64,
    pub payload: Vec<u8>,
}

/// The generic compression properties of an item.
#[derive(Clone, Debug, PartialEq, Eq)]
pub struct UncompressedGenericCompressionProperties {
    /// The `cmpC` properties.
    pub configurations: Vec<RawProperty>,
    /// The `icef` properties.
    pub unit_tables: Vec<RawProperty>,
}

/// One compressed unit of a payload.
#[derive(Clone, Copy, Debug, PartialEq, Eq, Structural)]
pub struct GenericCompressedUnit {
    pub offset: u64,
    pub size: u64,
}

/// What a `cmpC` property says.
#[derive(Clone, Copy, Debug, PartialEq, Eq)]
pub struct PrimaryUncompressedGenericCompressionConfig {
    pub compression_type: FourCc,
    pub compressed_unit_type: u8,
}

/// The method of compression and the units.
#[derive(Clone, Debug, PartialEq, Eq)]
pub struct PrimaryUncompressedGenericCompression {
    pub config: PrimaryUncompressedGenericCompressionConfig,
    pub units: Vec<GenericCompressedUnit>,
}

/// What `brotli::Decompressor` makes of the bytes: their unpacked form, or the
/// text of the error.
pub uninterp spec fn brotli_unpacked(data: Seq<u8>) -> Result<Seq<u8>, Seq<char>>;

/// What `flate2::read::ZlibDecoder` makes of the bytes: their unpacked form,
/// or the text of the error.
pub uninterp spec fn zlib_unpacked(data: Seq<u8>) -> Result<Seq<u8>, Seq<char>>;

/// What `flate2::read::DeflateDecoder` makes of the bytes: their unpacked
/// form, or the text of the error.
pub uninterp spec fn deflate_unpacked(data: Seq<u8>) -> Result<Seq<u8>, Seq<char>>;

/// The bytes or the text of an unpacking.
pub open spec fn unpacking(result: Result<Vec<u8>, String>) -> Result<Seq<u8>, Seq<char>> {
    match result {
        Ok(bytes) => Ok(bytes@),
        Err(text) => Err(text@),
    }
}

/// Reads a `brotli::Decompressor` over the bytes, with an input buffer of
/// 4096 bytes, to its end. What comes out has the name `brotli_unpacked`.
#[verifier::external_body]
fn brotli_decompress(data: &[u8]) -> (result: Result<Vec<u8>, String>)
    ensures
        unpacking(result) == brotli_unpacked(data@),
{
    let mut unpacked = Vec::new();
    match brotli::Decompressor::new(data, 4096).read_to_end(&mut unpacked) {
        Ok(_) => Ok(unpacked),
        Err(error) => Err(error.to_string()),
    }
}

/// Reads a `flate2::read::ZlibDecoder` over the bytes to its end. What comes
/// out has the name `zlib_unpacked`.
#[verifier::external_body]
fn zlib_decompress(data: &[u8]) -> (result: Result<Vec<u8>, String>)
    ensures
        unpacking(result) == zlib_unpacked(data@),
{
    let mut unpacked = Vec::new();
    match flate2::read::ZlibDecoder::new(data).read_to_end(&mut unpacked) {
        Ok(_) => Ok(unpacked),
        Err(error) => Err(error.to_string()),
    }
}

/// Reads a `flate2::read::DeflateDecoder` over the bytes to its end. What
/// comes out has the name `deflate_unpacked`.
#[verifier::external_body]
fn deflate_decompress(data: &[u8]) -> (result: Result<Vec<u8>, String>)
    ensures
        unpacking(result) == deflate_unpacked(data@),
{
    let mut unpacked = Vec::new();
    match flate2::read::DeflateDecoder::new(data).read_to_end(&mut unpacked) {
        Ok(_) => Ok(unpacked),
        Err(error) => Err(error.to_string()),
    }
}

/// Why an item's payload cannot be had.
pub enum UnpackError {
    /// An error of the properties or of a unit's place.
    Known(DecodeUncompressedError),
    /// A unit that its method could not unpack, with the text of the reason.
    Failed { method: &'static str, unit_index: int, reason: Seq<char> },
}

/// Whether an error reports what went wrong.
pub open spec fn reports(error: DecodeUncompressedError, why: UnpackError) -> bool {
    match why {
        UnpackError::Known(known) => error == known,
        UnpackError::Failed { method: m, unit_index: u, reason: r } => match error {
            DecodeUncompressedError::InvalidInput {
                detail: InputFault::Unpacking { method, unit_index, reason },
            } => method == m && unit_index == u && reason@ == r,
            _ => false,
        },
    }
}

/// The unpacked form of a unit.
pub open spec fn unit_unpacked(compression_type: FourCc, data: Seq<u8>, unit_index: int) -> Result<
    Seq<u8>,
    UnpackError,
> {
    let brotli = spells(compression_type, 'b' as u8, 'r' as u8, 'o' as u8, 't' as u8);
    let zlib = spells(compression_type, 'z' as u8, 'l' as u8, 'i' as u8, 'b' as u8);
    let deflate = spells(compression_type, 'd' as u8, 'e' as u8, 'f' as u8, 'l' as u8);
    let method = if brotli {
        "brotli"
    } else if zlib {
        "zlib"
    } else {
        "deflate"
    };
    let outcome = if brotli {
        brotli_unpacked(data)
    } else if zlib {
        zlib_unpacked(data)
    } else {
        deflate_unpacked(data)
    };
    if !brotli && !zlib && !deflate {
        Err(
            UnpackError::Known(
                unsupported(
                    Detail::One(
                        "unsupported cmpC compression_type {} for generic-compressed uncompressed (`unci`) payload",
                        Arg::FourCc(compression_type),
                    ),
                ),
            ),
        )
    } else {
        match outcome {
            Ok(bytes) => Ok(bytes),
            Err(reason) => Err(UnpackError::Failed { method, unit_index, reason }),
        }
    }
}

/// Unpacks one unit.
pub fn decompress_generic_compressed_unit(
    compression_type: FourCc,
    compressed_data: &[u8],
    unit_index: usize,
) -> (result: Result<Vec<u8>, DecodeUncompressedError>)
    ensures
        match unit_unpacked(compression_type, compressed_data@, unit_index as int) {
            Ok(bytes) => result is Ok && result->Ok_0@ == bytes,
            Err(why) => result is Err && reports(result->Err_0, why),
        },
{
    let (method, outcome): (&'static str, Result<Vec<u8>, String>) = if four_cc_is(
        compression_type,
        'b' as u8,
        'r' as u8,
        'o' as u8,
        't' as u8,
    ) {
        ("brotli", brotli_decompress(compressed_data))
    } else if four_cc_is(compression_type, 'z' as u8, 'l' as u8, 'i' as u8, 'b' as u8) {
        ("zlib", zlib_decompress(compressed_data))
    } else if four_cc_is(compression_type, 'd' as u8, 'e' as u8, 'f' as u8, 'l' as u8) {
        ("deflate", deflate_decompress(compressed_data))
    } else {
        return unsupported_feature(
            Detail::One(
                "unsupported cmpC compression_type {} for generic-compressed uncompressed (`unci`) payload",
                Arg::FourCc(compression_type),
            ),
        );
    };
    match outcome {
        Ok(bytes) => Ok(bytes),
        Err(reason) => Err(
            DecodeUncompressedError::InvalidInput {
                detail: InputFault::Unpacking { method, unit_index, reason },
            },
        ),
    }
}

/// What a `cmpC` property says, where it is sound.
pub open spec fn configuration(
    property_offset: u64,
    payload: Seq<u8>,
) -> Result<PrimaryUncompressedGenericCompressionConfig, DecodeUncompressedError> {
    if payload.len() < 9 {
        Err(
            invalid(
                Detail::Two(
                    "cmpC payload too small at offset {} (available: {}, required: 9)",
                    Arg::Num(property_offset as i128),
                    Arg::Num(payload.len() as i128),
                ),
            ),
        )
    } else if payload[0] != 0 {
        Err(
            unsupported(
                Detail::Two(
                    "unsupported cmpC full box version {} at offset {}",
                    Arg::Num(payload[0] as i128),
                    Arg::Num(property_offset as i128),
                ),
            ),
        )
    } else if payload[8] > GENERIC_COMPRESSED_UNIT_IMAGE_PIXEL {
        Err(
            unsupported(
                Detail::Two(
                    "unsupported cmpC compressed_unit_type {} at offset {}",
                    Arg::Num(payload[8] as i128),
                    Arg::Num(property_offset as i128),
                ),
            ),
        )
    } else {
        Ok(
            PrimaryUncompressedGenericCompressionConfig {
                compression_type: [payload[4], payload[5], payload[6], payload[7]],
                compressed_unit_type: payload[8],
            },
        )
    }
}

/// Reads a `cmpC` property.
pub fn parse_primary_uncompressed_compression_configuration(
    property_offset: u64,
    payload: &[u8],
) -> (result: Result<PrimaryUncompressedGenericCompressionConfig, DecodeUncompressedError>)
    ensures
        result == configuration(property_offset, payload@),
{
    if payload.len() < 9 {
        return invalid_input(
            Detail::Two(
                "cmpC payload too small at offset {} (available: {}, required: 9)",
                Arg::Num(property_offset as i128),
                Arg::Num(payload.len() as i128),
            ),
        );
    }
    let version: u8 = payload[0];
    if version != 0 {
        return unsupported_feature(
            Detail::Two(
                "unsupported cmpC full box version {} at offset {}",
                Arg::Num(version as i128),
                Arg::Num(property_offset as i128),
            ),
        );
    }
    let compressed_unit_type: u8 = payload[8];
    if compressed_unit_type > GENERIC_COMPRESSED_UNIT_IMAGE_PIXEL {
        return unsupported_feature(
            Detail::Two(
                "unsupported cmpC compressed_unit_type {} at offset {}",
                Arg::Num(compressed_unit_type as i128),
                Arg::Num(property_offset as i128),
            ),
        );
    }
    let compression_type: FourCc = [payload[4], payload[5], payload[6], payload[7]];
    Ok(PrimaryUncompressedGenericCompressionConfig { compression_type, compressed_unit_type })
}

/// The bytes of an offset field for each code: the code zero stands for
/// offsets that are not stored.
pub open spec fn offset_field_bytes(code: int) -> int {
    if code == 0 {
        0
    } else if code == 1 {
        2
    } else if code == 2 {
        3
    } else if code == 3 {
        4
    } else {
        8
    }
}

/// The bytes of a size field for each code.
pub open spec fn size_field_bytes(code: int) -> int {
    if code == 0 {
        1
    } else if code == 1 {
        2
    } else if code == 2 {
        3
    } else if code == 3 {
        4
    } else {
        8
    }
}

/// The size of the unit at `index` of the table.
pub open spec fn unit_size(
    payload: Seq<u8>,
    offset_bytes: int,
    size_bytes: int,
    index: int,
) -> int {
    let at = 9 + index * (offset_bytes + size_bytes) + offset_bytes;
    be_value(payload.subrange(at, at + size_bytes))
}

/// The sum of the sizes of the first `count` units.
pub open spec fn sizes_before(
    payload: Seq<u8>,
    offset_bytes: int,
    size_bytes: int,
    count: nat,
) -> int
    decreases count,
{
    if count == 0 {
        0
    } else {
        sizes_before(payload, offset_bytes, size_bytes, (count - 1) as nat) + unit_size(
            payload,
            offset_bytes,
            size_bytes,
            count - 1,
        )
    }
}

/// The offset of the unit at `index`: as stored, else behind the unit before.
pub open spec fn unit_offset(
    payload: Seq<u8>,
    offset_bytes: int,
    size_bytes: int,
    index: int,
) -> int {
    if offset_bytes == 0 {
        sizes_before(payload, offset_bytes, size_bytes, index as nat)
    } else {
        let at = 9 + index * (offset_bytes + size_bytes);
        be_value(payload.subrange(at, at + offset_bytes))
    }
}

/// The first `count` units of the table, up to the first whose end cannot be
/// represented.
pub open spec fn table_units(
    property_offset: u64,
    payload: Seq<u8>,
    offset_bytes: int,
    size_bytes: int,
    count: nat,
) -> Result<Seq<GenericCompressedUnit>, DecodeUncompressedError>
    decreases count,
{
    if count == 0 {
        Ok(Seq::empty())
    } else {
        match table_units(
            property_offset,
            payload,
            offset_bytes,
            size_bytes,
            (count - 1) as nat,
        ) {
            Err(e) => Err(e),
            Ok(units) => if sizes_before(payload, offset_bytes, size_bytes, count) > u64::MAX {
                Err(
                    invalid(
                        Detail::Two(
                            "icef implied offset overflow while parsing unit {} at offset {}",
                            Arg::Num((count - 1) as i128),
                            Arg::Num(property_offset as i128),
                        ),
                    ),
                )
            } else {
                Ok(
                    units.push(
                        GenericCompressedUnit {
                            offset: unit_offset(
                                payload,
                                offset_bytes,
                                size_bytes,
                                count - 1,
                            ) as u64,
                            size: unit_size(payload, offset_bytes, size_bytes, count - 1) as u64,
                        },
                    ),
                )
            },
        }
    }
}

/// What an `icef` property says, where it is sound.
pub open spec fn unit_table(property_offset: u64, payload: Seq<u8>) -> Result<
    Seq<GenericCompressedUnit>,
    DecodeUncompressedError,
> {
    let offset_code = payload[4] as int / 32;
    let size_code = (payload[4] as int / 4) % 8;
    let count = be_value(payload.subrange(5, 9));
    let offset_bytes = offset_field_bytes(offset_code);
    let size_bytes = size_field_bytes(size_code);
    let required = (offset_bytes + size_bytes) * count;
    if payload.len() < 9 {
        Err(
            invalid(
                Detail::Two(
                    "icef payload too small at offset {} (available: {}, required: 9)",
                    Arg::Num(property_offset as i128),
                    Arg::Num(payload.len() as i128),
                ),
            ),
        )
    } else if payload[0] != 0 {
        Err(
            unsupported(
                Detail::Two(
                    "unsupported icef full box version {} at offset {}",
                    Arg::Num(payload[0] as i128),
                    Arg::Num(property_offset as i128),
                ),
            ),
        )
    } else if offset_code >= 5 {
        Err(
            invalid(
                Detail::Two(
                    "unsupported icef unit_offset_code {} at offset {}",
                    Arg::Num(offset_code as i128),
                    Arg::Num(property_offset as i128),
                ),
            ),
        )
    } else if size_code >= 5 {
        Err(
            invalid(
                Detail::Two(
                    "unsupported icef unit_size_code {} at offset {}",
                    Arg::Num(size_code as i128),
                    Arg::Num(property_offset as i128),
                ),
            ),
        )
    } else if required > usize::MAX {
        Err(
            invalid(
                Detail::Two(
                    "icef table-size overflow at offset {} for unit_count {}",
                    Arg::Num(property_offset as i128),
                    Arg::Num(count as i128),
                ),
            ),
        )
    } else if payload.len() - 9 < required {
        Err(
            invalid(
                Detail::Four(
                    "icef payload too small for {} unit entries at offset {} (available: {}, required: {})",
                    Arg::Num(count as i128),
                    Arg::Num(property_offset as i128),
                    Arg::Num((payload.len() - 9) as i128),
                    Arg::Num(required as i128),
                ),
            ),
        )
    } else {
        table_units(property_offset, payload, offset_bytes, size_bytes, count as nat)
    }
}

proof fn lemma_table_units_error(
    property_offset: u64,
    payload: Seq<u8>,
    offset_bytes: int,
    size_bytes: int,
    few: nat,
    many: nat,
)
    requires
        few <= many,
        table_units(property_offset, payload, offset_bytes, size_bytes, few) is Err,
    ensures
        table_units(property_offset, payload, offset_bytes, size_bytes, many) == table_units(
            property_offset,
            payload,
            offset_bytes,
            size_bytes,
            few,
        ),
    decreases many - few,
{
    if few < many {
        lemma_table_units_error(
            property_offset,
            payload,
            offset_bytes,
            size_bytes,
            few,
            (many - 1) as nat,
        );
    }
}

/// Reads an `icef` property.
pub fn parse_primary_uncompressed_icef_property(
    property_offset: u64,
    payload: &[u8],
) -> (result: Result<Vec<GenericCompressedUnit>, DecodeUncompressedError>)
    ensures
        match unit_table(property_offset, payload@) {
            Ok(units) => result is Ok && result->Ok_0@ == units,
            Err(e) => result == Err::<Vec<GenericCompressedUnit>, DecodeUncompressedError>(e),
        },
{
    if payload.len() < 9 {
        return invalid_input(
            Detail::Two(
                "icef payload too small at offset {} (available: {}, required: 9)",
                Arg::Num(property_offset as i128),
                Arg::Num(payload.len() as i128),
            ),
        );
    }
    let version: u8 = payload[0];
    if version != 0 {
        return unsupported_feature(
            Detail::Two(
                "unsupported icef full box version {} at offset {}",
                Arg::Num(version as i128),
                Arg::Num(property_offset as i128),
            ),
        );
    }
    let codes: u8 = payload[4];
    let unit_offset_code: u8 = (codes & 0b1110_0000) >> 5;
    let unit_size_code: u8 = (codes & 0b0001_1100) >> 2;
    assert(unit_offset_code == codes / 32) by (bit_vector)
        requires
            unit_offset_code == (codes & 0b1110_0000) >> 5,
    ;
    assert(unit_size_code == (codes / 4) % 8) by (bit_vector)
        requires
            unit_size_code == (codes & 0b0001_1100) >> 2,
    ;
    if unit_offset_code >= 5 {
        return invalid_input(
            Detail::Two(
                "unsupported icef unit_offset_code {} at offset {}",
                Arg::Num(unit_offset_code as i128),
                Arg::Num(property_offset as i128),
            ),
        );
    }
    if unit_size_code >= 5 {
        return invalid_input(
            Detail::Two(
                "unsupported icef unit_size_code {} at offset {}",
                Arg::Num(unit_size_code as i128),
                Arg::Num(property_offset as i128),
            ),
        );
    }
    assert(slice_view_at(payload@, 5).subrange(0, 4) =~= payload@.subrange(5, 9));
    let unit_count: usize = read_u32_be_from(slice_subrange(payload, 5, payload.len())) as usize;
    let offset_bytes: usize = match unit_offset_code {
        0 => 0,
        1 => 2,
        2 => 3,
        3 => 4,
        _ => 8,
    };
    let size_bytes: usize = match unit_size_code {
        0 => 1,
        1 => 2,
        2 => 3,
        3 => 4,
        _ => 8,
    };
    let entry_bytes: usize = offset_bytes + size_bytes;
    let required: usize = match entry_bytes.checked_mul(unit_count) {
        Some(required) => required,
        None => {
            return invalid_input(
                Detail::Two(
                    "icef table-size overflow at offset {} for unit_count {}",
                    Arg::Num(property_offset as i128),
                    Arg::Num(unit_count as i128),
                ),
            );
        },
    };
    let available: usize = payload.len() - 9;
    if available < required {
        return invalid_input(
            Detail::Four(
                "icef payload too small for {} unit entries at offset {} (available: {}, required: {})",
                Arg::Num(unit_count as i128),
                Arg::Num(property_offset as i128),
                Arg::Num(available as i128),
                Arg::Num(required as i128),
            ),
        );
    }
    let ghost ob = offset_bytes as int;
    let ghost sb = size_bytes as int;
    let mut cursor: usize = 9;
    let mut implied_offset: u64 = 0;
    let mut units: Vec<GenericCompressedUnit> = Vec::new();
    let mut unit_index: usize = 0;
    while unit_index < unit_count
        invariant
            unit_index <= unit_count,
            ob == offset_bytes,
            sb == size_bytes,
            0 <= ob <= 8,
            1 <= sb <= 8,
            available == payload@.len() - 9,
            available + 9 <= usize::MAX,
            (ob + sb) * unit_count <= available,
            cursor == 9 + unit_index * (ob + sb),
            unit_table(property_offset, payload@) == table_units(
                property_offset,
                payload@,
                ob,
                sb,
                unit_count as nat,
            ),
            implied_offset == sizes_before(payload@, ob, sb, unit_index as nat),
            table_units(property_offset, payload@, ob, sb, unit_index as nat) == Ok::<
                Seq<GenericCompressedUnit>,
                DecodeUncompressedError,
            >(units@),
        decreases unit_count - unit_index,
    {
        proof {
            assert(unit_index * (ob + sb) + (ob + sb) <= (ob + sb) * unit_count)
                by (nonlinear_arith)
                requires
                    unit_index + 1 <= unit_count,
                    ob + sb >= 0,
            ;
            assert((unit_index + 1) * (ob + sb) == unit_index * (ob + sb) + (ob + sb))
                by (nonlinear_arith);
        }
        let size_at: usize = cursor + offset_bytes;
        let offset: u64 = if offset_bytes == 0 {
            implied_offset
        } else {
            read_be(payload, cursor, size_at)
        };
        let next: usize = size_at + size_bytes;
        let size: u64 = read_be(payload, size_at, next);
        cursor = next;
        implied_offset =
        match implied_offset.checked_add(size) {
            Some(implied) => implied,
            None => {
                proof {
                    lemma_table_units_error(
                        property_offset,
                        payload@,
                        ob,
                        sb,
                        (unit_index + 1) as nat,
                        unit_count as nat,
                    );
                }
                return invalid_input(
                    Detail::Two(
                        "icef implied offset overflow while parsing unit {} at offset {}",
                        Arg::Num(unit_index as i128),
                        Arg::Num(property_offset as i128),
                    ),
                );
            },
        };
        units.push(GenericCompressedUnit { offset, size });
        unit_index = unit_index + 1;
    }
    Ok(units)
}

/// The bytes from `start` on.
spec fn slice_view_at(bytes: Seq<u8>, start: int) -> Seq<u8> {
    bytes.subrange(start, bytes.len() as int)
}

/// The method and the units that the properties of an item announce; without
/// a `cmpC` property the item is not compressed.
pub open spec fn announced(
    item_id: u32,
    properties: &UncompressedGenericCompressionProperties,
) -> Result<
    Option<(PrimaryUncompressedGenericCompressionConfig, Seq<GenericCompressedUnit>)>,
    DecodeUncompressedError,
> {
    if properties.configurations@.len() > 1 {
        Err(
            invalid(
                Detail::One(
                    "primary item_ID {} has duplicate cmpC properties",
                    Arg::Num(item_id as i128),
                ),
            ),
        )
    } else if properties.unit_tables@.len() > 1 {
        Err(
            invalid(
                Detail::One(
                    "primary item_ID {} has duplicate icef properties",
                    Arg::Num(item_id as i128),
                ),
            ),
        )
    } else if properties.configurations@.len() == 0 {
        Ok(None)
    } else {
        match configuration(
            properties.configurations@[0].offset,
            properties.configurations@[0].payload@,
        ) {
            Err(e) => Err(e),
            Ok(config) => if properties.unit_tables@.len() == 0 {
                Ok(Some((config, Seq::empty())))
            } else {
                match unit_table(
                    properties.unit_tables@[0].offset,
                    properties.unit_tables@[0].payload@,
                ) {
                    Err(e) => Err(e),
                    Ok(units) => Ok(Some((config, units))),
                }
            },
        }
    }
}

/// Reads the generic compression properties of an item.
pub fn parse_primary_uncompressed_generic_compression(
    item_id: u32,
    generic_compression_properties: &UncompressedGenericCompressionProperties,
) -> (result: Result<Option<PrimaryUncompressedGenericCompression>, DecodeUncompressedError>)
    ensures
        match announced(item_id, generic_compression_properties) {
            Ok(None) => result == Ok::<
                Option<PrimaryUncompressedGenericCompression>,
                DecodeUncompressedError,
            >(None),
            Ok(Some((config, units))) => {
                &&& result is Ok
                &&& result->Ok_0 is Some
                &&& result->Ok_0->0.config == config
                &&& result->Ok_0->0.units@ == units
            },
            Err(e) => result == Err::<
                Option<PrimaryUncompressedGenericCompression>,
                DecodeUncompressedError,
            >(e),
        },
{
    let properties: &UncompressedGenericCompressionProperties = generic_compression_properties;
    if properties.configurations.len() > 1 {
        return invalid_input(
            Detail::One(
                "primary item_ID {} has duplicate cmpC properties",
                Arg::Num(item_id as i128),
            ),
        );
    }
    if properties.unit_tables.len() > 1 {
        return invalid_input(
            Detail::One(
                "primary item_ID {} has duplicate icef properties",
                Arg::Num(item_id as i128),
            ),
        );
    }
    if properties.configurations.len() == 0 {
        return Ok(None);
    }
    let config: PrimaryUncompressedGenericCompressionConfig =
        parse_primary_uncompressed_compression_configuration(
        properties.configurations[0].offset,
        properties.configurations[0].payload.as_slice(),
    )?;
    let units: Vec<GenericCompressedUnit> = if properties.unit_tables.len() == 0 {
        Vec::new()
    } else {
        parse_primary_uncompressed_icef_property(
            properties.unit_tables[0].offset,
            properties.unit_tables[0].payload.as_slice(),
        )?
    };
    Ok(Some(PrimaryUncompressedGenericCompression { config, units }))
}

/// The bytes of a unit, where it lies within the payload.
pub open spec fn unit_bytes(payload: Seq<u8>, unit: GenericCompressedUnit, unit_index: int) -> Result<
    Seq<u8>,
    DecodeUncompressedError,
> {
    if unit.offset > usize::MAX {
        Err(
            invalid(
                Detail::Two(
                    "generic-compressed unit {} offset {} cannot be represented on this platform",
                    Arg::Num(unit_index as i128),
                    Arg::Num(unit.offset as i128),
                ),
            ),
        )
    } else if unit.size > usize::MAX {
        Err(
            invalid(
                Detail::Two(
                    "generic-compressed unit {} size {} cannot be represented on this platform",
                    Arg::Num(unit_index as i128),
                    Arg::Num(unit.size as i128),
                ),
            ),
        )
    } else if unit.offset + unit.size > usize::MAX {
        Err(
            invalid(
                Detail::Three(
                    "generic-compressed unit {} range overflow for offset {} and size {}",
                    Arg::Num(unit_index as i128),
                    Arg::Num(unit.offset as i128),
                    Arg::Num(unit.size as i128),
                ),
            ),
        )
    } else if unit.offset + unit.size > payload.len() {
        Err(
            invalid(
                Detail::Four(
                    "generic-compressed unit {} range {}..{} exceeds payload size {}",
                    Arg::Num(unit_index as i128),
                    Arg::Num(unit.offset as i128),
                    Arg::Num((unit.offset + unit.size) as i128),
                    Arg::Num(payload.len() as i128),
                ),
            ),
        )
    } else {
        Ok(payload.subrange(unit.offset as int, unit.offset + unit.size))
    }
}

/// The unpacked forms of the first `count` units, one behind the other.
pub open spec fn units_unpacked(
    compression_type: FourCc,
    payload: Seq<u8>,
    units: Seq<GenericCompressedUnit>,
    count: nat,
) -> Result<Seq<u8>, UnpackError>
    decreases count,
{
    if count == 0 {
        Ok(Seq::empty())
    } else {
        match units_unpacked(compression_type, payload, units, (count - 1) as nat) {
            Err(why) => Err(why),
            Ok(before) => match unit_bytes(payload, units[count - 1], count - 1) {
                Err(e) => Err(UnpackError::Known(e)),
                Ok(data) => match unit_unpacked(compression_type, data, count - 1) {
                    Err(why) => Err(why),
                    Ok(bytes) => Ok(before + bytes),
                },
            },
        }
    }
}

/// The payload of an item once it is unpacked. Without a table of units the
/// whole payload is one unit, except where tiles or rows are units.
pub open spec fn payload_unpacked(
    item_id: u32,
    properties: &UncompressedGenericCompressionProperties,
    payload: Seq<u8>,
) -> Result<Seq<u8>, UnpackError> {
    match announced(item_id, properties) {
        Err(e) => Err(UnpackError::Known(e)),
        Ok(None) => Ok(payload),
        Ok(Some((config, units))) => {
            let unit_type = config.compressed_unit_type;
            if unit_type == GENERIC_COMPRESSED_UNIT_IMAGE_PIXEL {
                Err(
                    UnpackError::Known(
                        unsupported(
                            Detail::Plain(
                                "unsupported cmpC compressed_unit_type 4 (image-pixel) for generic-compressed uncompressed (`unci`) payload",
                            ),
                        ),
                    ),
                )
            } else if units.len() == 0 && (unit_type == GENERIC_COMPRESSED_UNIT_IMAGE_TILE
                || unit_type == GENERIC_COMPRESSED_UNIT_IMAGE_ROW) {
                Err(
                    UnpackError::Known(
                        invalid(
                            Detail::One(
                                "cmpC compressed_unit_type {} requires associated icef unit entries",
                                Arg::Num(unit_type as i128),
                            ),
                        ),
                    ),
                )
            } else {
                let effective = if units.len() == 0 {
                    seq![GenericCompressedUnit { offset: 0, size: payload.len() as u64 }]
                } else {
                    units
                };
                units_unpacked(config.compression_type, payload, effective, effective.len())
            }
        },
    }
}

proof fn lemma_units_unpacked_error(
    compression_type: FourCc,
    payload: Seq<u8>,
    units: Seq<GenericCompressedUnit>,
    few: nat,
    many: nat,
)
    requires
        few <= many,
        units_unpacked(compression_type, payload, units, few) is Err,
    ensures
        units_unpacked(compression_type, payload, units, many) == units_unpacked(
            compression_type,
            payload,
            units,
            few,
        ),
    decreases many - few,
{
    if few < many {
        lemma_units_unpacked_error(compression_type, payload, units, few, (many - 1) as nat);
    }
}

/// Finds the bytes of a unit.
fn unit_range(payload: &[u8], unit: GenericCompressedUnit, unit_index: usize) -> (result: Result<
    (usize, usize),
    DecodeUncompressedError,
>)
    ensures
        match unit_bytes(payload@, unit, unit_index as int) {
            Ok(bytes) => {
                &&& result is Ok
                &&& result->Ok_0.0 <= result->Ok_0.1 <= payload@.len()
                &&& bytes == payload@.subrange(result->Ok_0.0 as int, result->Ok_0.1 as int)
            },
            Err(e) => result == Err::<(usize, usize), DecodeUncompressedError>(e),
        },
{
    if unit.offset > usize::MAX as u64 {
        return invalid_input(
            Detail::Two(
                "generic-compressed unit {} offset {} cannot be represented on this platform",
                Arg::Num(unit_index as i128),
                Arg::Num(unit.offset as i128),
            ),
        );
    }
    if unit.size > usize::MAX as u64 {
        return invalid_input(
            Detail::Two(
                "generic-compressed unit {} size {} cannot be represented on this platform",
                Arg::Num(unit_index as i128),
                Arg::Num(unit.size as i128),
            ),
        );
    }
    let start: usize = unit.offset as usize;
    let size: usize = unit.size as usize;
    let end: usize = match start.checked_add(size) {
        Some(end) => end,
        None => {
            return invalid_input(
                Detail::Three(
                    "generic-compressed unit {} range overflow for offset {} and size {}",
                    Arg::Num(unit_index as i128),
                    Arg::Num(unit.offset as i128),
                    Arg::Num(unit.size as i128),
                ),
            );
        },
    };
    if end > payload.len() {
        return invalid_input(
            Detail::Four(
                "generic-compressed unit {} range {}..{} exceeds payload size {}",
                Arg::Num(unit_index as i128),
                Arg::Num(unit.offset as i128),
                Arg::Num(end as i128),
                Arg::Num(payload.len() as i128),
            ),
        );
    }
    Ok((start, end))
}

/// Unpacks the payload of an item, where its properties say that it is
/// compressed.
pub fn maybe_decode_primary_uncompressed_generic_compression_payload(
    item_id: u32,
    generic_compression_properties: &UncompressedGenericCompressionProperties,
    payload: Vec<u8>,
) -> (result: Result<Vec<u8>, DecodeUncompressedError>)
    ensures
        match payload_unpacked(item_id, generic_compression_properties, payload@) {
            Ok(bytes) => result is Ok && result->Ok_0@ == bytes,
            Err(why) => result is Err && reports(result->Err_0, why),
        },
{
    let compression: PrimaryUncompressedGenericCompression =
        match parse_primary_uncompressed_generic_compression(
        item_id,
        generic_compression_properties,
    ) {
        Ok(Some(compression)) => compression,
        Ok(None) => {
            return Ok(payload);
        },
        Err(e) => {
            return Err(e);
        },
    };
    let unit_type: u8 = compression.config.compressed_unit_type;
    if unit_type == GENERIC_COMPRESSED_UNIT_IMAGE_PIXEL {
        return unsupported_feature(
            Detail::Plain(
                "unsupported cmpC compressed_unit_type 4 (image-pixel) for generic-compressed uncompressed (`unci`) payload",
            ),
        );
    }
    if compression.units.len() == 0 && (unit_type == GENERIC_COMPRESSED_UNIT_IMAGE_TILE
        || unit_type == GENERIC_COMPRESSED_UNIT_IMAGE_ROW) {
        return invalid_input(
            Detail::One(
                "cmpC compressed_unit_type {} requires associated icef unit entries",
                Arg::Num(unit_type as i128),
            ),
        );
    }
    let compression_type: FourCc = compression.config.compression_type;
    let mut units: Vec<GenericCompressedUnit> = compression.units;
    let ghost listed = units@;
    if units.len() == 0 {
        units.push(GenericCompressedUnit { offset: 0, size: payload.len() as u64 });
    }
    let ghost effective = if listed.len() == 0 {
        seq![GenericCompressedUnit { offset: 0, size: payload@.len() as u64 }]
    } else {
        listed
    };
    assert(units@ =~= effective);
    let ghost expected = payload_unpacked(item_id, generic_compression_properties, payload@);
    assert(expected == units_unpacked(compression_type, payload@, units@, units@.len()));
    let mut decompressed: Vec<u8> = Vec::new();
    let mut unit_index: usize = 0;
    while unit_index < units.len()
        invariant
            unit_index <= units@.len(),
            expected == payload_unpacked(item_id, generic_compression_properties, payload@),
            expected == units_unpacked(compression_type, payload@, units@, units@.len()),
            units_unpacked(compression_type, payload@, units@, unit_index as nat) == Ok::<
                Seq<u8>,
                UnpackError,
            >(decompressed@),
        decreases units@.len() - unit_index,
    {
        proof {
            if units_unpacked(compression_type, payload@, units@, (unit_index + 1) as nat) is Err {
                lemma_units_unpacked_error(
                    compression_type,
                    payload@,
                    units@,
                    (unit_index + 1) as nat,
                    units@.len(),
                );
            }
        }
        let (start, end): (usize, usize) = match unit_range(
            payload.as_slice(),
            units[unit_index],
            unit_index,
        ) {
            Ok(range) => range,
            Err(e) => {
                return Err(e);
            },
        };
        let mut unit_data: Vec<u8> = match decompress_generic_compressed_unit(
            compression_type,
            slice_subrange(payload.as_slice(), start, end),
            unit_index,
        ) {
            Ok(data) => data,
            Err(e) => {
                return Err(e);
            },
        };
        decompressed.append(&mut unit_data);
        unit_index = unit_index + 1;
    }
    Ok(decompressed)
}

} // verus!
