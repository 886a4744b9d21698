//! Sequence parameter sets, and what they say of the decoded image.
#[allow(unused_imports)]
use super::nal::{is_sps, payload_error, stream_error, units_from, views, NalView};
use super::nal::{
    parse_length_prefixed_hevc_nal_units, payload_cut_error, split_length_prefixed_units, Cut,
    LengthPrefixedHevcNalUnit,
};
use super::stream::HevcDecoderConfigurationBox;
#[allow(unused_imports)]
use super::stream::{assembled, lemma_assembled_units, slices, unit_bytes};
use crate::errors::DecodeHeicError;
use crate::types::{DecodedHeicImage, DecodedHeicImageMetadata, HeicPixelLayout};
#[allow(unused_imports)]
use crate::types::HeicView;
use vstd::prelude::*;

verus! {

/// What a sequence parameter set says.
#[derive(Clone, Copy, Debug, PartialEq, Eq)]
pub struct HevcSps {
    pub chroma_format_idc: u8,
    pub separate_colour_plane_flag: bool,
    pub pic_width_in_luma_samples: u32,
    pub pic_height_in_luma_samples: u32,
    /// The conformance window: what is cut off left, right, top and bottom,
    /// in chroma samples.
    pub conf_win_offset: (u32, u32, u32, u32),
    pub bit_depth_y: u8,
    pub bit_depth_c: u8,
}

/// The layout that a chroma array type stands for.
pub open spec fn array_type_layout(chroma_array_type: u8) -> Option<HeicPixelLayout> {
    if chroma_array_type == 0 {
        Some(HeicPixelLayout::Yuv400)
    } else if chroma_array_type == 1 {
        Some(HeicPixelLayout::Yuv420)
    } else if chroma_array_type == 2 {
        Some(HeicPixelLayout::Yuv422)
    } else if chroma_array_type == 3 {
        Some(HeicPixelLayout::Yuv444)
    } else {
        None
    }
}

/// The layout that a chroma array type stands for.
pub fn heic_layout_from_sps_chroma_array_type(chroma_array_type: u8) -> (result: Result<
    HeicPixelLayout,
    DecodeHeicError,
>)
    ensures
        match array_type_layout(chroma_array_type) {
            Some(layout) => result == Ok::<HeicPixelLayout, DecodeHeicError>(layout),
            None => result == Err::<HeicPixelLayout, DecodeHeicError>(
                DecodeHeicError::UnsupportedSpsChromaArrayType { chroma_array_type },
            ),
        },
{
    if chroma_array_type == 0 {
        Ok(HeicPixelLayout::Yuv400)
    } else if chroma_array_type == 1 {
        Ok(HeicPixelLayout::Yuv420)
    } else if chroma_array_type == 2 {
        Ok(HeicPixelLayout::Yuv422)
    } else if chroma_array_type == 3 {
        Ok(HeicPixelLayout::Yuv444)
    } else {
        Err(DecodeHeicError::UnsupportedSpsChromaArrayType { chroma_array_type })
    }
}

/// The pixels that are left of `size` when two offsets are cut off, each in
/// units of `unit` pixels: none where they reach further.
pub open spec fn window(size: u32, one: u32, other: u32, unit: int) -> int {
    let cut = (one + other) * unit;
    if cut >= size {
        0
    } else {
        size - cut
    }
}

/// The pixels that are left of `size`.
fn window_size(size: u32, one: u32, other: u32, unit: u32) -> (left: u32)
    requires
        1 <= unit <= 2,
    ensures
        left == window(size, one, other, unit as int),
{
    let both: u64 = one as u64 + other as u64;
    proof {
        assert(0 <= both * unit <= 2 * both) by (nonlinear_arith)
            requires
                1 <= unit <= 2,
        ;
    }
    let cut: u64 = both * unit as u64;
    if cut >= size as u64 {
        0
    } else {
        size - cut as u32
    }
}

/// The visible image that a parameter set describes, or why there is none.
pub open spec fn sps_metadata(sps: HevcSps) -> Result<DecodedHeicImageMetadata, DecodeHeicError> {
    let across = if sps.chroma_format_idc == 1 || sps.chroma_format_idc == 2 {
        2int
    } else {
        1
    };
    let down = if sps.chroma_format_idc == 1 {
        2int
    } else {
        1
    };
    let width = window(
        sps.pic_width_in_luma_samples,
        sps.conf_win_offset.0,
        sps.conf_win_offset.1,
        across,
    );
    let height = window(
        sps.pic_height_in_luma_samples,
        sps.conf_win_offset.2,
        sps.conf_win_offset.3,
        down,
    );
    let array_type = if sps.separate_colour_plane_flag {
        0u8
    } else {
        sps.chroma_format_idc
    };
    if width == 0 || height == 0 {
        Err(DecodeHeicError::InvalidSpsGeometry { width: width as u64, height: height as u64 })
    } else {
        match array_type_layout(array_type) {
            None => Err(
                DecodeHeicError::UnsupportedSpsChromaArrayType { chroma_array_type: array_type },
            ),
            Some(layout) => Ok(
                DecodedHeicImageMetadata {
                    width: width as u32,
                    height: height as u32,
                    bit_depth_luma: sps.bit_depth_y,
                    bit_depth_chroma: sps.bit_depth_c,
                    layout,
                },
            ),
        }
    }
}

/// The visible image that a parameter set describes.
pub fn hevc_metadata_from_sps(sps: &HevcSps) -> (result: Result<
    DecodedHeicImageMetadata,
    DecodeHeicError,
>)
    ensures
        result == sps_metadata(*sps),
{
    let across: u32 = if sps.chroma_format_idc == 1 || sps.chroma_format_idc == 2 {
        2
    } else {
        1
    };
    let down: u32 = if sps.chroma_format_idc == 1 {
        2
    } else {
        1
    };
    let width: u32 = window_size(
        sps.pic_width_in_luma_samples,
        sps.conf_win_offset.0,
        sps.conf_win_offset.1,
        across,
    );
    let height: u32 = window_size(
        sps.pic_height_in_luma_samples,
        sps.conf_win_offset.2,
        sps.conf_win_offset.3,
        down,
    );
    if width == 0 || height == 0 {
        return Err(
            DecodeHeicError::InvalidSpsGeometry { width: width as u64, height: height as u64 },
        );
    }
    let array_type: u8 = if sps.separate_colour_plane_flag {
        0
    } else {
        sps.chroma_format_idc
    };
    let layout: HeicPixelLayout = heic_layout_from_sps_chroma_array_type(array_type)?;
    Ok(
        DecodedHeicImageMetadata {
            width,
            height,
            bit_depth_luma: sps.bit_depth_y,
            bit_depth_chroma: sps.bit_depth_c,
            layout,
        },
    )
}

/// What parsing the parameter set at `offset` came to.
pub open spec fn parse_outcome(parsed: Result<HevcSps, String>, offset: int) -> Result<
    HevcSps,
    DecodeHeicError,
> {
    match parsed {
        Ok(sps) => Ok(sps),
        Err(detail) => Err(DecodeHeicError::SpsParseFailed { offset: offset as usize, detail }),
    }
}

/// Parses a parameter set, by `parse_sps`; `nal_offset` says where it is in
/// errors.
pub fn hevc_sps_from_nal<P: Fn(&[u8]) -> Result<HevcSps, String>>(
    nal_bytes: &[u8],
    nal_offset: usize,
    parse_sps: &P,
) -> (result: Result<HevcSps, DecodeHeicError>)
    requires
        parse_sps.requires((nal_bytes,)),
    ensures
        exists|parsed: Result<HevcSps, String>| #[trigger]
            parse_sps.ensures((nal_bytes,), parsed) && result == parse_outcome(
                parsed,
                nal_offset as int,
            ),
{
    let parsed: Result<HevcSps, String> = parse_sps(nal_bytes);
    match parsed {
        Ok(sps) => Ok(sps),
        Err(detail) => Err(DecodeHeicError::SpsParseFailed { offset: nal_offset, detail }),
    }
}

/// The first parameter set among units, if there is one.
pub open spec fn first_sps(units: Seq<NalView>) -> Option<NalView>
    decreases units.len(),
{
    if units.len() == 0 {
        None
    } else if is_sps(units.first().bytes) {
        Some(units.first())
    } else {
        first_sps(units.drop_first())
    }
}

/// Finds the first parameter set among units.
fn find_sps<'a>(units: &Vec<LengthPrefixedHevcNalUnit<'a>>) -> (found: Option<
    LengthPrefixedHevcNalUnit<'a>,
>)
    ensures
        match first_sps(views(units@)) {
            None => found is None,
            Some(unit) => found is Some && found->0@ == unit,
        },
{
    let ghost all = views(units@);
    let mut k: usize = 0;
    assert(all.skip(0) =~= all);
    while k < units.len()
        invariant
            k <= units@.len(),
            all == views(units@),
            first_sps(all) == first_sps(all.skip(k as int)),
        decreases units@.len() - k,
    {
        let unit: LengthPrefixedHevcNalUnit<'a> = units[k];
        assert(all.skip(k as int).first() == unit@);
        assert(all.skip(k as int).drop_first() =~= all.skip(k + 1));
        if unit.is_sequence_parameter_set() {
            return Some(unit);
        }
        k = k + 1;
    }
    None
}

/// The parameter set of an assembled stream, or why there is none.
pub open spec fn stream_sps(stream: Seq<u8>) -> Result<NalView, DecodeHeicError> {
    let (units, cut) = units_from(stream, 4, 0);
    match cut {
        Some(cut) => Err(stream_error(cut)),
        None => match first_sps(units) {
            Some(unit) => Ok(unit),
            None => Err(DecodeHeicError::MissingSpsNalUnit),
        },
    }
}

/// What parsing the parameter set that was found says of the visible image.
pub open spec fn metadata_outcome(parsed: Result<HevcSps, String>, offset: int) -> Result<
    DecodedHeicImageMetadata,
    DecodeHeicError,
> {
    match parse_outcome(parsed, offset) {
        Err(e) => Err(e),
        Ok(sps) => sps_metadata(sps),
    }
}

/// Whether parsing the bytes of a unit may give `parsed`.
pub open spec fn parses<P: Fn(&[u8]) -> Result<HevcSps, String>>(
    parse_sps: P,
    bytes: Seq<u8>,
    parsed: Result<HevcSps, String>,
) -> bool {
    exists|slice: &[u8]| slice@ == bytes && #[trigger] parse_sps.ensures((slice,), parsed)
}

/// The visible image that an assembled stream describes.
pub fn decode_hevc_stream_metadata_from_sps<P: Fn(&[u8]) -> Result<HevcSps, String>>(
    stream: &[u8],
    parse_sps: &P,
) -> (result: Result<DecodedHeicImageMetadata, DecodeHeicError>)
    requires
        forall|unit: &[u8]| #[trigger] parse_sps.requires((unit,)),
    ensures
        match stream_sps(stream@) {
            Err(e) => result == Err::<DecodedHeicImageMetadata, DecodeHeicError>(e),
            Ok(unit) => exists|parsed: Result<HevcSps, String>| #[trigger]
                parses(*parse_sps, unit.bytes, parsed) && result == metadata_outcome(
                    parsed,
                    unit.offset,
                ),
        },
{
    let units: Vec<LengthPrefixedHevcNalUnit<'_>> = parse_length_prefixed_hevc_nal_units(stream)?;
    let unit: LengthPrefixedHevcNalUnit<'_> = match find_sps(&units) {
        None => {
            return Err(DecodeHeicError::MissingSpsNalUnit);
        },
        Some(unit) => unit,
    };
    let parsed: Result<HevcSps, String> = parse_sps(unit.bytes);
    assert(stream_sps(stream@)->Ok_0 == unit@);
    assert(parses(*parse_sps, unit@.bytes, parsed));
    let sps: HevcSps = match parsed {
        Err(detail) => {
            return Err(DecodeHeicError::SpsParseFailed { offset: unit.offset, detail });
        },
        Ok(sps) => sps,
    };
    hevc_metadata_from_sps(&sps)
}

/// The parameter sets of an item as units without a place of their own.
pub open spec fn unplaced(units: Seq<Seq<u8>>) -> Seq<NalView> {
    units.map_values(|bytes: Seq<u8>| NalView { offset: 0, bytes })
}

/// The parameter set of an item, or why there is none: the first of its
/// configuration, or else of its payload, as far as that is whole.
pub open spec fn item_sps(hvcc: &HevcDecoderConfigurationBox, payload: Seq<u8>) -> Result<
    NalView,
    DecodeHeicError,
> {
    if hvcc.nal_length_size < 1 || hvcc.nal_length_size > 4 {
        Err(DecodeHeicError::InvalidNalLengthSize { nal_length_size: hvcc.nal_length_size })
    } else {
        match first_sps(unplaced(hvcc.headers())) {
            Some(unit) => Ok(unit),
            None => {
                let (units, cut) = units_from(payload, hvcc.nal_length_size as int, 0);
                match first_sps(units) {
                    Some(unit) => Ok(unit),
                    None => match cut {
                        Some(cut) => Err(payload_error(cut, hvcc.nal_length_size)),
                        None => Err(DecodeHeicError::MissingSpsNalUnit),
                    },
                }
            },
        }
    }
}

/// The first parameter set of a decoder configuration.
pub fn sps_unit_from_hvcc_nal_arrays(hvcc: &HevcDecoderConfigurationBox) -> (found: Option<
    LengthPrefixedHevcNalUnit<'_>,
>)
    ensures
        match first_sps(unplaced(hvcc.headers())) {
            None => found is None,
            Some(unit) => found is Some && found->0@ == unit,
        },
{
    let headers: Vec<&[u8]> = hvcc.header_units();
    let mut units: Vec<LengthPrefixedHevcNalUnit<'_>> = Vec::new();
    let mut k: usize = 0;
    while k < headers.len()
        invariant
            k <= headers@.len(),
            slices(headers@) == hvcc.headers(),
            units@.len() == k,
            forall|i: int|
                0 <= i < k ==> #[trigger] units@[i].offset == 0 && units@[i].bytes == headers@[i],
        decreases headers@.len() - k,
    {
        units.push(LengthPrefixedHevcNalUnit { offset: 0, bytes: headers[k] });
        k = k + 1;
    }
    proof {
        assert(hvcc.headers().len() == headers@.len());
        assert forall|i: int| 0 <= i < units@.len() implies #[trigger] views(units@)[i]
            == unplaced(hvcc.headers())[i] by {
            assert(units@[i].offset == 0);
            assert(slices(headers@)[i] == headers@[i]@);
        }
        assert(views(units@) =~= unplaced(hvcc.headers()));
    }
    find_sps(&units)
}

/// Finds the parameter set of an item without putting its stream together.
pub fn sps_unit_from_hvcc_or_payload<'a>(
    hvcc: &'a HevcDecoderConfigurationBox,
    payload: &'a [u8],
) -> (result: Result<LengthPrefixedHevcNalUnit<'a>, DecodeHeicError>)
    ensures
        match item_sps(hvcc, payload@) {
            Err(e) => result == Err::<LengthPrefixedHevcNalUnit<'a>, DecodeHeicError>(e),
            Ok(unit) => result is Ok && result->Ok_0@ == unit,
        },
{
    let size: u8 = hvcc.nal_length_size;
    if size < 1 || size > 4 {
        return Err(DecodeHeicError::InvalidNalLengthSize { nal_length_size: size });
    }
    match sps_unit_from_hvcc_nal_arrays(hvcc) {
        Some(unit) => {
            return Ok(unit);
        },
        None => {},
    }
    let (units, cut): (Vec<LengthPrefixedHevcNalUnit<'a>>, Option<Cut>) =
        split_length_prefixed_units(payload, size as usize);
    match find_sps(&units) {
        Some(unit) => Ok(unit),
        None => match cut {
            Some(cut) => Err(payload_cut_error(cut, size)),
            None => Err(DecodeHeicError::MissingSpsNalUnit),
        },
    }
}

/// The parameter set of an item.
pub fn decode_hevc_sps_from_hvcc_or_payload<P: Fn(&[u8]) -> Result<HevcSps, String>>(
    hvcc: &HevcDecoderConfigurationBox,
    payload: &[u8],
    parse_sps: &P,
) -> (result: Result<HevcSps, DecodeHeicError>)
    requires
        forall|unit: &[u8]| #[trigger] parse_sps.requires((unit,)),
    ensures
        match item_sps(hvcc, payload@) {
            Err(e) => result == Err::<HevcSps, DecodeHeicError>(e),
            Ok(unit) => exists|parsed: Result<HevcSps, String>| #[trigger]
                parses(*parse_sps, unit.bytes, parsed) && result == parse_outcome(
                    parsed,
                    unit.offset,
                ),
        },
{
    let unit: LengthPrefixedHevcNalUnit<'_> = sps_unit_from_hvcc_or_payload(hvcc, payload)?;
    let parsed: Result<HevcSps, String> = parse_sps(unit.bytes);
    assert(item_sps(hvcc, payload@)->Ok_0 == unit@);
    assert(parses(*parse_sps, unit@.bytes, parsed));
    match parsed {
        Ok(sps) => Ok(sps),
        Err(detail) => Err(DecodeHeicError::SpsParseFailed { offset: unit.offset, detail }),
    }
}

/// The visible image that an item describes, without putting its stream
/// together.
pub fn decode_hevc_metadata_from_hvcc_or_payload<P: Fn(&[u8]) -> Result<HevcSps, String>>(
    hvcc: &HevcDecoderConfigurationBox,
    payload: &[u8],
    parse_sps: &P,
) -> (result: Result<DecodedHeicImageMetadata, DecodeHeicError>)
    requires
        forall|unit: &[u8]| #[trigger] parse_sps.requires((unit,)),
    ensures
        match item_sps(hvcc, payload@) {
            Err(e) => result == Err::<DecodedHeicImageMetadata, DecodeHeicError>(e),
            Ok(unit) => exists|parsed: Result<HevcSps, String>| #[trigger]
                parses(*parse_sps, unit.bytes, parsed) && result == metadata_outcome(
                    parsed,
                    unit.offset,
                ),
        },
{
    let sps: HevcSps = decode_hevc_sps_from_hvcc_or_payload(hvcc, payload, parse_sps)?;
    hevc_metadata_from_sps(&sps)
}

/// The visible image that the decoder configuration alone describes, where it
/// has a parameter set.
pub fn hevc_metadata_from_hvcc_nal_arrays<P: Fn(&[u8]) -> Result<HevcSps, String>>(
    hvcc: &HevcDecoderConfigurationBox,
    parse_sps: &P,
) -> (result: Result<Option<DecodedHeicImageMetadata>, DecodeHeicError>)
    requires
        forall|unit: &[u8]| #[trigger] parse_sps.requires((unit,)),
    ensures
        match first_sps(unplaced(hvcc.headers())) {
            None => result == Ok::<Option<DecodedHeicImageMetadata>, DecodeHeicError>(None),
            Some(unit) => exists|parsed: Result<HevcSps, String>| #[trigger]
                parses(*parse_sps, unit.bytes, parsed) && result == (match metadata_outcome(
                    parsed,
                    unit.offset,
                ) {
                    Ok(metadata) => Ok::<Option<DecodedHeicImageMetadata>, DecodeHeicError>(
                        Some(metadata),
                    ),
                    Err(e) => Err(e),
                }),
        },
{
    let unit: LengthPrefixedHevcNalUnit<'_> = match sps_unit_from_hvcc_nal_arrays(hvcc) {
        None => {
            return Ok(None);
        },
        Some(unit) => unit,
    };
    let parsed: Result<HevcSps, String> = parse_sps(unit.bytes);
    assert(first_sps(unplaced(hvcc.headers()))->0 == unit@);
    assert(parses(*parse_sps, unit@.bytes, parsed));
    match parsed {
        Err(detail) => Err(DecodeHeicError::SpsParseFailed { offset: unit.offset, detail }),
        Ok(sps) => match hevc_metadata_from_sps(&sps) {
            Err(e) => Err(e),
            Ok(metadata) => Ok(Some(metadata)),
        },
    }
}

/// Checks the visible image that a stream describes against the size that
/// its container gives.
pub fn validate_decoded_heic_geometry_against_ispe(
    metadata: &DecodedHeicImageMetadata,
    expected_width: u32,
    expected_height: u32,
) -> (result: Result<(), DecodeHeicError>)
    ensures
        if metadata.width != expected_width || metadata.height != expected_height {
            result == Err::<(), DecodeHeicError>(
                DecodeHeicError::DecodedGeometryMismatch {
                    expected_width,
                    expected_height,
                    actual_width: metadata.width,
                    actual_height: metadata.height,
                },
            )
        } else {
            result is Ok
        },
{
    if metadata.width != expected_width || metadata.height != expected_height {
        return Err(
            DecodeHeicError::DecodedGeometryMismatch {
                expected_width,
                expected_height,
                actual_width: metadata.width,
                actual_height: metadata.height,
            },
        );
    }
    Ok(())
}

/// Why a decoded image is not the one that its stream describes, if it is not.
pub open spec fn metadata_error(decoded: HeicView, metadata: DecodedHeicImageMetadata) -> Option<
    DecodeHeicError,
> {
    if decoded.width != metadata.width || decoded.height != metadata.height {
        Some(
            DecodeHeicError::DecodedGeometryMismatch {
                expected_width: metadata.width,
                expected_height: metadata.height,
                actual_width: decoded.width,
                actual_height: decoded.height,
            },
        )
    } else if decoded.layout != metadata.layout {
        Some(
            DecodeHeicError::DecodedLayoutMismatch {
                expected: metadata.layout,
                actual: decoded.layout,
            },
        )
    } else if decoded.bit_depth_luma != metadata.bit_depth_luma || decoded.bit_depth_chroma
        != metadata.bit_depth_chroma {
        Some(
            DecodeHeicError::DecodedBitDepthMismatch {
                expected_luma: metadata.bit_depth_luma,
                expected_chroma: metadata.bit_depth_chroma,
                actual_luma: decoded.bit_depth_luma,
                actual_chroma: decoded.bit_depth_chroma,
            },
        )
    } else {
        None
    }
}

/// Checks a decoded image against what its stream describes.
pub fn validate_decoded_heic_image_against_metadata(
    decoded: &DecodedHeicImage,
    metadata: &DecodedHeicImageMetadata,
) -> (result: Result<(), DecodeHeicError>)
    ensures
        match metadata_error(decoded@, *metadata) {
            Some(e) => result == Err::<(), DecodeHeicError>(e),
            None => result is Ok,
        },
{
    if decoded.width != metadata.width || decoded.height != metadata.height {
        return Err(
            DecodeHeicError::DecodedGeometryMismatch {
                expected_width: metadata.width,
                expected_height: metadata.height,
                actual_width: decoded.width,
                actual_height: decoded.height,
            },
        );
    }
    if decoded.layout != metadata.layout {
        return Err(
            DecodeHeicError::DecodedLayoutMismatch {
                expected: metadata.layout,
                actual: decoded.layout,
            },
        );
    }
    if decoded.bit_depth_luma != metadata.bit_depth_luma || decoded.bit_depth_chroma
        != metadata.bit_depth_chroma {
        return Err(
            DecodeHeicError::DecodedBitDepthMismatch {
                expected_luma: metadata.bit_depth_luma,
                expected_chroma: metadata.bit_depth_chroma,
                actual_luma: decoded.bit_depth_luma,
                actual_chroma: decoded.bit_depth_chroma,
            },
        );
    }
    Ok(())
}

/// Whether one of some units is a parameter set, and which is the first,
/// depends only on what the units hold.
proof fn lemma_first_sps(units: Seq<NalView>, bytes: Seq<Seq<u8>>)
    requires
        unit_bytes(units) == bytes,
    ensures
        first_sps(units) is Some == first_sps(unplaced(bytes)) is Some,
        first_sps(units) matches Some(unit) ==> unit.bytes == first_sps(unplaced(bytes))->0.bytes,
    decreases units.len(),
{
    if units.len() > 0 {
        assert(unit_bytes(units)[0] == units[0].bytes);
        assert(unplaced(bytes).first() == NalView { offset: 0, bytes: bytes[0] });
        assert(unplaced(bytes).drop_first() =~= unplaced(bytes.drop_first()));
        assert(unit_bytes(units.drop_first()) =~= bytes.drop_first());
        lemma_first_sps(units.drop_first(), bytes.drop_first());
    }
}

/// The first parameter set of units and more units is the first of the
/// former, where they have one.
proof fn lemma_first_of_both(one: Seq<NalView>, other: Seq<NalView>)
    ensures
        first_sps(one + other) == (match first_sps(one) {
            Some(unit) => Some(unit),
            None => first_sps(other),
        }),
    decreases one.len(),
{
    if one.len() == 0 {
        assert(one + other =~= other);
    } else {
        assert((one + other).first() == one.first());
        assert((one + other).drop_first() =~= one.drop_first() + other);
        lemma_first_of_both(one.drop_first(), other);
    }
}

/// Looking for the parameter set of an item finds what looking through its
/// assembled stream finds.
pub proof fn lemma_same_sps(hvcc: &HevcDecoderConfigurationBox, payload: Seq<u8>)
    requires
        assembled(hvcc, payload) is Ok,
    ensures
        match stream_sps(assembled(hvcc, payload)->Ok_0) {
            Ok(unit) => item_sps(hvcc, payload) matches Ok(other) && other.bytes == unit.bytes,
            Err(e) => item_sps(hvcc, payload) == Err::<NalView, DecodeHeicError>(e),
        },
{
    let stream = assembled(hvcc, payload)->Ok_0;
    let units = units_from(stream, 4, 0).0;
    let inner = units_from(payload, hvcc.nal_length_size as int, 0).0;
    let bytes = hvcc.headers() + unit_bytes(inner);
    lemma_assembled_units(hvcc, payload);
    lemma_first_sps(units, bytes);
    assert(unplaced(bytes) =~= unplaced(hvcc.headers()) + unplaced(unit_bytes(inner)));
    lemma_first_of_both(unplaced(hvcc.headers()), unplaced(unit_bytes(inner)));
    lemma_first_sps(inner, unit_bytes(inner));
}

} // verus!
