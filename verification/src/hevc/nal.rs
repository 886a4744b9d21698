//! Units of HEVC streams, each behind its length.
#[allow(unused_imports)]
use crate::bytes::{be_value, lemma_be_value_bound, pow256};
use crate::bytes::read_be;
use crate::errors::DecodeHeicError;
use scuffle_h265::NALUnitType;
use vstd::prelude::*;
use vstd::slice::slice_subrange;

verus! {

/// What a unit of a stream is for.
#[derive(Clone, Copy, Debug, PartialEq, Eq, Structural)]
pub enum HevcNalClass {
    Vcl,
    ParameterSet,
    AccessUnitDelimiter,
    SupplementalEnhancementInfo,
    Other,
    Unknown,
}

/// One unit of a stream, and where it starts.
#[derive(Clone, Copy, Debug, PartialEq, Eq)]
pub struct LengthPrefixedHevcNalUnit<'a> {
    pub offset: usize,
    pub bytes: &'a [u8],
}

/// What a unit holds.
pub struct NalView {
    pub offset: int,
    pub bytes: Seq<u8>,
}

impl<'a> View for LengthPrefixedHevcNalUnit<'a> {
    type V = NalView;

    open spec fn view(&self) -> NalView {
        NalView { offset: self.offset as int, bytes: self.bytes@ }
    }
}

/// The type code in the header of a unit, where there is a whole header.
pub open spec fn type_code(bytes: Seq<u8>) -> Option<int> {
    if bytes.len() < 2 {
        None
    } else {
        Some((bytes[0] as int / 2) % 64)
    }
}

/// What units with a type code are for.
pub open spec fn class_of(code: Option<int>) -> HevcNalClass {
    match code {
        None => HevcNalClass::Unknown,
        Some(value) => if value <= 31 {
            HevcNalClass::Vcl
        } else if value <= 34 {
            HevcNalClass::ParameterSet
        } else if value == 35 {
            HevcNalClass::AccessUnitDelimiter
        } else if value == 39 || value == 40 {
            HevcNalClass::SupplementalEnhancementInfo
        } else {
            HevcNalClass::Other
        },
    }
}

/// Whether a unit is a sequence parameter set.
pub open spec fn is_sps(bytes: Seq<u8>) -> bool {
    type_code(bytes) == Some(33int)
}

/// `NALUnitType::from` of the `scuffle-h265` crate keeps the code, and
/// `NALUnitType::SpsNut` is the code 33: a code names a sequence parameter
/// set if and only if it is that one.
#[verifier::external_body]
fn names_sps(code: u8) -> (names: bool)
    ensures
        names == (code == 33),
{
    NALUnitType::from(code) == NALUnitType::SpsNut
}

impl<'a> LengthPrefixedHevcNalUnit<'a> {
    /// The type code in the header of the unit.
    pub fn nal_unit_type_value(self) -> (code: Option<u8>)
        ensures
            match type_code(self.bytes@) {
                None => code is None,
                Some(value) => code is Some && code->0 == value,
            },
    {
        if self.bytes.len() < 2 {
            return None;
        }
        Some((self.bytes[0] / 2) % 64)
    }

    /// Whether the unit is a sequence parameter set.
    pub fn is_sequence_parameter_set(self) -> (found: bool)
        ensures
            found == is_sps(self.bytes@),
    {
        match self.nal_unit_type_value() {
            None => false,
            Some(code) => names_sps(code),
        }
    }

    /// What the unit is for.
    pub fn class(self) -> (class: HevcNalClass)
        ensures
            class == class_of(type_code(self.bytes@)),
    {
        match self.nal_unit_type_value() {
            None => HevcNalClass::Unknown,
            Some(code) => if code <= 31 {
                HevcNalClass::Vcl
            } else if code <= 34 {
                HevcNalClass::ParameterSet
            } else if code == 35 {
                HevcNalClass::AccessUnitDelimiter
            } else if code == 39 || code == 40 {
                HevcNalClass::SupplementalEnhancementInfo
            } else {
                HevcNalClass::Other
            },
        }
    }
}

/// Where and how a stream of units is cut off.
#[derive(Clone, Copy, Debug, PartialEq, Eq, Structural)]
pub enum Cut {
    InLength { offset: usize, available: usize },
    InUnit { offset: usize, declared: usize, available: usize },
}

/// The units of a stream from `start` on, each behind a length of
/// `length_size` bytes, and where the stream is cut off, if it is.
pub open spec fn units_from(bytes: Seq<u8>, length_size: int, start: int) -> (
    Seq<NalView>,
    Option<Cut>,
)
    decreases bytes.len() - start,
{
    if start >= bytes.len() || length_size <= 0 || start < 0 {
        (Seq::empty(), None)
    } else if bytes.len() - start < length_size {
        (
            Seq::empty(),
            Some(
                Cut::InLength {
                    offset: start as usize,
                    available: (bytes.len() - start) as usize,
                },
            ),
        )
    } else {
        let unit = start + length_size;
        let size = be_value(bytes.subrange(start, unit));
        if bytes.len() - unit < size || size < 0 {
            (
                Seq::empty(),
                Some(
                    Cut::InUnit {
                        offset: unit as usize,
                        declared: size as usize,
                        available: (bytes.len() - unit) as usize,
                    },
                ),
            )
        } else {
            let (rest, cut) = units_from(bytes, length_size, unit + size);
            (
                seq![NalView { offset: unit, bytes: bytes.subrange(unit, unit + size) }] + rest,
                cut,
            )
        }
    }
}

/// The units of a stream, each behind a length of `length_size` bytes, and
/// where the stream is cut off, if it is.
pub fn split_length_prefixed_units<'a>(bytes: &'a [u8], length_size: usize) -> (split: (
    Vec<LengthPrefixedHevcNalUnit<'a>>,
    Option<Cut>,
))
    requires
        1 <= length_size <= 4,
    ensures
        (views(split.0@), split.1) == units_from(bytes@, length_size as int, 0),
{
    let mut units: Vec<LengthPrefixedHevcNalUnit<'a>> = Vec::new();
    let mut cursor: usize = 0;
    let total: usize = bytes.len();
    let ghost whole = units_from(bytes@, length_size as int, 0);
    assert(views(units@) =~= Seq::<NalView>::empty());
    assert(whole.0 =~= views(units@) + whole.0);
    while cursor < total
        invariant
            1 <= length_size <= 4,
            cursor <= total,
            total == bytes@.len(),
            whole == units_from(bytes@, length_size as int, 0),
            whole.0 == views(units@) + units_from(bytes@, length_size as int, cursor as int).0,
            whole.1 == units_from(bytes@, length_size as int, cursor as int).1,
        decreases total - cursor,
    {
        let remaining: usize = total - cursor;
        if remaining < length_size {
            assert(views(units@) + Seq::<NalView>::empty() =~= views(units@));
            return (units, Some(Cut::InLength { offset: cursor, available: remaining }));
        }
        let ghost field = bytes@.subrange(cursor as int, cursor + length_size);
        proof {
            lemma_be_value_bound(field);
            assert(pow256(field.len()) <= 0x1_0000_0000) by {
                reveal_with_fuel(pow256, 5);
            }
        }
        let size: usize = read_be(bytes, cursor, cursor + length_size) as usize;
        let start: usize = cursor + length_size;
        let available: usize = total - start;
        if available < size {
            assert(views(units@) + Seq::<NalView>::empty() =~= views(units@));
            return (
                units,
                Some(Cut::InUnit { offset: start, declared: size, available }),
            );
        }
        let ghost before = views(units@);
        let unit: LengthPrefixedHevcNalUnit<'a> = LengthPrefixedHevcNalUnit {
            offset: start,
            bytes: slice_subrange(bytes, start, start + size),
        };
        units.push(unit);
        proof {
            let rest = units_from(bytes@, length_size as int, start + size).0;
            assert(views(units@) =~= before.push(unit@));
            assert(before + (seq![unit@] + rest) =~= views(units@) + rest);
        }
        cursor = start + size;
    }
    assert(views(units@) + Seq::<NalView>::empty() =~= views(units@));
    (units, None)
}

/// What units hold.
pub open spec fn views(units: Seq<LengthPrefixedHevcNalUnit<'_>>) -> Seq<NalView> {
    units.map_values(|unit: LengthPrefixedHevcNalUnit<'_>| unit@)
}

/// The error for an item payload that is cut off.
pub open spec fn payload_error(cut: Cut, length_size: u8) -> DecodeHeicError {
    match cut {
        Cut::InLength { offset, available } => DecodeHeicError::TruncatedNalLengthField {
            offset,
            nal_length_size: length_size,
            available,
        },
        Cut::InUnit { offset, declared, available } => DecodeHeicError::TruncatedNalUnit {
            offset,
            declared,
            available,
        },
    }
}

/// The error for an item payload that is cut off.
pub fn payload_cut_error(cut: Cut, length_size: u8) -> (error: DecodeHeicError)
    ensures
        error == payload_error(cut, length_size),
{
    match cut {
        Cut::InLength { offset, available } => DecodeHeicError::TruncatedNalLengthField {
            offset,
            nal_length_size: length_size,
            available,
        },
        Cut::InUnit { offset, declared, available } => DecodeHeicError::TruncatedNalUnit {
            offset,
            declared,
            available,
        },
    }
}

/// The error for an assembled stream that is cut off.
pub open spec fn stream_error(cut: Cut) -> DecodeHeicError {
    match cut {
        Cut::InLength { offset, available } => {
            DecodeHeicError::TruncatedLengthPrefixedStreamLength { offset, available }
        },
        Cut::InUnit { offset, declared, available } => {
            DecodeHeicError::TruncatedLengthPrefixedStreamNalUnit { offset, declared, available }
        },
    }
}

/// The units of an assembled stream.
pub fn parse_length_prefixed_hevc_nal_units(stream: &[u8]) -> (result: Result<
    Vec<LengthPrefixedHevcNalUnit<'_>>,
    DecodeHeicError,
>)
    ensures
        match units_from(stream@, 4, 0).1 {
            Some(cut) => result == Err::<Vec<LengthPrefixedHevcNalUnit<'_>>, DecodeHeicError>(
                stream_error(cut),
            ),
            None => result is Ok && views(result->Ok_0@) == units_from(stream@, 4, 0).0,
        },
{
    let (units, cut): (Vec<LengthPrefixedHevcNalUnit<'_>>, Option<Cut>) =
        split_length_prefixed_units(stream, 4);
    match cut {
        None => Ok(units),
        Some(Cut::InLength { offset, available }) => Err(
            DecodeHeicError::TruncatedLengthPrefixedStreamLength { offset, available },
        ),
        Some(Cut::InUnit { offset, declared, available }) => Err(
            DecodeHeicError::TruncatedLengthPrefixedStreamNalUnit { offset, declared, available },
        ),
    }
}

} // verus!
