//! Streams for the HEVC decoder, put together from the parameter sets of an
//! item and its payload.
#[allow(unused_imports)]
use super::nal::{payload_error, units_from, views, NalView};
use super::nal::{payload_cut_error, split_length_prefixed_units, Cut, LengthPrefixedHevcNalUnit};
use crate::bytes::push_u32_be;
#[allow(unused_imports)]
use crate::bytes::{
    be_bytes, be_value, lemma_be_bytes, lemma_four_be_bytes, pow256, u32_be_bytes,
};
use crate::errors::DecodeHeicError;
use vstd::prelude::*;

verus! {

/// Parameter sets of one type.
#[derive(Clone, Debug, PartialEq, Eq)]
pub struct HevcNalArray {
    pub nal_units: Vec<Vec<u8>>,
}

/// The decoder configuration of an item.
#[derive(Clone, Debug, PartialEq, Eq)]
pub struct HevcDecoderConfigurationBox {
    /// The number of bytes of the lengths in the payload.
    pub nal_length_size: u8,
    pub nal_arrays: Vec<HevcNalArray>,
}

/// What the units of an array hold.
pub open spec fn array_units(units: Seq<Vec<u8>>) -> Seq<Seq<u8>> {
    units.map_values(|unit: Vec<u8>| unit@)
}

/// The units of arrays, one array after another.
pub open spec fn flat_units(arrays: Seq<HevcNalArray>) -> Seq<Seq<u8>>
    decreases arrays.len(),
{
    if arrays.len() == 0 {
        Seq::empty()
    } else {
        flat_units(arrays.drop_last()) + array_units(arrays.last().nal_units@)
    }
}

impl HevcDecoderConfigurationBox {
    /// The parameter sets of the item.
    pub open spec fn headers(&self) -> Seq<Seq<u8>> {
        flat_units(self.nal_arrays@)
    }

    /// The parameter sets of the item.
    pub fn header_units(&self) -> (units: Vec<&[u8]>)
        ensures
            slices(units@) == self.headers(),
    {
        let mut units: Vec<&[u8]> = Vec::new();
        let mut k: usize = 0;
        assert(self.nal_arrays@.take(0) =~= Seq::<HevcNalArray>::empty());
        assert(slices(units@) =~= Seq::<Seq<u8>>::empty());
        while k < self.nal_arrays.len()
            invariant
                k <= self.nal_arrays@.len(),
                slices(units@) == flat_units(self.nal_arrays@.take(k as int)),
            decreases self.nal_arrays@.len() - k,
        {
            let array: &HevcNalArray = &self.nal_arrays[k];
            let ghost before = slices(units@);
            let mut j: usize = 0;
            assert(array_units(array.nal_units@).take(0) =~= Seq::<Seq<u8>>::empty());
            assert(before + Seq::<Seq<u8>>::empty() =~= before);
            while j < array.nal_units.len()
                invariant
                    j <= array.nal_units@.len(),
                    slices(units@) == before + array_units(array.nal_units@).take(j as int),
                decreases array.nal_units@.len() - j,
            {
                let ghost earlier = units@;
                let unit: &[u8] = array.nal_units[j].as_slice();
                units.push(unit);
                proof {
                    assert(slices(units@) =~= slices(earlier).push(unit@));
                    assert(array_units(array.nal_units@).take(j + 1) =~= array_units(
                        array.nal_units@,
                    ).take(j as int).push(unit@));
                    assert(slices(units@) =~= before + array_units(array.nal_units@).take(j + 1));
                }
                j = j + 1;
            }
            proof {
                assert(array_units(array.nal_units@).take(array.nal_units@.len() as int)
                    =~= array_units(array.nal_units@));
                assert(self.nal_arrays@.take(k + 1).drop_last() =~= self.nal_arrays@.take(
                    k as int,
                ));
                assert(self.nal_arrays@.take(k + 1).last() == self.nal_arrays@[k as int]);
            }
            k = k + 1;
        }
        assert(self.nal_arrays@.take(self.nal_arrays@.len() as int) =~= self.nal_arrays@);
        units
    }
}

/// What slices hold.
pub open spec fn slices(units: Seq<&[u8]>) -> Seq<Seq<u8>> {
    units.map_values(|unit: &[u8]| unit@)
}

/// A unit behind its length in four bytes.
pub open spec fn prefixed(unit: Seq<u8>) -> Seq<u8> {
    u32_be_bytes(unit.len() as u32) + unit
}

/// Units one after another, each behind its length in four bytes.
pub open spec fn joined(units: Seq<Seq<u8>>) -> Seq<u8>
    decreases units.len(),
{
    if units.len() == 0 {
        Seq::empty()
    } else {
        joined(units.drop_last()) + prefixed(units.last())
    }
}

/// Appends a unit behind its length in four bytes.
pub fn append_nal_with_u32_length_prefix(nal_unit: &[u8], stream: &mut Vec<u8>) -> (result: Result<
    (),
    DecodeHeicError,
>)
    ensures
        if nal_unit@.len() > u32::MAX {
            result == Err::<(), DecodeHeicError>(
                DecodeHeicError::NalUnitTooLarge { nal_size: nal_unit@.len() as usize },
            ) && final(stream)@ == old(stream)@
        } else {
            result is Ok && final(stream)@ == old(stream)@ + prefixed(nal_unit@)
        },
{
    let ghost before = stream@;
    let nal_size: usize = nal_unit.len();
    if nal_size > u32::MAX as usize {
        return Err(DecodeHeicError::NalUnitTooLarge { nal_size });
    }
    push_u32_be(stream, nal_size as u32);
    stream.extend_from_slice(nal_unit);
    assert(stream@ =~= before + prefixed(nal_unit@));
    Ok(())
}

/// The error for the first unit that is too large, if there is one.
pub open spec fn size_error(units: Seq<Seq<u8>>) -> Option<DecodeHeicError>
    decreases units.len(),
{
    if units.len() == 0 {
        None
    } else {
        match size_error(units.drop_last()) {
            Some(e) => Some(e),
            None => if units.last().len() > u32::MAX {
                Some(DecodeHeicError::NalUnitTooLarge { nal_size: units.last().len() as usize })
            } else {
                None
            },
        }
    }
}

/// What the units of a payload hold.
pub open spec fn unit_bytes(units: Seq<NalView>) -> Seq<Seq<u8>> {
    units.map_values(|unit: NalView| unit.bytes)
}

/// The stream for the decoder, or why there is none.
pub open spec fn assembled(hvcc: &HevcDecoderConfigurationBox, payload: Seq<u8>) -> Result<
    Seq<u8>,
    DecodeHeicError,
> {
    if hvcc.nal_length_size < 1 || hvcc.nal_length_size > 4 {
        Err(DecodeHeicError::InvalidNalLengthSize { nal_length_size: hvcc.nal_length_size })
    } else {
        match size_error(hvcc.headers()) {
            Some(e) => Err(e),
            None => {
                let (units, cut) = units_from(payload, hvcc.nal_length_size as int, 0);
                match cut {
                    Some(cut) => Err(payload_error(cut, hvcc.nal_length_size)),
                    None => Ok(joined(hvcc.headers() + unit_bytes(units))),
                }
            },
        }
    }
}

/// Units of a stream are no longer than their lengths can say.
proof fn lemma_unit_sizes(bytes: Seq<u8>, length_size: int, start: int)
    requires
        1 <= length_size <= 4,
        0 <= start,
    ensures
        forall|k: int|
            0 <= k < units_from(bytes, length_size, start).0.len() ==> (#[trigger] units_from(
                bytes,
                length_size,
                start,
            ).0[k]).bytes.len() <= u32::MAX,
    decreases bytes.len() - start,
{
    if start < bytes.len() && bytes.len() - start >= length_size {
        let unit = start + length_size;
        let field = bytes.subrange(start, unit);
        let size = be_value(field);
        crate::bytes::lemma_be_value_bound(field);
        assert(crate::bytes::pow256(field.len()) <= 0x1_0000_0000) by {
            reveal_with_fuel(crate::bytes::pow256, 5);
        }
        if bytes.len() - unit >= size {
            lemma_unit_sizes(bytes, length_size, unit + size);
            let rest = units_from(bytes, length_size, unit + size).0;
            let all = units_from(bytes, length_size, start).0;
            assert forall|k: int| 0 <= k < all.len() implies (#[trigger] all[k]).bytes.len()
                <= u32::MAX by {
                if k > 0 {
                    assert(all[k] == rest[k - 1]);
                }
            }
        }
    }
}

/// Puts together the stream for the decoder: the parameter sets of an item,
/// then the units of its payload.
pub fn assemble_heic_hevc_stream_from_components(
    hvcc: &HevcDecoderConfigurationBox,
    payload: &[u8],
) -> (result: Result<Vec<u8>, DecodeHeicError>)
    ensures
        match assembled(hvcc, payload@) {
            Err(e) => result == Err::<Vec<u8>, DecodeHeicError>(e),
            Ok(stream) => result is Ok && result->Ok_0@ == stream,
        },
{
    let size: u8 = hvcc.nal_length_size;
    if size < 1 || size > 4 {
        return Err(DecodeHeicError::InvalidNalLengthSize { nal_length_size: size });
    }
    let mut stream: Vec<u8> = Vec::new();
    let headers: Vec<&[u8]> = hvcc.header_units();
    let ghost flat = hvcc.headers();
    let mut k: usize = 0;
    assert(flat.take(0) =~= Seq::<Seq<u8>>::empty());
    while k < headers.len()
        invariant
            k <= headers@.len(),
            slices(headers@) == flat,
            size_error(flat.take(k as int)) is None,
            stream@ == joined(flat.take(k as int)),
            flat == hvcc.headers(),
            1 <= size <= 4,
            size == hvcc.nal_length_size,
        decreases headers@.len() - k,
    {
        proof {
            assert(flat.take(k + 1).drop_last() =~= flat.take(k as int));
            assert(flat.take(k + 1).last() == flat[k as int]);
            assert(flat[k as int] == headers@[k as int]@);
            if headers@[k as int]@.len() > u32::MAX {
                lemma_size_error(flat, k + 1);
            }
        }
        append_nal_with_u32_length_prefix(headers[k], &mut stream)?;
        k = k + 1;
    }
    assert(flat.take(flat.len() as int) =~= flat);
    let (units, cut): (Vec<LengthPrefixedHevcNalUnit<'_>>, Option<Cut>) =
        split_length_prefixed_units(payload, size as usize);
    let ghost split = units_from(payload@, size as int, 0);
    let ghost bytes = unit_bytes(split.0);
    let mut j: usize = 0;
    proof {
        lemma_unit_sizes(payload@, size as int, 0);
        assert(flat + bytes.take(0) =~= flat);
    }
    while j < units.len()
        invariant
            j <= units@.len(),
            views(units@) == split.0,
            bytes == unit_bytes(split.0),
            stream@ == joined(flat + bytes.take(j as int)),
            forall|i: int| 0 <= i < split.0.len() ==> (#[trigger] split.0[i]).bytes.len()
                <= u32::MAX,
        decreases units@.len() - j,
    {
        let unit: LengthPrefixedHevcNalUnit<'_> = units[j];
        proof {
            assert(views(units@)[j as int] == unit@);
            assert(split.0[j as int].bytes == unit.bytes@);
            let next = flat + bytes.take(j + 1);
            assert(next.drop_last() =~= flat + bytes.take(j as int));
            assert(next.last() == unit.bytes@);
        }
        append_nal_with_u32_length_prefix(unit.bytes, &mut stream)?;
        j = j + 1;
    }
    assert(bytes.take(bytes.len() as int) =~= bytes);
    match cut {
        Some(cut) => Err(payload_cut_error(cut, size)),
        None => Ok(stream),
    }
}

/// An error of the first units stays one of all of them.
proof fn lemma_size_error(units: Seq<Seq<u8>>, count: int)
    requires
        0 <= count <= units.len(),
        size_error(units.take(count)) is Some,
    ensures
        size_error(units) == size_error(units.take(count)),
    decreases units.len() - count,
{
    if count < units.len() {
        assert(units.take(count + 1).drop_last() =~= units.take(count));
        lemma_size_error(units, count + 1);
    } else {
        assert(units.take(count) =~= units);
    }
}

/// A unit behind its length in so many bytes.
pub open spec fn sized(unit: Seq<u8>, size: nat) -> Seq<u8> {
    be_bytes(unit.len() as int, size) + unit
}

/// Units one after another, each behind its length in so many bytes.
pub open spec fn written(units: Seq<Seq<u8>>, size: nat) -> Seq<u8>
    decreases units.len(),
{
    if units.len() == 0 {
        Seq::empty()
    } else {
        written(units.drop_last(), size) + sized(units.last(), size)
    }
}

/// The bytes of units, each behind its length in four bytes.
pub open spec fn joined_length(units: Seq<Seq<u8>>) -> int
    decreases units.len(),
{
    if units.len() == 0 {
        0
    } else {
        joined_length(units.drop_last()) + 4 + units.last().len()
    }
}

/// Units that are joined are written with lengths of four bytes.
proof fn lemma_joined_is_written(units: Seq<Seq<u8>>)
    requires
        forall|k: int| 0 <= k < units.len() ==> (#[trigger] units[k]).len() <= u32::MAX,
    ensures
        joined(units) == written(units, 4),
        joined(units).len() == joined_length(units),
    decreases units.len(),
{
    if units.len() > 0 {
        let fewer = units.drop_last();
        assert(forall|k: int| 0 <= k < fewer.len() ==> (#[trigger] fewer[k]) == units[k]);
        lemma_joined_is_written(fewer);
        assert(units.last() == units[units.len() - 1]);
        lemma_four_be_bytes(units.last().len() as u32);
    }
}

/// The lengths that four bytes can say.
proof fn lemma_four_bytes()
    ensures
        pow256(4) == 0x1_0000_0000,
        pow256(3) <= pow256(4),
        pow256(2) <= pow256(4),
        pow256(1) <= pow256(4),
{
    reveal_with_fuel(pow256, 5);
}

/// Splitting a stream behind a prefix gives the units that it was written of.
proof fn lemma_split_written(
    units: Seq<Seq<u8>>,
    size: nat,
    suffix: Seq<u8>,
    prefix: Seq<u8>,
)
    requires
        1 <= size <= 4,
        forall|k: int| 0 <= k < units.len() ==> (#[trigger] units[k]).len() < pow256(size),
    ensures
        ({
            let stream = prefix + written(units, size) + suffix;
            let split = units_from(stream, size as int, prefix.len() as int);
            let rest = units_from(stream, size as int, (prefix + written(units, size)).len() as int);
            &&& split.1 == rest.1
            &&& split.0.len() == units.len() + rest.0.len()
            &&& forall|k: int| 0 <= k < units.len() ==> (#[trigger] split.0[k]).bytes == units[k]
            &&& forall|k: int|
                units.len() <= k < split.0.len() ==> #[trigger] split.0[k] == rest.0[k
                    - units.len()]
        }),
    decreases units.len(),
{
    if units.len() == 0 {
        assert(prefix + written(units, size) =~= prefix);
    } else {
        let fewer = units.drop_last();
        let last = units.last();
        assert(fewer.len() < units.len());
        assert(forall|k: int| 0 <= k < fewer.len() ==> (#[trigger] fewer[k]) == units[k]);
        let tail = sized(last, size) + suffix;
        lemma_split_written(fewer, size, tail, prefix);
        let stream = prefix + written(units, size) + suffix;
        assert(prefix + written(fewer, size) + tail =~= stream);
        let at = (prefix + written(fewer, size)).len() as int;
        let unit = at + size;
        assert(last == units[units.len() - 1]);
        lemma_be_bytes(last.len() as int, size);
        assert(stream.subrange(at, unit) =~= be_bytes(last.len() as int, size));
        assert(stream.subrange(unit, unit + last.len()) =~= last);
        let end = unit + last.len();
        assert((prefix + written(units, size)).len() == end);
        let split = units_from(stream, size as int, prefix.len() as int);
        let middle = units_from(stream, size as int, at);
        let rest = units_from(stream, size as int, end);
        assert(at < stream.len());
        assert(middle.0 =~= seq![NalView { offset: unit, bytes: last }] + rest.0);
        assert forall|k: int| 0 <= k < units.len() implies (#[trigger] split.0[k]).bytes
            == units[k] by {
            if k < fewer.len() {
                assert(split.0[k].bytes == fewer[k]);
            } else {
                assert(split.0[k] == middle.0[0]);
            }
        }
        assert forall|k: int| units.len() <= k < split.0.len() implies #[trigger] split.0[k]
            == rest.0[k - units.len()] by {
            assert(split.0[k] == middle.0[k - fewer.len()]);
        }
    }
}

/// A stream that was put together splits into the parameter sets of its item
/// and the units of its payload again, with nothing cut off.
pub proof fn lemma_assembled_units(hvcc: &HevcDecoderConfigurationBox, payload: Seq<u8>)
    requires
        assembled(hvcc, payload) is Ok,
    ensures
        units_from(assembled(hvcc, payload)->Ok_0, 4, 0).1 is None,
        unit_bytes(units_from(assembled(hvcc, payload)->Ok_0, 4, 0).0) == hvcc.headers()
            + unit_bytes(units_from(payload, hvcc.nal_length_size as int, 0).0),
{
    let stream = assembled(hvcc, payload)->Ok_0;
    let headers = hvcc.headers();
    let inner = units_from(payload, hvcc.nal_length_size as int, 0).0;
    let units = headers + unit_bytes(inner);
    lemma_unit_sizes(payload, hvcc.nal_length_size as int, 0);
    assert forall|k: int| 0 <= k < units.len() implies (#[trigger] units[k]).len()
        <= u32::MAX by {
        if k < headers.len() {
            lemma_no_size_error(headers, k);
        } else {
            assert(units[k] == inner[k - headers.len()].bytes);
        }
    }
    lemma_joined_is_written(units);
    lemma_four_bytes();
    lemma_split_written(units, 4, Seq::empty(), Seq::empty());
    assert(Seq::<u8>::empty() + joined(units) + Seq::<u8>::empty() =~= stream);
    assert((Seq::<u8>::empty() + joined(units)).len() == stream.len());
    let split = units_from(stream, 4, 0);
    assert(unit_bytes(split.0) =~= units);
}

/// A payload that was written with lengths of so many bytes splits into its
/// units again, with nothing cut off.
pub proof fn lemma_payload_units(units: Seq<Seq<u8>>, size: nat)
    requires
        1 <= size <= 4,
        forall|k: int| 0 <= k < units.len() ==> (#[trigger] units[k]).len() < pow256(size),
    ensures
        units_from(written(units, size), size as int, 0).1 is None,
        unit_bytes(units_from(written(units, size), size as int, 0).0) == units,
{
    let payload = written(units, size);
    lemma_split_written(units, size, Seq::empty(), Seq::empty());
    assert(Seq::<u8>::empty() + payload + Seq::<u8>::empty() =~= payload);
    assert((Seq::<u8>::empty() + payload).len() == payload.len());
    assert(unit_bytes(units_from(payload, size as int, 0).0) =~= units);
}

/// The whole way: of a payload that was written with lengths of so many bytes,
/// as the item says, a stream is put together that splits into the parameter
/// sets of the item and then the units of the payload, in order, and that is
/// as long as they and a length of four bytes for each.
pub proof fn lemma_assembled_payload(
    hvcc: &HevcDecoderConfigurationBox,
    units: Seq<Seq<u8>>,
)
    requires
        1 <= hvcc.nal_length_size <= 4,
        forall|k: int|
            0 <= k < hvcc.headers().len() ==> (#[trigger] hvcc.headers()[k]).len() <= u32::MAX,
        forall|k: int|
            0 <= k < units.len() ==> (#[trigger] units[k]).len() < pow256(
                hvcc.nal_length_size as nat,
            ),
    ensures
        assembled(hvcc, written(units, hvcc.nal_length_size as nat)) matches Ok(stream) && {
            &&& stream.len() == joined_length(hvcc.headers() + units)
            &&& units_from(stream, 4, 0).1 is None
            &&& unit_bytes(units_from(stream, 4, 0).0) == hvcc.headers() + units
        },
{
    let size = hvcc.nal_length_size as nat;
    let headers = hvcc.headers();
    let payload = written(units, size);
    lemma_payload_units(units, size);
    lemma_sizes_fit(headers);
    lemma_assembled_units(hvcc, payload);
    lemma_four_bytes();
    let all = headers + units;
    assert forall|k: int| 0 <= k < all.len() implies (#[trigger] all[k]).len() <= u32::MAX by {
        if k < headers.len() {
            assert(all[k] == headers[k]);
        } else {
            assert(all[k] == units[k - headers.len()]);
        }
    }
    lemma_joined_is_written(all);
}

/// Units of which none is too large meet no error.
proof fn lemma_sizes_fit(units: Seq<Seq<u8>>)
    requires
        forall|k: int| 0 <= k < units.len() ==> (#[trigger] units[k]).len() <= u32::MAX,
    ensures
        size_error(units) is None,
    decreases units.len(),
{
    if units.len() > 0 {
        let fewer = units.drop_last();
        assert(forall|k: int| 0 <= k < fewer.len() ==> (#[trigger] fewer[k]) == units[k]);
        lemma_sizes_fit(fewer);
        assert(units.last() == units[units.len() - 1]);
    }
}

/// Without an error no unit is too large.
proof fn lemma_no_size_error(units: Seq<Seq<u8>>, k: int)
    requires
        size_error(units) is None,
        0 <= k < units.len(),
    ensures
        units[k].len() <= u32::MAX,
    decreases units.len(),
{
    if k < units.len() - 1 {
        lemma_no_size_error(units.drop_last(), k);
        assert(units.drop_last()[k] == units[k]);
    }
}

} // verus!
