//! What the metadata of a file says.
#[allow(unused_imports)]
use crate::bytes::be_value;
#[allow(unused_imports)]
use crate::exif::{
    entries_orientation, entry_outcome, header_order, header_place, long_at, payload_orientation,
    payloads_orientation, payloads_tiff, places_orientation, short_at, signals_orientation,
    tiff_orientation, tiff_places,
};
#[allow(unused_imports)]
use crate::family::{family_of, resolved_family, FileTypeBox, HeifInputFamily};
#[allow(unused_imports)]
use crate::fourcc::FourCc;
#[allow(unused_imports)]
use crate::guardrails::DecodeGuardrails;
#[allow(unused_imports)]
use crate::output::ByteOrder;
#[allow(unused_imports)]
use crate::transform::mapping::PrimaryItemTransformProperty;
#[allow(unused_imports)]
use crate::yuv::output::storage_depth;
use vstd::prelude::*;

verus! {

/// Two and four bytes as numbers: in little endian the first byte counts
/// least, in big endian it counts most. There is no number past the end.
pub proof fn lemma_tiff_numbers(payload: Seq<u8>, place: int)
    requires
        0 <= place,
    ensures
        place + 2 <= payload.len() ==> short_at(payload, place, ByteOrder::LittleEndian) == Some(
            (payload[place] + 256 * payload[place + 1]) as u16,
        ) && short_at(payload, place, ByteOrder::BigEndian) == Some(
            (256 * payload[place] + payload[place + 1]) as u16,
        ),
        place + 4 <= payload.len() ==> long_at(payload, place, ByteOrder::LittleEndian) == Some(
            (payload[place] + 256 * payload[place + 1] + 65536 * payload[place + 2] + 16777216
                * payload[place + 3]) as u32,
        ) && long_at(payload, place, ByteOrder::BigEndian) == Some(
            (16777216 * payload[place] + 65536 * payload[place + 1] + 256 * payload[place + 2]
                + payload[place + 3]) as u32,
        ),
        place + 2 > payload.len() ==> short_at(payload, place, ByteOrder::LittleEndian) is None
            && short_at(payload, place, ByteOrder::BigEndian) is None,
        place + 4 > payload.len() ==> long_at(payload, place, ByteOrder::LittleEndian) is None
            && long_at(payload, place, ByteOrder::BigEndian) is None,
{
}

/// Entries with other tags are passed over.
proof fn lemma_entries_passed(
    payload: Seq<u8>,
    tiff_start: int,
    entries: int,
    order: ByteOrder,
    index: int,
    found: int,
    count: int,
)
    requires
        0 <= index <= found < count,
        forall|k: int|
            index <= k < found ==> #[trigger] entry_outcome(
                payload,
                tiff_start,
                entries + 12 * k,
                order,
            ) is Passed,
    ensures
        entries_orientation(payload, tiff_start, entries, order, index, count)
            == entries_orientation(payload, tiff_start, entries, order, found, count),
    decreases found - index,
{
    if index < found {
        assert(entry_outcome(payload, tiff_start, entries + 12 * index, order) is Passed);
        lemma_entries_passed(payload, tiff_start, entries, order, index + 1, found, count);
    }
}

/// The orientation of TIFF data in little endian: behind `II`, 42 and the
/// place of the directory, the directory counts its entries of twelve bytes.
/// The first entry with the tag 0x0112, that is one number of two bytes (type
/// 3, count 1), holds the orientation.
pub proof fn lemma_orientation_little_endian(
    payload: Seq<u8>,
    start: int,
    directory: int,
    index: int,
    orientation: u8,
)
    requires
        0 <= start,
        start + 8 <= payload.len(),
        payload[start] == 'I' as u8,
        payload[start + 1] == 'I' as u8,
        payload[start + 2] == 42,
        payload[start + 3] == 0,
        directory == start + (payload[start + 4] + 256 * payload[start + 5] + 65536 * payload[start
            + 6] + 16777216 * payload[start + 7]),
        directory + 2 + 12 * (index + 1) <= payload.len(),
        0 <= index < payload[directory] + 256 * payload[directory + 1],
        forall|k: int| #![trigger payload[directory + 2 + 12 * k]]
            0 <= k < index ==> !(payload[directory + 2 + 12 * k] == 0x12 && payload[directory + 3
                + 12 * k] == 0x01),
        1 <= orientation <= 8,
        payload.subrange(directory + 2 + 12 * index, directory + 12 + 12 * index) == seq![
            0x12u8,
            0x01,
            3,
            0,
            1,
            0,
            0,
            0,
            orientation,
            0,
        ],
    ensures
        tiff_orientation(payload, start) == Some(orientation as u16),
{
    let order = ByteOrder::LittleEndian;
    let entries = directory + 2;
    let entry = payload.subrange(directory + 2 + 12 * index, directory + 12 + 12 * index);
    assert forall|k: int| 0 <= k < 10 implies #[trigger] entry[k] == payload[directory + 2 + 12
        * index + k] by {}
    assert(entry[0] == 0x12 && entry[1] == 1 && entry[2] == 3 && entry[3] == 0 && entry[4] == 1
        && entry[5] == 0 && entry[6] == 0 && entry[7] == 0 && entry[8] == orientation && entry[9]
        == 0);
    assert forall|k: int| 0 <= k < index implies #[trigger] entry_outcome(
        payload,
        start,
        entries + 12 * k,
        order,
    ) is Passed by {
        let tag = payload[directory + 2 + 12 * k];
    }
    let count = payload[directory] + 256 * payload[directory + 1];
    lemma_entries_passed(payload, start, entries, order, 0, index, count);
}

/// The orientation of TIFF data in big endian, behind `MM`: as in little
/// endian, with the bytes of every number the other way round.
pub proof fn lemma_orientation_big_endian(
    payload: Seq<u8>,
    start: int,
    directory: int,
    index: int,
    orientation: u8,
)
    requires
        0 <= start,
        start + 8 <= payload.len(),
        payload[start] == 'M' as u8,
        payload[start + 1] == 'M' as u8,
        payload[start + 2] == 0,
        payload[start + 3] == 42,
        directory == start + (16777216 * payload[start + 4] + 65536 * payload[start + 5] + 256
            * payload[start + 6] + payload[start + 7]),
        directory + 2 + 12 * (index + 1) <= payload.len(),
        0 <= index < 256 * payload[directory] + payload[directory + 1],
        forall|k: int| #![trigger payload[directory + 2 + 12 * k]]
            0 <= k < index ==> !(payload[directory + 2 + 12 * k] == 0x01 && payload[directory + 3
                + 12 * k] == 0x12),
        1 <= orientation <= 8,
        payload.subrange(directory + 2 + 12 * index, directory + 12 + 12 * index) == seq![
            0x01u8,
            0x12,
            0,
            3,
            0,
            0,
            0,
            1,
            0,
            orientation,
        ],
    ensures
        tiff_orientation(payload, start) == Some(orientation as u16),
{
    let order = ByteOrder::BigEndian;
    let entries = directory + 2;
    let entry = payload.subrange(directory + 2 + 12 * index, directory + 12 + 12 * index);
    assert forall|k: int| 0 <= k < 10 implies #[trigger] entry[k] == payload[directory + 2 + 12
        * index + k] by {}
    assert(entry[0] == 1 && entry[1] == 0x12 && entry[2] == 0 && entry[3] == 3 && entry[4] == 0
        && entry[5] == 0 && entry[6] == 0 && entry[7] == 1 && entry[8] == 0 && entry[9]
        == orientation);
    assert forall|k: int| 0 <= k < index implies #[trigger] entry_outcome(
        payload,
        start,
        entries + 12 * k,
        order,
    ) is Passed by {
        let tag = payload[directory + 2 + 12 * k];
    }
    let count = 256 * payload[directory] + payload[directory + 1];
    lemma_entries_passed(payload, start, entries, order, 0, index, count);
}

/// Data that does not begin with `II` or `MM` gives no orientation.
pub proof fn lemma_orientation_needs_header(payload: Seq<u8>, start: int)
    ensures
        tiff_orientation(payload, start) is Some ==> 0 <= start && start + 8 <= payload.len() && ((
        payload[start] == 'I' as u8 && payload[start + 1] == 'I' as u8 && payload[start + 2] == 42
            && payload[start + 3] == 0) || (payload[start] == 'M' as u8 && payload[start + 1]
            == 'M' as u8 && payload[start + 2] == 0 && payload[start + 3] == 42)),
{
}

/// The orientation of an item payload is that of the TIFF data that the first
/// four bytes, a number in big endian, point to: so many bytes behind them. A
/// payload that is TIFF data has its own orientation where it says nothing
/// else.
pub proof fn lemma_orientation_of_payload(payload: Seq<u8>)
    requires
        payload.len() >= 4,
    ensures
        ({
            let told = 4 + (16777216 * payload[0] + 65536 * payload[1] + 256 * payload[2]
                + payload[3]);
            told <= usize::MAX && tiff_orientation(payload, told) is Some ==> payload_orientation(
                payload,
            ) == tiff_orientation(payload, told)
        }),
        payload_orientation(payload) is None ==> tiff_orientation(payload, 0) is None,
{
    let front = payload.subrange(0, 4);
    reveal_with_fuel(be_value, 5);
    assert(front.drop_last() =~= payload.subrange(0, 3));
    assert(front.drop_last().drop_last() =~= payload.subrange(0, 2));
    assert(front.drop_last().drop_last().drop_last() =~= payload.subrange(0, 1));
    assert(front.drop_last().drop_last().drop_last().drop_last() =~= Seq::<u8>::empty());
    let places = tiff_places(payload);
    assert(places.contains(0)) by {
        assert(places.last() == 0 ==> places[places.len() - 1] == 0);
    }
    lemma_first_told(payload, places);
}

/// Where no place gives an orientation, the first does not, and the one at the
/// beginning does not.
proof fn lemma_first_told(payload: Seq<u8>, places: Seq<int>)
    ensures
        places.len() > 0 && tiff_orientation(payload, places[0]) is Some ==> places_orientation(
            payload,
            places,
        ) == tiff_orientation(payload, places[0]),
        places_orientation(payload, places) is None && places.contains(0) ==> tiff_orientation(
            payload,
            0,
        ) is None,
    decreases places.len(),
{
    if places.len() > 0 {
        lemma_first_told(payload, places.drop_first());
        if places.contains(0) && places[0] != 0 {
            let k = choose|k: int| 0 <= k < places.len() && places[k] == 0;
            assert(places.drop_first()[k - 1] == 0);
        }
    }
}

/// Of several payloads, the first with an orientation decides, and the first
/// with TIFF data is the one that is kept.
pub proof fn lemma_first_payload_decides(payloads: Seq<Vec<u8>>)
    requires
        payloads.len() > 0,
    ensures
        payloads_orientation(payloads) == if payload_orientation(payloads[0]@) is Some {
            payload_orientation(payloads[0]@)
        } else {
            payloads_orientation(payloads.drop_first())
        },
        payloads_orientation(Seq::<Vec<u8>>::empty()) is None,
        payloads_tiff(payloads) matches Some(tiff) ==> (tiff.len() >= 4 && ((tiff[0] == 'I' as u8
            && tiff[1] == 'I' as u8 && tiff[2] == 42) || (tiff[0] == 'M' as u8 && tiff[1]
            == 'M' as u8 && tiff[3] == 42))),
    decreases payloads.len(),
{
    let payload = payloads[0]@;
    lemma_header_place(payload, tiff_places(payload));
    if header_place(payload, tiff_places(payload)) is None && payloads.len() > 1 {
        lemma_first_payload_decides(payloads.drop_first());
    } else if payloads.len() == 1 {
        assert(payloads.drop_first() =~= Seq::<Vec<u8>>::empty());
        reveal_with_fuel(payloads_tiff, 2);
    }
    if let Some(start) = header_place(payload, tiff_places(payload)) {
        let tiff = payload.skip(start);
        assert(tiff[0] == payload[start] && tiff[1] == payload[start + 1] && tiff[2]
            == payload[start + 2] && tiff[3] == payload[start + 3]);
    }
}

/// A header is found where there is one.
proof fn lemma_header_place(payload: Seq<u8>, places: Seq<int>)
    ensures
        header_place(payload, places) matches Some(place) ==> header_order(payload, place) is Some,
    decreases places.len(),
{
    if places.len() > 0 {
        lemma_header_place(payload, places.drop_first());
    }
}

/// Transforms turn or mirror an image where one of them is a rotation or a
/// mirroring; crops alone do not.
pub proof fn lemma_turning_transforms(transforms: Seq<PrimaryItemTransformProperty>, k: int)
    requires
        0 <= k < transforms.len(),
    ensures
        transforms[k] is Rotation ==> signals_orientation(Some(transforms)),
        transforms[k] is Mirror ==> signals_orientation(Some(transforms)),
        (forall|i: int| 0 <= i < transforms.len() ==> (#[trigger] transforms[i]) is CleanAperture)
            ==> !signals_orientation(Some(transforms)),
        !signals_orientation(None),
{
}

/// A file with the brand `avif` or `avis`, as its own or as one that it is
/// compatible with, is an AVIF file, whatever else it is compatible with; one
/// without these, but with a brand of the other family, is a HEIF file.
pub proof fn lemma_family_of_brands(ftyp: &FileTypeBox, k: int)
    requires
        0 <= k < ftyp.compatible_brands@.len(),
    ensures
        ({
            let (own, other) = (ftyp.major_brand@, ftyp.compatible_brands@[k]@);
            let avif = seq!['a' as u8, 'v' as u8, 'i' as u8, 'f' as u8];
            let avis = seq!['a' as u8, 'v' as u8, 'i' as u8, 's' as u8];
            &&& own == avif || own == avis || other == avif || other == avis ==> family_of(ftyp)
                == Some(HeifInputFamily::Avif)
            &&& own == seq!['h' as u8, 'e' as u8, 'i' as u8, 'c' as u8] || own == seq![
                'm' as u8,
                'i' as u8,
                'f' as u8,
                '1' as u8,
            ] ==> family_of(ftyp) is Some
        }),
{
    assert(ftyp.compatible_brands@[k]@.len() == 4);
}

/// The brands of the two families: `avif` and `avis`; and `mif1`, `msf1`,
/// `miaf`, `heic`, `heix`, `hevc`, `hevx`, `heim` and `heis`. No brand is of
/// both.
pub proof fn lemma_brands(brand: FourCc)
    ensures
        HeifInputFamily::Avif.has_brand(brand) <==> brand@[0] == 'a' as u8 && brand@[1] == 'v' as u8
            && brand@[2] == 'i' as u8 && (brand@[3] == 'f' as u8 || brand@[3] == 's' as u8),
        HeifInputFamily::Heif.has_brand(brand) <==> {
            ||| brand@[0] == 'm' as u8 && brand@[1] == 'i' as u8 && brand@[2] == 'f' as u8
                && brand@[3] == '1' as u8
            ||| brand@[0] == 'm' as u8 && brand@[1] == 's' as u8 && brand@[2] == 'f' as u8
                && brand@[3] == '1' as u8
            ||| brand@[0] == 'm' as u8 && brand@[1] == 'i' as u8 && brand@[2] == 'a' as u8
                && brand@[3] == 'f' as u8
            ||| brand@[0] == 'h' as u8 && brand@[1] == 'e' as u8 && brand@[2] == 'i' as u8 && (
            brand@[3] == 'c' as u8 || brand@[3] == 'x' as u8 || brand@[3] == 'm' as u8 || brand@[3]
                == 's' as u8)
            ||| brand@[0] == 'h' as u8 && brand@[1] == 'e' as u8 && brand@[2] == 'v' as u8 && (
            brand@[3] == 'c' as u8 || brand@[3] == 'x' as u8)
        },
{
}

/// The brands of a file decide on its family, and a hint only where they do
/// not. Without either there is none.
pub proof fn lemma_brands_before_hint(
    detected: Option<HeifInputFamily>,
    hint: Option<HeifInputFamily>,
)
    ensures
        resolved_family(detected, hint) is Err <==> detected is None && hint is None,
        detected is Some ==> resolved_family(detected, hint)->Ok_0 == detected->0,
        detected is None && hint is Some ==> resolved_family(detected, hint)->Ok_0 == hint->0,
{
}

/// A limit refuses what is larger, and nothing that is as large or smaller.
/// Without a limit nothing is refused.
pub proof fn lemma_limits_refuse(guardrails: &DecodeGuardrails, bytes: u64, width: u32, height: u32)
    ensures
        guardrails.input_error(bytes) is Some <==> guardrails.max_input_bytes is Some && bytes
            > guardrails.max_input_bytes->0,
        guardrails.pixel_error(width, height) is Some <==> guardrails.max_pixels is Some && width
            * height > guardrails.max_pixels->0,
{
}

/// Samples of up to eight bits are stored in eight bits, those of more in
/// sixteen.
pub proof fn lemma_stored_depth(depth: u8)
    ensures
        1 <= depth <= 8 ==> storage_depth(depth) == 8,
        9 <= depth <= 16 ==> storage_depth(depth) == 16,
        1 <= depth <= 16 ==> depth <= storage_depth(depth),
{
}

/// An orientation that is found is one of 1 to 8: of an entry, of a payload and
/// of the payloads of a file.
pub proof fn lemma_orientation_is_known(payloads: Seq<Vec<u8>>)
    ensures
        payloads_orientation(payloads) matches Some(value) ==> 1 <= value <= 8,
    decreases payloads.len(),
{
    if payloads.len() > 0 {
        let payload = payloads.first()@;
        lemma_known_at_places(payload, tiff_places(payload));
        lemma_orientation_is_known(payloads.drop_first());
    }
}

/// An orientation that is found at a place is one of 1 to 8.
proof fn lemma_known_at_places(payload: Seq<u8>, places: Seq<int>)
    ensures
        places_orientation(payload, places) matches Some(value) ==> 1 <= value <= 8,
    decreases places.len(),
{
    if places.len() > 0 {
        let start = places.first();
        if let Some(order) = header_order(payload, start) {
            if let Some(offset) = long_at(payload, start + 4, order) {
                if let Some(count) = short_at(payload, start + offset, order) {
                    lemma_known_in_entries(
                        payload,
                        start,
                        start + offset + 2,
                        order,
                        0,
                        count as int,
                    );
                }
            }
        }
        lemma_known_at_places(payload, places.drop_first());
    }
}

/// An orientation that is found in an entry is one of 1 to 8.
proof fn lemma_known_in_entries(
    payload: Seq<u8>,
    start: int,
    entries: int,
    order: ByteOrder,
    index: int,
    count: int,
)
    ensures
        entries_orientation(payload, start, entries, order, index, count) matches Some(value) ==> 1
            <= value <= 8,
    decreases count - index,
{
    if index < count {
        lemma_known_in_entries(payload, start, entries, order, index + 1, count);
    }
}

} // verus!
