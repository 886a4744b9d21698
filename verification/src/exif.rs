//! The orientation in EXIF metadata.
#[allow(unused_imports)]
use crate::bytes::be_value;
use crate::output::ByteOrder;
#[allow(unused_imports)]
use crate::output::two_bytes;
use crate::rgba::ExifOrientationHint;
use crate::transform::mapping::{transforms_include_orientation, PrimaryItemTransformProperty};
use vstd::prelude::*;

verus! {

/// The tag of the orientation.
pub const EXIF_ORIENTATION_TAG: u16 = 274;

/// The type of a field of numbers of sixteen bits.
pub const TIFF_TAG_TYPE_SHORT: u16 = 3;

/// The number that a TIFF header holds.
pub const TIFF_MAGIC_NUMBER: u16 = 42;

/// The two bytes of a payload at a place as a number, where it has them.
pub open spec fn short_at(payload: Seq<u8>, place: int, order: ByteOrder) -> Option<u16> {
    if 0 <= place && place + 2 <= payload.len() {
        Some(two_bytes(order, payload[place], payload[place + 1]))
    } else {
        None
    }
}

/// The four bytes of a payload at a place as a number, where it has them.
pub open spec fn long_at(payload: Seq<u8>, place: int, order: ByteOrder) -> Option<u32> {
    if 0 <= place && place + 4 <= payload.len() {
        let early = two_bytes(order, payload[place], payload[place + 1]);
        let late = two_bytes(order, payload[place + 2], payload[place + 3]);
        Some(
            match order {
                ByteOrder::LittleEndian => (early + 0x1_0000 * late) as u32,
                ByteOrder::BigEndian => (0x1_0000 * early + late) as u32,
            },
        )
    } else {
        None
    }
}

/// Reads two bytes of a payload.
pub fn read_tiff_u16(payload: &[u8], offset: usize, byte_order: ByteOrder) -> (value: Option<u16>)
    ensures
        value == short_at(payload@, offset as int, byte_order),
{
    if payload.len() < 2 || offset > payload.len() - 2 {
        return None;
    }
    let first: u16 = payload[offset] as u16;
    let second: u16 = payload[offset + 1] as u16;
    Some(
        match byte_order {
            ByteOrder::LittleEndian => first + 256 * second,
            ByteOrder::BigEndian => 256 * first + second,
        },
    )
}

/// Reads four bytes of a payload.
pub fn read_tiff_u32(payload: &[u8], offset: usize, byte_order: ByteOrder) -> (value: Option<u32>)
    ensures
        value == long_at(payload@, offset as int, byte_order),
{
    if payload.len() < 4 || offset > payload.len() - 4 {
        return None;
    }
    let early: u32 = match read_tiff_u16(payload, offset, byte_order) {
        None => {
            return None;
        },
        Some(value) => value as u32,
    };
    let late: u32 = match read_tiff_u16(payload, offset + 2, byte_order) {
        None => {
            return None;
        },
        Some(value) => value as u32,
    };
    Some(
        match byte_order {
            ByteOrder::LittleEndian => early + 0x1_0000 * late,
            ByteOrder::BigEndian => 0x1_0000 * early + late,
        },
    )
}

/// The byte order that a TIFF header at a place announces, where there is a
/// sound header.
pub open spec fn header_order(payload: Seq<u8>, place: int) -> Option<ByteOrder> {
    if place < 0 || place + 2 > payload.len() {
        None
    } else {
        let order = if payload[place] == 73 && payload[place + 1] == 73 {
            Some(ByteOrder::LittleEndian)
        } else if payload[place] == 77 && payload[place + 1] == 77 {
            Some(ByteOrder::BigEndian)
        } else {
            None
        };
        match order {
            None => None,
            Some(order) => if short_at(payload, place + 2, order) == Some(TIFF_MAGIC_NUMBER) {
                Some(order)
            } else {
                None
            },
        }
    }
}

/// The byte order that a TIFF header at a place announces.
pub fn tiff_byte_order_at(payload: &[u8], tiff_start: usize) -> (order: Option<ByteOrder>)
    ensures
        order == header_order(payload@, tiff_start as int),
{
    if payload.len() < 2 || tiff_start > payload.len() - 2 {
        return None;
    }
    let first: u8 = payload[tiff_start];
    let second: u8 = payload[tiff_start + 1];
    let order: ByteOrder = if first == 73 && second == 73 {
        ByteOrder::LittleEndian
    } else if first == 77 && second == 77 {
        ByteOrder::BigEndian
    } else {
        return None;
    };
    match read_tiff_u16(payload, tiff_start + 2, order) {
        Some(magic) => if magic == TIFF_MAGIC_NUMBER {
            Some(order)
        } else {
            None
        },
        None => None,
    }
}

/// What an entry of a directory comes to.
pub enum EntryOutcome {
    /// The payload ends before the entry does.
    Broken,
    /// The entry gives no orientation.
    Passed,
    Found(u16),
}

/// Whether a number is an orientation.
pub open spec fn is_orientation(value: u16) -> bool {
    1 <= value <= 8
}

/// What the entry of a directory at a place comes to.
pub open spec fn entry_outcome(
    payload: Seq<u8>,
    tiff_start: int,
    place: int,
    order: ByteOrder,
) -> EntryOutcome {
    match short_at(payload, place, order) {
        None => EntryOutcome::Broken,
        Some(tag) => if tag != EXIF_ORIENTATION_TAG {
            EntryOutcome::Passed
        } else {
            match (short_at(payload, place + 2, order), long_at(payload, place + 4, order)) {
                (Some(kind), Some(count)) => if kind != TIFF_TAG_TYPE_SHORT || count == 0 {
                    EntryOutcome::Passed
                } else {
                    let value = if count == 1 {
                        short_at(payload, place + 8, order)
                    } else {
                        match long_at(payload, place + 8, order) {
                            None => None,
                            Some(offset) => short_at(payload, tiff_start + offset, order),
                        }
                    };
                    match value {
                        None => EntryOutcome::Broken,
                        Some(value) => if is_orientation(value) {
                            EntryOutcome::Found(value)
                        } else {
                            EntryOutcome::Passed
                        },
                    }
                },
                _ => EntryOutcome::Broken,
            }
        },
    }
}

/// The orientation that the entries from `index` on give, if any does: the
/// first that is found before the payload ends.
pub open spec fn entries_orientation(
    payload: Seq<u8>,
    tiff_start: int,
    entries: int,
    order: ByteOrder,
    index: int,
    count: int,
) -> Option<u16>
    decreases count - index,
{
    if index >= count {
        None
    } else {
        match entry_outcome(payload, tiff_start, entries + 12 * index, order) {
            EntryOutcome::Broken => None,
            EntryOutcome::Found(value) => Some(value),
            EntryOutcome::Passed => entries_orientation(
                payload,
                tiff_start,
                entries,
                order,
                index + 1,
                count,
            ),
        }
    }
}

/// The orientation in the directory at a place, if there is one.
pub open spec fn directory_orientation(
    payload: Seq<u8>,
    tiff_start: int,
    place: int,
    order: ByteOrder,
) -> Option<u16> {
    match short_at(payload, place, order) {
        None => None,
        Some(count) => entries_orientation(
            payload,
            tiff_start,
            place + 2,
            order,
            0,
            count as int,
        ),
    }
}

/// The value of an entry that names the orientation.
fn entry_value(payload: &[u8], tiff_start: usize, place: usize, count: u32, order: ByteOrder) -> (value:
    Option<u16>)
    requires
        place + 8 <= payload@.len(),
        count > 0,
    ensures
        value == (if count == 1 {
            short_at(payload@, place + 8, order)
        } else {
            match long_at(payload@, place + 8, order) {
                None => None,
                Some(offset) => short_at(payload@, tiff_start + offset, order),
            }
        }),
{
    let total: usize = payload.len();
    if count == 1 {
        return read_tiff_u16(payload, place + 8, order);
    }
    match read_tiff_u32(payload, place + 8, order) {
        None => None,
        Some(offset) => match tiff_start.checked_add(offset as usize) {
            None => None,
            Some(at) => read_tiff_u16(payload, at, order),
        },
    }
}

/// The orientation in the directory at a place.
pub fn parse_exif_orientation_from_ifd(
    payload: &[u8],
    tiff_start: usize,
    ifd_offset: usize,
    byte_order: ByteOrder,
) -> (orientation: Option<u16>)
    ensures
        orientation == directory_orientation(
            payload@,
            tiff_start as int,
            ifd_offset as int,
            byte_order,
        ),
{
    let total: usize = payload.len();
    let count: u16 = match read_tiff_u16(payload, ifd_offset, byte_order) {
        None => {
            return None;
        },
        Some(count) => count,
    };
    let entries: usize = ifd_offset + 2;
    let mut place: usize = entries;
    let mut index: u16 = 0;
    while index < count
        invariant
            index <= count,
            total == payload@.len(),
            entries <= total,
            entries == ifd_offset + 2,
            place == entries + 12 * index,
            short_at(payload@, ifd_offset as int, byte_order) == Some(count),
            directory_orientation(
                payload@,
                tiff_start as int,
                ifd_offset as int,
                byte_order,
            ) == entries_orientation(
                payload@,
                tiff_start as int,
                entries as int,
                byte_order,
                index as int,
                count as int,
            ),
        decreases count - index,
    {
        let tag: u16 = match read_tiff_u16(payload, place, byte_order) {
            None => {
                return None;
            },
            Some(tag) => tag,
        };
        if tag == EXIF_ORIENTATION_TAG {
            let kind: u16 = match read_tiff_u16(payload, place + 2, byte_order) {
                None => {
                    return None;
                },
                Some(kind) => kind,
            };
            let values: u32 = match read_tiff_u32(payload, place + 4, byte_order) {
                None => {
                    return None;
                },
                Some(values) => values,
            };
            if kind == TIFF_TAG_TYPE_SHORT && values != 0 {
                match entry_value(payload, tiff_start, place, values, byte_order) {
                    None => {
                        return None;
                    },
                    Some(value) => {
                        if 1 <= value && value <= 8 {
                            return Some(value);
                        }
                    },
                }
            }
        }
        index = index + 1;
        if index < count {
            match place.checked_add(12) {
                None => {
                    proof {
                        assert(short_at(payload@, place + 12, byte_order) is None);
                    }
                    return None;
                },
                Some(next) => {
                    place = next;
                },
            }
        } else {
            return None;
        }
    }
    None
}

/// The orientation in the TIFF data at a place, if there is one.
pub open spec fn tiff_orientation(payload: Seq<u8>, tiff_start: int) -> Option<u16> {
    match header_order(payload, tiff_start) {
        None => None,
        Some(order) => match long_at(payload, tiff_start + 4, order) {
            None => None,
            Some(offset) => directory_orientation(
                payload,
                tiff_start,
                tiff_start + offset,
                order,
            ),
        },
    }
}

/// The orientation in the TIFF data at a place.
pub fn parse_exif_orientation_from_tiff(payload: &[u8], tiff_start: usize) -> (orientation: Option<
    u16,
>)
    ensures
        orientation == tiff_orientation(payload@, tiff_start as int),
{
    let total: usize = payload.len();
    let order: ByteOrder = match tiff_byte_order_at(payload, tiff_start) {
        None => {
            return None;
        },
        Some(order) => order,
    };
    let offset: u32 = match read_tiff_u32(payload, tiff_start + 4, order) {
        None => {
            return None;
        },
        Some(offset) => offset,
    };
    match tiff_start.checked_add(offset as usize) {
        None => None,
        Some(directory) => parse_exif_orientation_from_ifd(payload, tiff_start, directory, order),
    }
}

/// Whether a needle lies in a haystack at a place.
pub open spec fn lies_at(haystack: Seq<u8>, needle: Seq<u8>, place: int) -> bool {
    0 <= place && place + needle.len() <= haystack.len() && haystack.subrange(
        place,
        place + needle.len(),
    ) == needle
}

/// The first place of a needle in a haystack.
pub fn find_subslice(haystack: &[u8], needle: &[u8]) -> (place: Option<usize>)
    ensures
        match place {
            Some(place) => needle@.len() > 0 && lies_at(haystack@, needle@, place as int)
                && forall|other: int|
                0 <= other < place ==> !(#[trigger] lies_at(haystack@, needle@, other)),
            None => needle@.len() == 0 || forall|other: int|
                !(#[trigger] lies_at(haystack@, needle@, other)),
        },
{
    if needle.len() == 0 || haystack.len() < needle.len() {
        return None;
    }
    let total: usize = haystack.len();
    let last: usize = total - needle.len();
    let mut place: usize = 0;
    loop
        invariant
            place <= last,
            needle@.len() > 0,
            total == haystack@.len(),
            last == total - needle@.len(),
            forall|other: int|
                0 <= other < place ==> !(#[trigger] lies_at(haystack@, needle@, other)),
        decreases last - place,
    {
        let mut k: usize = 0;
        while k < needle.len() && haystack[place + k] == needle[k]
            invariant
                k <= needle@.len(),
                place <= last,
                total == haystack@.len(),
                last == total - needle@.len(),
                forall|i: int| 0 <= i < k ==> #[trigger] needle@[i] == haystack@[place + i],
            decreases needle@.len() - k,
        {
            k = k + 1;
        }
        let ghost window = haystack@.subrange(place as int, place + needle@.len());
        if k == needle.len() {
            assert(window =~= needle@);
            return Some(place);
        }
        assert(window[k as int] != needle@[k as int]);
        assert(!lies_at(haystack@, needle@, place as int));
        if place == last {
            return None;
        }
        place = place + 1;
    }
}

/// The bytes that come before TIFF data in some payloads.
pub open spec fn exif_header() -> Seq<u8> {
    seq![69, 120, 105, 102, 0, 0]
}

/// The first place of a needle in a haystack, if there is one.
pub open spec fn first_place(haystack: Seq<u8>, needle: Seq<u8>) -> Option<int> {
    if exists|place: int| #[trigger]
        lies_at(haystack, needle, place) && (forall|other: int|
            0 <= other < place ==> !(#[trigger] lies_at(haystack, needle, other))) {
        Some(
            choose|place: int| #[trigger]
                lies_at(haystack, needle, place) && (forall|other: int|
                    0 <= other < place ==> !(#[trigger] lies_at(haystack, needle, other))),
        )
    } else {
        None
    }
}

/// There is only one first place.
proof fn lemma_first_place(haystack: Seq<u8>, needle: Seq<u8>, found: Option<usize>)
    requires
        match found {
            Some(place) => lies_at(haystack, needle, place as int) && forall|other: int|
                0 <= other < place ==> !(#[trigger] lies_at(haystack, needle, other)),
            None => forall|other: int| !(#[trigger] lies_at(haystack, needle, other)),
        },
    ensures
        match found {
            Some(place) => first_place(haystack, needle) == Some(place as int),
            None => first_place(haystack, needle) is None,
        },
{
    if let Some(place) = found {
        assert(lies_at(haystack, needle, place as int));
        let chosen = first_place(haystack, needle)->0;
        assert(first_place(haystack, needle) is Some);
        if chosen < place {
            assert(!lies_at(haystack, needle, chosen));
        } else if place < chosen {
            assert(!lies_at(haystack, needle, place as int));
        }
    }
}

/// The places that the TIFF data of an item payload may start at: where its
/// first four bytes say, behind the header, and at its beginning.
pub open spec fn tiff_places(payload: Seq<u8>) -> Seq<int> {
    let told = if payload.len() >= 4 && 4 + be_value(payload.subrange(0, 4)) <= usize::MAX {
        seq![4 + be_value(payload.subrange(0, 4))]
    } else {
        Seq::empty()
    };
    let marked = match first_place(payload, exif_header()) {
        Some(place) => if told.contains(place + 6) {
            told
        } else {
            told.push(place + 6)
        },
        None => told,
    };
    if marked.contains(0) {
        marked
    } else {
        marked.push(0)
    }
}

/// What offsets are as numbers.
pub open spec fn offsets(places: Seq<usize>) -> Seq<int> {
    places.map_values(|place: usize| place as int)
}

/// Whether an offset is among others.
fn among(places: &Vec<usize>, place: usize) -> (found: bool)
    ensures
        found == offsets(places@).contains(place as int),
{
    let mut k: usize = 0;
    while k < places.len()
        invariant
            k <= places@.len(),
            forall|i: int| 0 <= i < k ==> #[trigger] places@[i] != place,
        decreases places@.len() - k,
    {
        if places[k] == place {
            assert(offsets(places@)[k as int] == place as int);
            return true;
        }
        k = k + 1;
    }
    proof {
        assert forall|i: int| 0 <= i < offsets(places@).len() implies offsets(places@)[i]
            != place as int by {
            assert(places@[i] != place);
        }
    }
    false
}

/// The places that the TIFF data of an item payload may start at.
pub fn exif_item_payload_tiff_start_candidates(payload: &[u8]) -> (places: Vec<usize>)
    ensures
        offsets(places@) == tiff_places(payload@),
{
    let mut places: Vec<usize> = Vec::new();
    let total: usize = payload.len();
    assert(offsets(places@) =~= Seq::<int>::empty());
    if total >= 4 {
        let told: u32 = crate::bytes::read_u32_be_from(payload);
        match 4usize.checked_add(told as usize) {
            Some(place) => {
                places.push(place);
                assert(offsets(places@) =~= seq![place as int]);
            },
            None => {},
        }
    }
    let header: [u8; 6] = [69, 120, 105, 102, 0, 0];
    assert(header@ =~= exif_header());
    let found: Option<usize> = find_subslice(payload, header.as_slice());
    proof {
        lemma_first_place(payload@, exif_header(), found);
    }
    if let Some(place) = found {
        let behind: usize = place + 6;
        if !among(&places, behind) {
            let ghost before = places@;
            places.push(behind);
            assert(offsets(places@) =~= offsets(before).push(behind as int));
        }
    }
    if !among(&places, 0) {
        let ghost before = places@;
        places.push(0);
        assert(offsets(places@) =~= offsets(before).push(0));
    }
    places
}

/// The first orientation that TIFF data at one of the places gives.
pub open spec fn places_orientation(payload: Seq<u8>, places: Seq<int>) -> Option<u16>
    decreases places.len(),
{
    if places.len() == 0 {
        None
    } else {
        match tiff_orientation(payload, places.first()) {
            Some(value) => Some(value),
            None => places_orientation(payload, places.drop_first()),
        }
    }
}

/// The orientation in an item payload, if there is one.
pub open spec fn payload_orientation(payload: Seq<u8>) -> Option<u16> {
    places_orientation(payload, tiff_places(payload))
}

/// An orientation that is found is one.
pub proof fn lemma_entries_orientation(
    payload: Seq<u8>,
    tiff_start: int,
    entries: int,
    order: ByteOrder,
    index: int,
    count: int,
)
    ensures
        entries_orientation(payload, tiff_start, entries, order, index, count) matches Some(value)
            ==> is_orientation(value),
    decreases count - index,
{
    if index < count {
        lemma_entries_orientation(payload, tiff_start, entries, order, index + 1, count);
    }
}

/// Every orientation that metadata gives is one.
pub proof fn lemma_payload_orientation(payload: Seq<u8>, places: Seq<int>)
    ensures
        places_orientation(payload, places) matches Some(value) ==> is_orientation(value),
    decreases places.len(),
{
    if places.len() > 0 {
        let start = places.first();
        if let Some(order) = header_order(payload, start) {
            if let Some(offset) = long_at(payload, start + 4, order) {
                if let Some(count) = short_at(payload, start + offset, order) {
                    lemma_entries_orientation(
                        payload,
                        start,
                        start + offset + 2,
                        order,
                        0,
                        count as int,
                    );
                }
            }
        }
        lemma_payload_orientation(payload, places.drop_first());
    }
}

/// The orientation in an item payload.
pub fn parse_exif_orientation_from_item_payload(payload: &[u8]) -> (orientation: Option<u16>)
    ensures
        orientation == payload_orientation(payload@),
        orientation matches Some(value) ==> is_orientation(value),
{
    let places: Vec<usize> = exif_item_payload_tiff_start_candidates(payload);
    let ghost all = tiff_places(payload@);
    proof {
        lemma_payload_orientation(payload@, all);
        assert(all.skip(0) =~= all);
    }
    let mut k: usize = 0;
    while k < places.len()
        invariant
            k <= places@.len(),
            offsets(places@) == all,
            all == tiff_places(payload@),
            payload_orientation(payload@) == places_orientation(payload@, all.skip(k as int)),
            payload_orientation(payload@) matches Some(value) ==> is_orientation(value),
        decreases places@.len() - k,
    {
        proof {
            assert(all.skip(k as int).first() == offsets(places@)[k as int]);
            assert(all.skip(k as int).drop_first() =~= all.skip(k + 1));
        }
        match parse_exif_orientation_from_tiff(payload, places[k]) {
            Some(value) => {
                return Some(value);
            },
            None => {},
        }
        k = k + 1;
    }
    None
}

/// The first of the places that holds a sound TIFF header.
pub open spec fn header_place(payload: Seq<u8>, places: Seq<int>) -> Option<int>
    decreases places.len(),
{
    if places.len() == 0 {
        None
    } else if header_order(payload, places.first()) is Some {
        Some(places.first())
    } else {
        header_place(payload, places.drop_first())
    }
}

/// Where the TIFF data of an item payload starts, if it has any.
pub fn exif_item_payload_tiff_start(payload: &[u8]) -> (place: Option<usize>)
    ensures
        match header_place(payload@, tiff_places(payload@)) {
            None => place is None,
            Some(start) => place is Some && place->0 == start && start <= payload@.len(),
        },
{
    let places: Vec<usize> = exif_item_payload_tiff_start_candidates(payload);
    let ghost all = tiff_places(payload@);
    assert(all.skip(0) =~= all);
    let mut k: usize = 0;
    while k < places.len()
        invariant
            k <= places@.len(),
            offsets(places@) == all,
            all == tiff_places(payload@),
            header_place(payload@, all) == header_place(payload@, all.skip(k as int)),
        decreases places@.len() - k,
    {
        proof {
            assert(all.skip(k as int).first() == offsets(places@)[k as int]);
            assert(all.skip(k as int).drop_first() =~= all.skip(k + 1));
        }
        if tiff_byte_order_at(payload, places[k]).is_some() {
            return Some(places[k]);
        }
        k = k + 1;
    }
    None
}

/// The first orientation that one of some item payloads gives.
pub open spec fn payloads_orientation(payloads: Seq<Vec<u8>>) -> Option<u16>
    decreases payloads.len(),
{
    if payloads.len() == 0 {
        None
    } else {
        match payload_orientation(payloads.first()@) {
            Some(value) => Some(value),
            None => payloads_orientation(payloads.drop_first()),
        }
    }
}

/// The orientation of the primary item, by the payloads of the EXIF items that
/// describe it.
pub fn primary_exif_orientation(payloads: &[Vec<u8>]) -> (orientation: Option<u8>)
    ensures
        match payloads_orientation(payloads@) {
            None => orientation is None,
            Some(value) => orientation is Some && orientation->0 == value && 1 <= value <= 8,
        },
{
    let ghost all = payloads@;
    assert(all.skip(0) =~= all);
    let mut k: usize = 0;
    while k < payloads.len()
        invariant
            k <= payloads@.len(),
            all == payloads@,
            payloads_orientation(all) == payloads_orientation(all.skip(k as int)),
        decreases payloads@.len() - k,
    {
        proof {
            assert(all.skip(k as int).first() == payloads@[k as int]);
            assert(all.skip(k as int).drop_first() =~= all.skip(k + 1));
        }
        match parse_exif_orientation_from_item_payload(payloads[k].as_slice()) {
            Some(value) => {
                return Some(value as u8);
            },
            None => {},
        }
        k = k + 1;
    }
    None
}

/// The first payload with TIFF data.
pub open spec fn payloads_tiff(payloads: Seq<Vec<u8>>) -> Option<Seq<u8>>
    decreases payloads.len(),
{
    if payloads.len() == 0 {
        None
    } else {
        let payload = payloads.first()@;
        match header_place(payload, tiff_places(payload)) {
            Some(start) => Some(payload.skip(start)),
            None => payloads_tiff(payloads.drop_first()),
        }
    }
}

/// The TIFF data of the primary item, by the payloads of the EXIF items that
/// describe it.
pub fn primary_exif_tiff_payload(payloads: &[Vec<u8>]) -> (tiff: Option<Vec<u8>>)
    ensures
        match payloads_tiff(payloads@) {
            None => tiff is None,
            Some(bytes) => tiff is Some && tiff->0@ == bytes,
        },
{
    let ghost all = payloads@;
    assert(all.skip(0) =~= all);
    let mut k: usize = 0;
    while k < payloads.len()
        invariant
            k <= payloads@.len(),
            all == payloads@,
            payloads_tiff(all) == payloads_tiff(all.skip(k as int)),
        decreases payloads@.len() - k,
    {
        proof {
            assert(all.skip(k as int).first() == payloads@[k as int]);
            assert(all.skip(k as int).drop_first() =~= all.skip(k + 1));
        }
        let payload: &[u8] = payloads[k].as_slice();
        match exif_item_payload_tiff_start(payload) {
            Some(start) => {
                let tiff: &[u8] = vstd::slice::slice_subrange(payload, start, payload.len());
                let mut bytes: Vec<u8> = Vec::new();
                bytes.extend_from_slice(tiff);
                assert(bytes@ =~= payload@.skip(start as int));
                return Some(bytes);
            },
            None => {},
        }
        k = k + 1;
    }
    None
}

/// Whether a rotation, of whatever angle, or a mirror is among the transforms;
/// an item whose transforms cannot be had counts as one without.
pub open spec fn signals_orientation(
    transforms: Option<Seq<PrimaryItemTransformProperty>>,
) -> bool {
    match transforms {
        None => false,
        Some(list) => exists|k: int|
            0 <= k < list.len() && ((#[trigger] list[k]) is Rotation || list[k] is Mirror),
    }
}

/// What transforms are, where they can be had.
pub open spec fn listed(transforms: Option<&[PrimaryItemTransformProperty]>) -> Option<
    Seq<PrimaryItemTransformProperty>,
> {
    match transforms {
        None => None,
        Some(list) => Some(list@),
    }
}

/// Return `true` when the primary item already carries `irot` or `imir`.
/// Applying the EXIF orientation too would then turn or mirror twice.
pub fn primary_item_has_orientation_transform(
    transforms: Option<&[PrimaryItemTransformProperty]>,
) -> (found: bool)
    ensures
        found == signals_orientation(listed(transforms)),
{
    match transforms {
        Some(list) => transforms_include_orientation(list),
        None => false,
    }
}

/// Inspect EXIF orientation and primary-item transform signalling for
/// caller-controlled orientation handling.
pub fn exif_orientation_hint(
    payloads: &[Vec<u8>],
    transforms: Option<&[PrimaryItemTransformProperty]>,
) -> (hint: ExifOrientationHint)
    ensures
        match payloads_orientation(payloads@) {
            None => hint.exif_orientation is None,
            Some(value) => hint.exif_orientation is Some && hint.exif_orientation->0 == value,
        },
        hint.primary_item_has_orientation_transform == signals_orientation(listed(transforms)),
{
    ExifOrientationHint {
        exif_orientation: primary_exif_orientation(payloads),
        primary_item_has_orientation_transform: primary_item_has_orientation_transform(
            transforms,
        ),
    }
}

} // verus!
