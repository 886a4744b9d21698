//! The items of a file: their types, places, properties and references.
#[allow(unused_imports)]
use crate::boxes::{reads_file, reads_whole};
use crate::errors::DecodeError;
use crate::fourcc::{four_cc_is, FourCc};
#[allow(unused_imports)]
use crate::fourcc::spells;
use vstd::prelude::*;
use vstd::slice::slice_subrange;

verus! {

/// A reference from an item to others.
#[derive(Clone, Debug, PartialEq, Eq)]
pub struct ItemReference {
    pub reference_type: FourCc,
    pub from_item_id: u32,
    pub to_item_ids: Vec<u32>,
}

/// What an item is.
#[derive(Clone, Debug, PartialEq, Eq)]
pub struct ItemInfoEntry {
    pub item_id: u32,
    pub item_type: Option<FourCc>,
    pub item_name: Vec<u8>,
    pub content_type: Option<Vec<u8>>,
}

/// A piece of an item.
#[derive(Clone, Copy, Debug, PartialEq, Eq, Structural)]
pub struct ItemExtent {
    pub offset: u64,
    pub length: u64,
}

/// Where an item lies.
#[derive(Clone, Debug, PartialEq, Eq)]
pub struct ItemLocation {
    pub item_id: u32,
    pub construction_method: u8,
    pub data_reference_index: u16,
    pub base_offset: u64,
    pub extents: Vec<ItemExtent>,
}

/// A property of items.
#[derive(Clone, Debug, PartialEq, Eq)]
pub struct ItemProperty {
    pub box_type: FourCc,
    pub payload: Vec<u8>,
}

/// The properties of an item, by their numbers; the first property has the
/// number one, and zero stands for none.
#[derive(Clone, Debug, PartialEq, Eq)]
pub struct ItemAssociations {
    pub item_id: u32,
    pub property_indices: Vec<u16>,
}

/// The items of a file.
#[derive(Clone, Debug, PartialEq, Eq)]
pub struct ItemGraph {
    pub primary_item_id: u32,
    pub references: Vec<ItemReference>,
    pub infos: Vec<ItemInfoEntry>,
    pub locations: Vec<ItemLocation>,
    pub properties: Vec<ItemProperty>,
    pub associations: Vec<ItemAssociations>,
}

/// A letter in lower case.
pub open spec fn lower(byte: u8) -> u8 {
    if 65 <= byte <= 90 {
        (byte + 32) as u8
    } else {
        byte
    }
}

/// A letter in lower case.
fn to_lower(byte: u8) -> (letter: u8)
    ensures
        letter == lower(byte),
{
    if 65 <= byte && byte <= 90 {
        byte + 32
    } else {
        byte
    }
}

/// Whether two texts differ at most in the case of letters.
pub open spec fn same_letters(left: Seq<u8>, right: Seq<u8>) -> bool {
    &&& left.len() == right.len()
    &&& forall|k: int| 0 <= k < left.len() ==> #[trigger] lower(left[k]) == lower(right[k])
}

/// Whether two texts differ at most in the case of letters.
pub fn bytes_eq_ignore_ascii_case(lhs: &[u8], rhs: &[u8]) -> (same: bool)
    ensures
        same == same_letters(lhs@, rhs@),
{
    if lhs.len() != rhs.len() {
        return false;
    }
    let mut k: usize = 0;
    while k < lhs.len()
        invariant
            k <= lhs@.len(),
            lhs@.len() == rhs@.len(),
            forall|i: int| 0 <= i < k ==> #[trigger] lower(lhs@[i]) == lower(rhs@[i]),
        decreases lhs@.len() - k,
    {
        if to_lower(lhs[k]) != to_lower(rhs[k]) {
            assert(lower(lhs@[k as int]) != lower(rhs@[k as int]));
            return false;
        }
        k = k + 1;
    }
    true
}

/// Whether a text is the name of EXIF data.
pub open spec fn names_exif(name: Seq<u8>) -> bool {
    same_letters(name, seq![69u8, 120, 105, 102])
}

/// Whether a content type is one of EXIF data: `application/exif` or
/// `image/tiff`.
pub open spec fn is_exif_content(content: Seq<u8>) -> bool {
    ||| same_letters(
        content,
        seq![
            97u8,
            112,
            112,
            108,
            105,
            99,
            97,
            116,
            105,
            111,
            110,
            47,
            101,
            120,
            105,
            102,
        ],
    )
    ||| same_letters(content, seq![105u8, 109, 97, 103, 101, 47, 116, 105, 102, 102])
}

/// Whether an item may hold EXIF data: by its type, or as a MIME item by its
/// name or content type.
pub open spec fn is_exif_item(info: ItemInfoEntry) -> bool {
    match info.item_type {
        None => false,
        Some(code) => spells(code, 69, 120, 105, 102) || (spells(code, 109, 105, 109, 101) && (
        names_exif(info.item_name@) || (info.content_type matches Some(content)
            && is_exif_content(content@)))),
    }
}

/// Whether an item may hold EXIF data.
pub fn item_info_is_exif_candidate(item_info: &ItemInfoEntry) -> (candidate: bool)
    ensures
        candidate == is_exif_item(*item_info),
{
    let code: FourCc = match item_info.item_type {
        None => {
            return false;
        },
        Some(code) => code,
    };
    if four_cc_is(code, 69, 120, 105, 102) {
        return true;
    }
    if !four_cc_is(code, 109, 105, 109, 101) {
        return false;
    }
    let name: [u8; 4] = [69, 120, 105, 102];
    assert(name@ =~= seq![69u8, 120, 105, 102]);
    if bytes_eq_ignore_ascii_case(item_info.item_name.as_slice(), name.as_slice()) {
        return true;
    }
    match &item_info.content_type {
        None => false,
        Some(content) => {
            let application: [u8; 16] = [
                97,
                112,
                112,
                108,
                105,
                99,
                97,
                116,
                105,
                111,
                110,
                47,
                101,
                120,
                105,
                102,
            ];
            let image: [u8; 10] = [105, 109, 97, 103, 101, 47, 116, 105, 102, 102];
            assert(application@ =~= seq![
                97u8,
                112,
                112,
                108,
                105,
                99,
                97,
                116,
                105,
                111,
                110,
                47,
                101,
                120,
                105,
                102,
            ]);
            assert(image@ =~= seq![105u8, 109, 97, 103, 101, 47, 116, 105, 102, 102]);
            bytes_eq_ignore_ascii_case(content.as_slice(), application.as_slice())
                || bytes_eq_ignore_ascii_case(content.as_slice(), image.as_slice())
        },
    }
}

/// The first entry of an item, if there is one.
pub open spec fn info_of(infos: Seq<ItemInfoEntry>, item_id: u32) -> Option<int>
    decreases infos.len(),
{
    if infos.len() == 0 {
        None
    } else {
        match info_of(infos.drop_last(), item_id) {
            Some(k) => Some(k),
            None => if infos.last().item_id == item_id {
                Some(infos.len() - 1)
            } else {
                None
            },
        }
    }
}

/// The first place of an item, if there is one.
pub open spec fn location_of(locations: Seq<ItemLocation>, item_id: u32) -> Option<int>
    decreases locations.len(),
{
    if locations.len() == 0 {
        None
    } else {
        match location_of(locations.drop_last(), item_id) {
            Some(k) => Some(k),
            None => if locations.last().item_id == item_id {
                Some(locations.len() - 1)
            } else {
                None
            },
        }
    }
}

/// An entry that is found stays the first.
proof fn lemma_info_of(infos: Seq<ItemInfoEntry>, item_id: u32, few: int)
    requires
        0 <= few <= infos.len(),
        info_of(infos.take(few), item_id) is Some,
    ensures
        info_of(infos, item_id) == info_of(infos.take(few), item_id),
    decreases infos.len() - few,
{
    if few < infos.len() {
        assert(infos.take(few + 1).drop_last() =~= infos.take(few));
        lemma_info_of(infos, item_id, few + 1);
    } else {
        assert(infos.take(few) =~= infos);
    }
}

/// A place that is found stays the first.
proof fn lemma_location_of(locations: Seq<ItemLocation>, item_id: u32, few: int)
    requires
        0 <= few <= locations.len(),
        location_of(locations.take(few), item_id) is Some,
    ensures
        location_of(locations, item_id) == location_of(locations.take(few), item_id),
    decreases locations.len() - few,
{
    if few < locations.len() {
        assert(locations.take(few + 1).drop_last() =~= locations.take(few));
        lemma_location_of(locations, item_id, few + 1);
    } else {
        assert(locations.take(few) =~= locations);
    }
}

impl ItemGraph {
    /// Finds the entry of an item.
    pub fn find_info(&self, item_id: u32) -> (found: Option<usize>)
        ensures
            match info_of(self.infos@, item_id) {
                None => found is None,
                Some(k) => found is Some && found->0 == k && 0 <= k < self.infos@.len(),
            },
    {
        let mut k: usize = 0;
        assert(self.infos@.take(0) =~= Seq::<ItemInfoEntry>::empty());
        while k < self.infos.len()
            invariant
                k <= self.infos@.len(),
                info_of(self.infos@.take(k as int), item_id) is None,
            decreases self.infos@.len() - k,
        {
            assert(self.infos@.take(k + 1).drop_last() =~= self.infos@.take(k as int));
            if self.infos[k].item_id == item_id {
                proof {
                    lemma_info_of(self.infos@, item_id, k + 1);
                }
                return Some(k);
            }
            k = k + 1;
        }
        assert(self.infos@.take(k as int) =~= self.infos@);
        None
    }

    /// Finds the place of an item.
    pub fn find_location(&self, item_id: u32) -> (found: Option<usize>)
        ensures
            match location_of(self.locations@, item_id) {
                None => found is None,
                Some(k) => found is Some && found->0 == k && 0 <= k < self.locations@.len(),
            },
    {
        let mut k: usize = 0;
        assert(self.locations@.take(0) =~= Seq::<ItemLocation>::empty());
        while k < self.locations.len()
            invariant
                k <= self.locations@.len(),
                location_of(self.locations@.take(k as int), item_id) is None,
            decreases self.locations@.len() - k,
        {
            assert(self.locations@.take(k + 1).drop_last() =~= self.locations@.take(k as int));
            if self.locations[k].item_id == item_id {
                proof {
                    lemma_location_of(self.locations@, item_id, k + 1);
                }
                return Some(k);
            }
            k = k + 1;
        }
        assert(self.locations@.take(k as int) =~= self.locations@);
        None
    }
}

/// The auxiliary type `urn:mpeg:avc:2015:auxid:1`.
pub open spec fn avc_alpha_type() -> Seq<u8> {
    seq![
        117u8,
        114,
        110,
        58,
        109,
        112,
        101,
        103,
        58,
        97,
        118,
        99,
        58,
        50,
        48,
        49,
        53,
        58,
        97,
        117,
        120,
        105,
        100,
        58,
        49,
    ]
}

/// The auxiliary type `urn:mpeg:hevc:2015:auxid:1`.
pub open spec fn hevc_alpha_type() -> Seq<u8> {
    seq![
        117u8,
        114,
        110,
        58,
        109,
        112,
        101,
        103,
        58,
        104,
        101,
        118,
        99,
        58,
        50,
        48,
        49,
        53,
        58,
        97,
        117,
        120,
        105,
        100,
        58,
        49,
    ]
}

/// The auxiliary type `urn:mpeg:mpegB:cicp:systems:auxiliary:alpha`.
pub open spec fn mpeg_alpha_type() -> Seq<u8> {
    seq![
        117u8,
        114,
        110,
        58,
        109,
        112,
        101,
        103,
        58,
        109,
        112,
        101,
        103,
        66,
        58,
        99,
        105,
        99,
        112,
        58,
        115,
        121,
        115,
        116,
        101,
        109,
        115,
        58,
        97,
        117,
        120,
        105,
        108,
        105,
        97,
        114,
        121,
        58,
        97,
        108,
        112,
        104,
        97,
    ]
}

/// Where the text that starts at a place ends: at the first zero, or with the
/// bytes.
pub open spec fn text_end(bytes: Seq<u8>, place: int) -> int
    decreases bytes.len() - place,
{
    if place >= bytes.len() || bytes[place] == 0 {
        place
    } else {
        text_end(bytes, place + 1)
    }
}

/// Whether a property says that an item is the opacity of another.
pub open spec fn is_alpha_property(property: ItemProperty) -> bool {
    let payload = property.payload@;
    &&& spells(property.box_type, 97, 117, 120, 67)
    &&& payload.len() >= 4
    &&& payload[0] == 0
    &&& {
        let name = payload.subrange(4, text_end(payload, 4));
        name == avc_alpha_type() || name == hevc_alpha_type() || name == mpeg_alpha_type()
    }
}

/// Whether two byte strings are the same.
fn same_bytes(left: &[u8], right: &[u8]) -> (same: bool)
    ensures
        same == (left@ == right@),
{
    if left.len() != right.len() {
        return false;
    }
    let mut k: usize = 0;
    while k < left.len()
        invariant
            k <= left@.len(),
            left@.len() == right@.len(),
            forall|i: int| 0 <= i < k ==> #[trigger] left@[i] == right@[i],
        decreases left@.len() - k,
    {
        if left[k] != right[k] {
            assert(left@[k as int] != right@[k as int]);
            return false;
        }
        k = k + 1;
    }
    assert(left@ =~= right@);
    true
}

/// Whether a property says that an item is the opacity of another.
pub fn property_is_alpha_auxiliary_type_property(property: &ItemProperty) -> (alpha: bool)
    ensures
        alpha == is_alpha_property(*property),
{
    if !four_cc_is(property.box_type, 97, 117, 120, 67) {
        return false;
    }
    let payload: &[u8] = property.payload.as_slice();
    if payload.len() < 4 || payload[0] != 0 {
        return false;
    }
    let mut end: usize = 4;
    while end < payload.len() && payload[end] != 0
        invariant
            4 <= end <= payload@.len(),
            text_end(payload@, 4) == text_end(payload@, end as int),
        decreases payload@.len() - end,
    {
        end = end + 1;
    }
    let name: &[u8] = slice_subrange(payload, 4, end);
    let avc: [u8; 25] = [
        117,
        114,
        110,
        58,
        109,
        112,
        101,
        103,
        58,
        97,
        118,
        99,
        58,
        50,
        48,
        49,
        53,
        58,
        97,
        117,
        120,
        105,
        100,
        58,
        49,
    ];
    let hevc: [u8; 26] = [
        117,
        114,
        110,
        58,
        109,
        112,
        101,
        103,
        58,
        104,
        101,
        118,
        99,
        58,
        50,
        48,
        49,
        53,
        58,
        97,
        117,
        120,
        105,
        100,
        58,
        49,
    ];
    let mpeg: [u8; 43] = [
        117,
        114,
        110,
        58,
        109,
        112,
        101,
        103,
        58,
        109,
        112,
        101,
        103,
        66,
        58,
        99,
        105,
        99,
        112,
        58,
        115,
        121,
        115,
        116,
        101,
        109,
        115,
        58,
        97,
        117,
        120,
        105,
        108,
        105,
        97,
        114,
        121,
        58,
        97,
        108,
        112,
        104,
        97,
    ];
    proof {
        assert(avc@ =~= avc_alpha_type());
        assert(hevc@ =~= hevc_alpha_type());
        assert(mpeg@ =~= mpeg_alpha_type());
    }
    same_bytes(name, avc.as_slice()) || same_bytes(name, hevc.as_slice()) || same_bytes(
        name,
        mpeg.as_slice(),
    )
}

/// The properties that numbers stand for, where every one is there.
pub open spec fn numbered(indices: Seq<u16>, total: int) -> Option<Seq<usize>>
    decreases indices.len(),
{
    if indices.len() == 0 {
        Some(Seq::empty())
    } else {
        match numbered(indices.drop_last(), total) {
            None => None,
            Some(found) => if indices.last() == 0 {
                Some(found)
            } else if indices.last() - 1 >= total {
                None
            } else {
                Some(found.push((indices.last() - 1) as usize))
            },
        }
    }
}

/// The numbers of the properties of an item, one list after another.
pub open spec fn numbers_of(associations: Seq<ItemAssociations>, item_id: u32) -> Seq<u16>
    decreases associations.len(),
{
    if associations.len() == 0 {
        Seq::empty()
    } else {
        let before = numbers_of(associations.drop_last(), item_id);
        if associations.last().item_id == item_id {
            before + associations.last().property_indices@
        } else {
            before
        }
    }
}

/// A missing property stays missing.
proof fn lemma_numbered(indices: Seq<u16>, total: int, few: int)
    requires
        0 <= few <= indices.len(),
        numbered(indices.take(few), total) is None,
    ensures
        numbered(indices, total) is None,
    decreases indices.len() - few,
{
    if few < indices.len() {
        assert(indices.take(few + 1).drop_last() =~= indices.take(few));
        lemma_numbered(indices, total, few + 1);
    } else {
        assert(indices.take(few) =~= indices);
    }
}

impl ItemGraph {
    /// The places of the properties of an item in the list of properties, or
    /// nothing where one is missing.
    pub open spec fn properties_of(&self, item_id: u32) -> Option<Seq<usize>> {
        numbered(numbers_of(self.associations@, item_id), self.properties@.len() as int)
    }

    /// The numbers of the properties of an item.
    fn property_numbers(&self, item_id: u32) -> (numbers: Vec<u16>)
        ensures
            numbers@ == numbers_of(self.associations@, item_id),
    {
        let mut numbers: Vec<u16> = Vec::new();
        let mut k: usize = 0;
        assert(self.associations@.take(0) =~= Seq::<ItemAssociations>::empty());
        while k < self.associations.len()
            invariant
                k <= self.associations@.len(),
                numbers@ == numbers_of(self.associations@.take(k as int), item_id),
            decreases self.associations@.len() - k,
        {
            assert(self.associations@.take(k + 1).drop_last() =~= self.associations@.take(
                k as int,
            ));
            if self.associations[k].item_id == item_id {
                numbers.extend_from_slice(self.associations[k].property_indices.as_slice());
            }
            k = k + 1;
        }
        assert(self.associations@.take(k as int) =~= self.associations@);
        numbers
    }

    /// The places of the properties of an item in the list of properties.
    pub fn resolved_item_properties_for_item(&self, item_id: u32) -> (found: Option<Vec<usize>>)
        ensures
            match self.properties_of(item_id) {
                None => found is None,
                Some(places) => found is Some && found->0@ == places,
            },
            found matches Some(places) ==> forall|k: int|
                0 <= k < places@.len() ==> #[trigger] places@[k] < self.properties@.len(),
    {
        let numbers: Vec<u16> = self.property_numbers(item_id);
        let ghost all = numbers@;
        let ghost total = self.properties@.len() as int;
        let mut places: Vec<usize> = Vec::new();
        let mut k: usize = 0;
        assert(all.take(0) =~= Seq::<u16>::empty());
        while k < numbers.len()
            invariant
                k <= numbers@.len(),
                all == numbers@,
                all == numbers_of(self.associations@, item_id),
                total == self.properties@.len(),
                numbered(all.take(k as int), total) == Some(places@),
                forall|i: int| 0 <= i < places@.len() ==> #[trigger] places@[i] < total,
            decreases numbers@.len() - k,
        {
            assert(all.take(k + 1).drop_last() =~= all.take(k as int));
            assert(all.take(k + 1).last() == all[k as int]);
            let number: u16 = numbers[k];
            if number != 0 {
                let place: usize = (number - 1) as usize;
                if place >= self.properties.len() {
                    proof {
                        lemma_numbered(all, total, k + 1);
                    }
                    return None;
                }
                places.push(place);
            }
            k = k + 1;
        }
        assert(all.take(k as int) =~= all);
        Some(places)
    }
}

/// The bytes of pieces of a source, one after another, where the source has
/// every piece.
pub open spec fn extent_bytes(source: Seq<u8>, base: u64, extents: Seq<ItemExtent>) -> Option<
    Seq<u8>,
>
    decreases extents.len(),
{
    if extents.len() == 0 {
        Some(Seq::empty())
    } else {
        let last = extents.last();
        match extent_bytes(source, base, extents.drop_last()) {
            None => None,
            Some(bytes) => if base + last.offset + last.length > source.len() {
                None
            } else {
                Some(
                    bytes + source.subrange(
                        base + last.offset,
                        base + last.offset + last.length,
                    ),
                )
            },
        }
    }
}

/// The bytes of the pieces that come before the first missing one.
pub open spec fn present_bytes(source: Seq<u8>, base: u64, extents: Seq<ItemExtent>) -> Seq<u8>
    decreases extents.len(),
{
    match extent_bytes(source, base, extents) {
        Some(bytes) => bytes,
        None => if extents.len() == 0 {
            Seq::empty()
        } else {
            present_bytes(source, base, extents.drop_last())
        },
    }
}

/// A missing piece stays missing, and nothing behind it counts.
proof fn lemma_extent_bytes(source: Seq<u8>, base: u64, extents: Seq<ItemExtent>, few: int)
    requires
        0 <= few <= extents.len(),
        extent_bytes(source, base, extents.take(few)) is None,
    ensures
        extent_bytes(source, base, extents) is None,
        present_bytes(source, base, extents) == present_bytes(source, base, extents.take(few)),
    decreases extents.len() - few,
{
    if few < extents.len() {
        assert(extents.take(few + 1).drop_last() =~= extents.take(few));
        lemma_extent_bytes(source, base, extents, few + 1);
    } else {
        assert(extents.take(few) =~= extents);
    }
}

/// Appends the pieces of an item to bytes. Where a piece is missing, the
/// pieces before it stay appended.
pub fn append_heic_item_location_extents(
    source: &[u8],
    location: &ItemLocation,
    output: &mut Vec<u8>,
) -> (result: Option<()>)
    ensures
        match extent_bytes(source@, location.base_offset, location.extents@) {
            None => result is None,
            Some(bytes) => result is Some,
        },
        final(output)@ == old(output)@ + present_bytes(
            source@,
            location.base_offset,
            location.extents@,
        ),
{
    let ghost before = output@;
    let ghost all = location.extents@;
    let base: u64 = location.base_offset;
    let available: usize = source.len();
    let mut k: usize = 0;
    assert(all.take(0) =~= Seq::<ItemExtent>::empty());
    assert(before + Seq::<u8>::empty() =~= before);
    while k < location.extents.len()
        invariant
            k <= location.extents@.len(),
            all == location.extents@,
            base == location.base_offset,
            available == source@.len(),
            before == old(output)@,
            extent_bytes(source@, base, all.take(k as int)) is Some,
            output@ == before + extent_bytes(source@, base, all.take(k as int))->0,
        decreases location.extents@.len() - k,
    {
        proof {
            assert(all.take(k + 1).drop_last() =~= all.take(k as int));
            assert(all.take(k + 1).last() == all[k as int]);
            if base + all[k as int].offset + all[k as int].length > source@.len() {
                lemma_extent_bytes(source@, base, all, k + 1);
                assert(present_bytes(source@, base, all) == present_bytes(
                    source@,
                    base,
                    all.take(k as int),
                ));
            }
        }
        let extent: ItemExtent = location.extents[k];
        let start: u64 = match base.checked_add(extent.offset) {
            None => {
                return None;
            },
            Some(start) => start,
        };
        let end: u64 = match start.checked_add(extent.length) {
            None => {
                return None;
            },
            Some(end) => end,
        };
        if end > available as u64 {
            return None;
        }
        let ghost earlier = output@;
        let piece: &[u8] = slice_subrange(source, start as usize, end as usize);
        output.extend_from_slice(piece);
        proof {
            let bytes = extent_bytes(source@, base, all.take(k as int))->0;
            assert(output@ =~= earlier + piece@);
            assert(before + (bytes + piece@) =~= (before + bytes) + piece@);
        }
        k = k + 1;
    }
    assert(all.take(k as int) =~= all);
    Some(())
}

/// The bytes that the pieces of an item have together.
pub open spec fn total_length(extents: Seq<ItemExtent>) -> int
    decreases extents.len(),
{
    if extents.len() == 0 {
        0
    } else {
        total_length(extents.drop_last()) + extents.last().length
    }
}

/// Fewer pieces have fewer bytes.
proof fn lemma_total_length(extents: Seq<ItemExtent>, few: int)
    requires
        0 <= few <= extents.len(),
    ensures
        0 <= total_length(extents.take(few)) <= total_length(extents),
    decreases extents.len(),
{
    if few < extents.len() {
        lemma_total_length(extents.drop_last(), few);
        assert(extents.drop_last().take(few) =~= extents.take(few));
    } else {
        assert(extents.take(few) =~= extents);
        if extents.len() > 0 {
            lemma_total_length(extents.drop_last(), few - 1);
        }
    }
}

/// The number of bytes of an item, where it can be written down.
pub fn item_payload_length(location: &ItemLocation) -> (length: Option<usize>)
    ensures
        if total_length(location.extents@) > u64::MAX || total_length(location.extents@)
            > usize::MAX {
            length is None
        } else {
            length is Some && length->0 == total_length(location.extents@)
        },
{
    let ghost all = location.extents@;
    let mut total: u64 = 0;
    let mut k: usize = 0;
    assert(all.take(0) =~= Seq::<ItemExtent>::empty());
    while k < location.extents.len()
        invariant
            k <= location.extents@.len(),
            all == location.extents@,
            total == total_length(all.take(k as int)),
        decreases location.extents@.len() - k,
    {
        proof {
            assert(all.take(k + 1).drop_last() =~= all.take(k as int));
            lemma_total_length(all, k + 1);
        }
        match total.checked_add(location.extents[k].length) {
            None => {
                return None;
            },
            Some(sum) => {
                total = sum;
            },
        }
        k = k + 1;
    }
    assert(all.take(k as int) =~= all);
    if total > usize::MAX as u64 {
        return None;
    }
    Some(total as usize)
}

/// The payload of an item, where its bytes are there: in the file, or in the
/// item data of the metadata.
pub open spec fn item_payload(
    input: Seq<u8>,
    item_data: Option<Seq<u8>>,
    location: ItemLocation,
) -> Option<Seq<u8>> {
    if total_length(location.extents@) > u64::MAX || total_length(location.extents@)
        > usize::MAX {
        None
    } else if location.construction_method == 0 {
        extent_bytes(input, location.base_offset, location.extents@)
    } else if location.construction_method == 1 {
        match item_data {
            None => None,
            Some(data) => extent_bytes(data, location.base_offset, location.extents@),
        }
    } else {
        None
    }
}

/// What item data there is.
pub open spec fn data_bytes(item_data: Option<&[u8]>) -> Option<Seq<u8>> {
    match item_data {
        None => None,
        Some(data) => Some(data@),
    }
}

/// The payload of an item.
pub fn extract_heic_item_payload(
    input: &[u8],
    item_data: Option<&[u8]>,
    location: &ItemLocation,
) -> (payload: Option<Vec<u8>>)
    ensures
        match item_payload(input@, data_bytes(item_data), *location) {
            None => payload is None,
            Some(bytes) => payload is Some && payload->0@ == bytes,
        },
{
    match item_payload_length(location) {
        None => {
            return None;
        },
        Some(_) => {},
    }
    let mut payload: Vec<u8> = Vec::new();
    assert(forall|bytes: Seq<u8>| #[trigger] (Seq::<u8>::empty() + bytes) =~= bytes);
    if location.construction_method == 0 {
        match append_heic_item_location_extents(input, location, &mut payload) {
            None => None,
            Some(()) => Some(payload),
        }
    } else if location.construction_method == 1 {
        match item_data {
            None => None,
            Some(data) => match append_heic_item_location_extents(
                data,
                location,
                &mut payload,
            ) {
                None => None,
                Some(()) => Some(payload),
            },
        }
    } else {
        None
    }
}

/// Whether a piece of an item can be asked for.
pub open spec fn askable(base: u64, extent: ItemExtent) -> bool {
    base + extent.offset + extent.length <= u64::MAX && extent.length <= usize::MAX
}

/// Whether every piece of an item can be asked for.
pub open spec fn can_be_read(base: u64, extents: Seq<ItemExtent>) -> bool {
    forall|k: int| 0 <= k < extents.len() ==> askable(base, #[trigger] extents[k])
}

/// Whether reading a piece of an item can fail in a way.
pub open spec fn piece_fails<R: Fn(u64, usize) -> Result<Vec<u8>, DecodeError>>(
    read_range: R,
    base: u64,
    extent: ItemExtent,
    error: DecodeError,
) -> bool {
    read_range.ensures(
        ((base + extent.offset) as u64, extent.length as usize),
        Err::<Vec<u8>, DecodeError>(error),
    )
}

/// Whether a piece of an item cannot be had: it cannot be asked for, or reading
/// it fails.
pub open spec fn piece_missing<R: Fn(u64, usize) -> Result<Vec<u8>, DecodeError>>(
    read_range: R,
    base: u64,
    extent: ItemExtent,
) -> bool {
    !askable(base, extent) || exists|e: DecodeError| #[trigger]
        piece_fails(read_range, base, extent, e)
}

/// Whether `bytes` are what `read_range` gives for pieces of an item, one after
/// another.
pub open spec fn pieces_read<R: Fn(u64, usize) -> Result<Vec<u8>, DecodeError>>(
    read_range: R,
    base: u64,
    extents: Seq<ItemExtent>,
    bytes: Seq<u8>,
) -> bool
    decreases extents.len(),
{
    if extents.len() == 0 {
        bytes == Seq::<u8>::empty()
    } else {
        let extent = extents.last();
        &&& askable(base, extent)
        &&& exists|piece: Vec<u8>|
            {
                let earlier = bytes.len() - piece@.len();
                &&& #[trigger] read_range.ensures(
                    ((base + extent.offset) as u64, extent.length as usize),
                    Ok::<Vec<u8>, DecodeError>(piece),
                )
                &&& 0 <= earlier
                &&& bytes.skip(earlier) == piece@
                &&& pieces_read(read_range, base, extents.drop_last(), bytes.take(earlier))
            }
    }
}

/// Whether reading the pieces of an item gives `bytes` in front of the first
/// piece that cannot be had, or of all where every one can be had; `complete`
/// says which.
pub open spec fn pieces_give<R: Fn(u64, usize) -> Result<Vec<u8>, DecodeError>>(
    read_range: R,
    base: u64,
    extents: Seq<ItemExtent>,
    bytes: Seq<u8>,
    complete: bool,
) -> bool {
    exists|k: int|
        {
            &&& 0 <= k <= extents.len()
            &&& pieces_read(read_range, base, #[trigger] extents.take(k), bytes)
            &&& if complete {
                k == extents.len()
            } else {
                k < extents.len() && piece_missing(read_range, base, extents[k])
            }
        }
}

/// What is read of the pieces of an item is what a file holds there, where the
/// file holds it and is what is read.
proof fn lemma_pieces_of_file<R: Fn(u64, usize) -> Result<Vec<u8>, DecodeError>>(
    read_range: R,
    file: Seq<u8>,
    base: u64,
    extents: Seq<ItemExtent>,
    bytes: Seq<u8>,
)
    requires
        reads_file(read_range, file),
        pieces_read(read_range, base, extents, bytes),
        extent_bytes(file, base, extents) is Some,
    ensures
        extent_bytes(file, base, extents) == Some(bytes),
    decreases extents.len(),
{
    if extents.len() > 0 {
        let extent = extents.last();
        let piece = choose|piece: Vec<u8>|
            {
                let earlier = bytes.len() - piece@.len();
                &&& #[trigger] read_range.ensures(
                    ((base + extent.offset) as u64, extent.length as usize),
                    Ok::<Vec<u8>, DecodeError>(piece),
                )
                &&& 0 <= earlier
                &&& bytes.skip(earlier) == piece@
                &&& pieces_read(read_range, base, extents.drop_last(), bytes.take(earlier))
            };
        let earlier = bytes.take(bytes.len() - piece@.len());
        lemma_pieces_of_file(read_range, file, base, extents.drop_last(), earlier);
        assert(bytes =~= earlier + piece@);
    }
}

/// Pieces of a file that ends before none of them can be had.
proof fn lemma_pieces_inside(file: Seq<u8>, base: u64, extents: Seq<ItemExtent>, k: int)
    requires
        0 <= k < extents.len(),
        extent_bytes(file, base, extents) is Some,
    ensures
        extent_bytes(file, base, extents.take(k)) is Some,
        base + extents[k].offset + extents[k].length <= file.len(),
        extent_bytes(file, base, extents.take(k + 1))->0 == extent_bytes(
            file,
            base,
            extents.take(k),
        )->0 + file.subrange(
            base + extents[k].offset,
            base + extents[k].offset + extents[k].length,
        ),
{
    assert(extents.take(k + 1).drop_last() =~= extents.take(k));
    assert(extents.take(k + 1).last() == extents[k]);
    if extent_bytes(file, base, extents.take(k + 1)) is None {
        lemma_extent_bytes(file, base, extents, k + 1);
    }
}

/// Appends the pieces of an item to bytes, reading by `read_range`. Where one
/// cannot be had, those before it have been appended.
pub fn append_heic_item_location_extents_from_source<
    R: Fn(u64, usize) -> Result<Vec<u8>, DecodeError>,
>(read_range: &R, location: &ItemLocation, output: &mut Vec<u8>) -> (result: Option<()>)
    requires
        forall|offset: u64, length: usize| #[trigger] read_range.requires((offset, length)),
    ensures
        old(output)@.is_prefix_of(final(output)@),
        pieces_give(
            *read_range,
            location.base_offset,
            location.extents@,
            final(output)@.skip(old(output)@.len() as int),
            result is Some,
        ),
        !can_be_read(location.base_offset, location.extents@) ==> result is None,
        result is None ==> !can_be_read(location.base_offset, location.extents@) || exists|
            k: int,
            e: DecodeError,
        |
            0 <= k < location.extents@.len() && #[trigger] piece_fails(
                *read_range,
                location.base_offset,
                location.extents@[k],
                e,
            ),
        result is Some ==> forall|file: Seq<u8>| #[trigger]
            reads_file(*read_range, file) ==> (extent_bytes(
                file,
                location.base_offset,
                location.extents@,
            ) matches Some(bytes) ==> final(output)@ == old(output)@ + bytes),
{
    let ghost before = output@;
    let ghost all = location.extents@;
    let base: u64 = location.base_offset;
    let mut k: usize = 0;
    let ghost mut bytes: Seq<u8> = Seq::empty();
    proof {
        assert(all.take(0) =~= Seq::<ItemExtent>::empty());
        assert(before + bytes =~= before);
    }
    while k < location.extents.len()
        invariant
            k <= location.extents@.len(),
            all == location.extents@,
            base == location.base_offset,
            forall|offset: u64, length: usize| #[trigger] read_range.requires((offset, length)),
            before == old(output)@,
            output@ == before + bytes,
            forall|i: int| 0 <= i < k ==> askable(base, #[trigger] all[i]),
            pieces_read(*read_range, base, all.take(k as int), bytes),
        decreases location.extents@.len() - k,
    {
        let extent: ItemExtent = location.extents[k];
        assert(extent == all[k as int]);
        assert((before + bytes).skip(before.len() as int) =~= bytes);
        let start: u64 = match base.checked_add(extent.offset) {
            None => {
                assert(piece_missing(*read_range, base, all[k as int]));
                return None;
            },
            Some(start) => start,
        };
        if start.checked_add(extent.length).is_none() || extent.length > usize::MAX as u64 {
            assert(piece_missing(*read_range, base, all[k as int]));
            return None;
        }
        let mut piece: Vec<u8> = match read_range(start, extent.length as usize) {
            Err(e) => {
                assert(piece_fails(*read_range, base, all[k as int], e));
                return None;
            },
            Ok(piece) => piece,
        };
        let ghost read = piece;
        assert(read_range.ensures(
            (start, extent.length as usize),
            Ok::<Vec<u8>, DecodeError>(read),
        ));
        output.append(&mut piece);
        proof {
            let more = all.take(k + 1);
            assert(more.drop_last() =~= all.take(k as int));
            assert(more.last() == extent);
            assert((before + bytes) + read@ =~= before + (bytes + read@));
            assert((bytes + read@).take(bytes.len() as int) =~= bytes);
            assert((bytes + read@).skip(bytes.len() as int) =~= read@);
            bytes = bytes + read@;
            assert(pieces_read(*read_range, base, more, bytes));
        }
        k = k + 1;
    }
    proof {
        assert(all.take(k as int) =~= all);
        assert((before + bytes).skip(before.len() as int) =~= bytes);
        assert forall|file: Seq<u8>| #[trigger]
            reads_file(*read_range, file) && extent_bytes(file, base, all) is Some implies output@
            == before + extent_bytes(file, base, all)->0 by {
            lemma_pieces_of_file(*read_range, file, base, all, bytes);
        }
    }
    Some(())
}

/// Whether the pieces of an item can be asked for, and counted together.
pub open spec fn payload_askable(location: ItemLocation) -> bool {
    &&& total_length(location.extents@) <= u64::MAX
    &&& total_length(location.extents@) <= usize::MAX
    &&& can_be_read(location.base_offset, location.extents@)
}

/// Whether the payload of an item comes out of a source as `payload`: its pieces,
/// or nothing where one of them cannot be had.
pub open spec fn payload_gives<R: Fn(u64, usize) -> Result<Vec<u8>, DecodeError>>(
    read_range: R,
    item_data: Option<Seq<u8>>,
    location: ItemLocation,
    payload: Option<Seq<u8>>,
) -> bool {
    if location.construction_method != 0 {
        payload == item_payload(Seq::empty(), item_data, location)
    } else if total_length(location.extents@) > u64::MAX || total_length(location.extents@)
        > usize::MAX {
        payload is None
    } else {
        match payload {
            Some(bytes) => pieces_give(
                read_range,
                location.base_offset,
                location.extents@,
                bytes,
                true,
            ),
            None => exists|bytes: Seq<u8>| #[trigger]
                pieces_give(
                    read_range,
                    location.base_offset,
                    location.extents@,
                    bytes,
                    false,
                ),
        }
    }
}

/// The payload of an item of a file that is read by `read_range`.
pub fn extract_heic_item_payload_from_source<
    R: Fn(u64, usize) -> Result<Vec<u8>, DecodeError>,
>(read_range: &R, item_data: Option<&[u8]>, location: &ItemLocation) -> (payload: Option<Vec<u8>>)
    requires
        forall|offset: u64, length: usize| #[trigger] read_range.requires((offset, length)),
    ensures
        payload_gives(
            *read_range,
            data_bytes(item_data),
            *location,
            match payload {
                Some(payload) => Some(payload@),
                None => None,
            },
        ),
        location.construction_method == 0 ==> {
            &&& !payload_askable(*location) ==> payload is None
            &&& payload is None ==> !payload_askable(*location) || exists|k: int, e: DecodeError|
                0 <= k < location.extents@.len() && #[trigger] piece_fails(
                    *read_range,
                    location.base_offset,
                    location.extents@[k],
                    e,
                )
            &&& payload is Some ==> forall|file: Seq<u8>| #[trigger]
                reads_file(*read_range, file) ==> (item_payload(
                    file,
                    data_bytes(item_data),
                    *location,
                ) matches Some(bytes) ==> payload->0@ == bytes)
        },
{
    if location.construction_method != 0 {
        return extract_heic_item_payload(&[], item_data, location);
    }
    match item_payload_length(location) {
        None => {
            return None;
        },
        Some(_) => {},
    }
    let mut payload: Vec<u8> = Vec::new();
    assert(forall|bytes: Seq<u8>| #[trigger] (Seq::<u8>::empty() + bytes) =~= bytes);
    match append_heic_item_location_extents_from_source(read_range, location, &mut payload) {
        None => None,
        Some(()) => {
            assert(payload@.skip(0) =~= payload@);
            Some(payload)
        },
    }
}

/// Whether exactly the ranges of a file can be read, and give its bytes.
pub open spec fn reads_only<R: Fn(u64, usize) -> Result<Vec<u8>, DecodeError>>(
    read_range: R,
    file: Seq<u8>,
) -> bool {
    &&& reads_whole(read_range, file)
    &&& forall|offset: u64, length: usize, bytes: Vec<u8>|
        offset + length > file.len() ==> !(#[trigger] read_range.ensures(
            (offset, length),
            Ok::<Vec<u8>, DecodeError>(bytes),
        ))
}

/// Pieces that can be read of a file lie in it.
proof fn lemma_pieces_there<R: Fn(u64, usize) -> Result<Vec<u8>, DecodeError>>(
    read_range: R,
    file: Seq<u8>,
    base: u64,
    extents: Seq<ItemExtent>,
    bytes: Seq<u8>,
)
    requires
        reads_only(read_range, file),
        pieces_read(read_range, base, extents, bytes),
    ensures
        extent_bytes(file, base, extents) is Some,
    decreases extents.len(),
{
    if extents.len() > 0 {
        let extent = extents.last();
        let piece = choose|piece: Vec<u8>|
            {
                let earlier = bytes.len() - piece@.len();
                &&& #[trigger] read_range.ensures(
                    ((base + extent.offset) as u64, extent.length as usize),
                    Ok::<Vec<u8>, DecodeError>(piece),
                )
                &&& 0 <= earlier
                &&& bytes.skip(earlier) == piece@
                &&& pieces_read(read_range, base, extents.drop_last(), bytes.take(earlier))
            };
        let earlier = bytes.take(bytes.len() - piece@.len());
        lemma_pieces_there(read_range, file, base, extents.drop_last(), earlier);
    }
}

/// A source that is read from a file gives the payload of an item that the file
/// gives.
pub proof fn lemma_payload_of_file<R: Fn(u64, usize) -> Result<Vec<u8>, DecodeError>>(
    read_range: R,
    file: Seq<u8>,
    item_data: Option<Seq<u8>>,
    location: ItemLocation,
    payload: Option<Seq<u8>>,
)
    requires
        reads_only(read_range, file),
        file.len() <= u64::MAX,
        payload_gives(read_range, item_data, location, payload),
    ensures
        payload == item_payload(file, item_data, location),
{
    let base = location.base_offset;
    let extents = location.extents@;
    assert(extents.take(extents.len() as int) =~= extents);
    if location.construction_method == 0 && total_length(extents) <= u64::MAX && total_length(
        extents,
    ) <= usize::MAX {
        match payload {
            Some(bytes) => {
                lemma_pieces_there(read_range, file, base, extents, bytes);
                lemma_pieces_of_file(read_range, file, base, extents, bytes);
            },
            None => {
                let bytes = choose|bytes: Seq<u8>| #[trigger]
                    pieces_give(read_range, base, extents, bytes, false);
                let k = choose|k: int|
                    {
                        &&& 0 <= k <= extents.len()
                        &&& pieces_read(read_range, base, #[trigger] extents.take(k), bytes)
                        &&& k < extents.len() && piece_missing(read_range, base, extents[k])
                    };
                if extent_bytes(file, base, extents) is Some {
                    lemma_pieces_inside(file, base, extents, k);
                    lemma_piece_counted(extents, k);
                }
            },
        }
    }
}

/// No piece of an item is longer than all of them.
proof fn lemma_piece_counted(extents: Seq<ItemExtent>, k: int)
    requires
        0 <= k < extents.len(),
    ensures
        extents[k].length <= total_length(extents),
    decreases extents.len(),
{
    if k < extents.len() - 1 {
        lemma_piece_counted(extents.drop_last(), k);
        assert(extents.drop_last()[k] == extents[k]);
    } else {
        lemma_total_length(extents.drop_last(), 0);
    }
}

/// The pieces of an item are as long as they say.
proof fn lemma_extents_length(source: Seq<u8>, base: u64, extents: Seq<ItemExtent>)
    ensures
        extent_bytes(source, base, extents) matches Some(bytes) ==> bytes.len() == total_length(
            extents,
        ),
    decreases extents.len(),
{
    if extents.len() > 0 {
        lemma_extents_length(source, base, extents.drop_last());
    }
}

/// The payload of an item has as many bytes as its pieces say.
pub proof fn lemma_payload_length(
    input: Seq<u8>,
    item_data: Option<Seq<u8>>,
    location: ItemLocation,
)
    ensures
        item_payload(input, item_data, location) matches Some(payload) ==> payload.len()
            == total_length(location.extents@),
{
    lemma_extents_length(input, location.base_offset, location.extents@);
    if let Some(data) = item_data {
        lemma_extents_length(data, location.base_offset, location.extents@);
    }
}

} // verus!
