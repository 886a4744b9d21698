//! How the boxes and the items of a file are found.
#[allow(unused_imports)]
use crate::boxes::header_at;
#[allow(unused_imports)]
use crate::bytes::be_value;
#[allow(unused_imports)]
use crate::family::{hinted, HeifInputFamily};
#[allow(unused_imports)]
use crate::fourcc::FourCc;
#[allow(unused_imports)]
use crate::icc::{icc_of, last_icc, last_nclx, profile_codes, synthesized, ColorInformation};
#[allow(unused_imports)]
use crate::items::{
    extent_bytes, info_of, is_exif_item, item_payload, location_of, lower, numbered, numbers_of,
    same_letters, ItemAssociations, ItemExtent, ItemGraph, ItemInfoEntry, ItemLocation,
    ItemProperty, ItemReference,
};
use crate::laws::streams::lemma_four_bytes_spell;
#[allow(unused_imports)]
use crate::linked::{assists, describes, exif_place, AlphaCodec};
#[allow(unused_imports)]
use crate::png_file::{be_bytes, file_samples};
#[allow(unused_imports)]
use crate::types::{NclxColorProfile, PrimaryItemColorProperties};
use vstd::arithmetic::power2::pow2;
use vstd::prelude::*;

verus! {

/// The header of a box: its size in four bytes, then its type. A size of zero
/// reaches to the end of the file, and one of one stands in the eight bytes
/// behind the type. A `uuid` box has sixteen more bytes. A box is at least as
/// long as its header and ends where the file does or before.
pub proof fn lemma_box_header(probe: Seq<u8>, offset: u64, available: u64)
    requires
        probe.len() >= 32,
    ensures
        ({
            let short = 16777216 * probe[0] + 65536 * probe[1] + 256 * probe[2] + probe[3];
            let long = be_value(probe.subrange(8, 16));
            let is_uuid = probe[4] == 'u' as u8 && probe[5] == 'u' as u8 && probe[6] == 'i' as u8
                && probe[7] == 'd' as u8;
            let size = if short == 0 {
                available as int
            } else if short == 1 {
                long
            } else {
                short
            };
            let length = (if short == 1 {
                16int
            } else {
                8int
            }) + (if is_uuid {
                16int
            } else {
                0int
            });
            match header_at(probe, offset, available) {
                Ok(header) => {
                    &&& header.box_type@ == probe.subrange(4, 8)
                    &&& header.header_size == length
                    &&& length <= size <= available
                    &&& header.box_size == size
                },
                Err(_) => size < length || size > available,
            }
        }),
{
    lemma_four_bytes_spell(probe.subrange(0, 4));
    if let Ok(header) = header_at(probe, offset, available) {
        assert(header.box_type@ =~= probe.subrange(4, 8));
    }
}

/// The pieces of an item stand one behind the other, each as long as it says
/// and so far from the base as it says. The item is missing where a piece
/// reaches past the end.
pub proof fn lemma_pieces_of_item(
    source: Seq<u8>,
    base: u64,
    extents: Seq<ItemExtent>,
    more: ItemExtent,
)
    ensures
        extent_bytes(source, base, Seq::empty()) == Some(Seq::<u8>::empty()),
        extent_bytes(source, base, extents) matches Some(bytes) ==> (match extent_bytes(
            source,
            base,
            extents.push(more),
        ) {
            Some(all) => base + more.offset + more.length <= source.len() && all.len()
                == bytes.len() + more.length && all.take(bytes.len() as int) == bytes && all.skip(
                bytes.len() as int,
            ) == source.subrange(base + more.offset, base + more.offset + more.length),
            None => base + more.offset + more.length > source.len(),
        }),
        extent_bytes(source, base, extents) is None ==> extent_bytes(
            source,
            base,
            extents.push(more),
        ) is None,
{
    assert(extents.push(more).drop_last() =~= extents);
    if let Some(bytes) = extent_bytes(source, base, extents) {
        if let Some(all) = extent_bytes(source, base, extents.push(more)) {
            assert(all.take(bytes.len() as int) =~= bytes);
            assert(all.skip(bytes.len() as int) =~= source.subrange(
                base + more.offset,
                base + more.offset + more.length,
            ));
        }
    }
}

/// An item of one piece is that piece: of the file by method 0, and of the
/// item data by method 1. By another method it cannot be had.
pub proof fn lemma_item_of_one_piece(
    input: Seq<u8>,
    item_data: Option<Seq<u8>>,
    location: ItemLocation,
)
    requires
        location.extents@.len() == 1,
        location.extents@[0].length <= usize::MAX,
    ensures
        ({
            let start = location.base_offset + location.extents@[0].offset;
            let end = start + location.extents@[0].length;
            &&& location.construction_method == 0 && end <= input.len() ==> item_payload(
                input,
                item_data,
                location,
            ) == Some(input.subrange(start, end))
            &&& location.construction_method == 1 && item_data is Some && end
                <= item_data->0.len() ==> item_payload(input, item_data, location) == Some(
                item_data->0.subrange(start, end),
            )
            &&& location.construction_method > 1 ==> item_payload(input, item_data, location)
                is None
            &&& location.construction_method == 0 && end > input.len() ==> item_payload(
                input,
                item_data,
                location,
            ) is None
        }),
{
    let extents = location.extents@;
    reveal_with_fuel(extent_bytes, 2);
    reveal_with_fuel(crate::items::total_length, 2);
    assert(extents.drop_last() =~= Seq::<ItemExtent>::empty());
    let start = location.base_offset + extents[0].offset;
    let end = start + extents[0].length;
    assert(Seq::<u8>::empty() + input.subrange(start, end) =~= input.subrange(start, end));
    if let Some(data) = item_data {
        assert(Seq::<u8>::empty() + data.subrange(start, end) =~= data.subrange(start, end));
    }
}

/// What is found for an item is the first entry with its number, and there is
/// none where no entry has it.
pub proof fn lemma_first_entry(
    infos: Seq<ItemInfoEntry>,
    locations: Seq<ItemLocation>,
    item_id: u32,
)
    ensures
        match info_of(infos, item_id) {
            Some(k) => 0 <= k < infos.len() && infos[k].item_id == item_id && forall|i: int|
                0 <= i < k ==> (#[trigger] infos[i]).item_id != item_id,
            None => forall|i: int| 0 <= i < infos.len() ==> (#[trigger] infos[i]).item_id != item_id,
        },
        match location_of(locations, item_id) {
            Some(k) => 0 <= k < locations.len() && locations[k].item_id == item_id && forall|i: int|
                0 <= i < k ==> (#[trigger] locations[i]).item_id != item_id,
            None => forall|i: int|
                0 <= i < locations.len() ==> (#[trigger] locations[i]).item_id != item_id,
        },
    decreases infos.len() + locations.len(),
{
    if infos.len() > 0 {
        let fewer = infos.drop_last();
        lemma_first_entry(fewer, Seq::empty(), item_id);
        assert(forall|i: int| 0 <= i < fewer.len() ==> (#[trigger] fewer[i]) == infos[i]);
        assert forall|i: int| 0 <= i < infos.len() - 1 implies (#[trigger] infos[i]) == fewer[i] by {}
    }
    if locations.len() > 0 {
        let fewer = locations.drop_last();
        lemma_first_entry(Seq::empty(), fewer, item_id);
        assert(forall|i: int| 0 <= i < fewer.len() ==> (#[trigger] fewer[i]) == locations[i]);
        assert forall|i: int| 0 <= i < locations.len() - 1 implies (#[trigger] locations[i])
            == fewer[i] by {}
    }
}

/// Properties are numbered from one, and the number zero stands for none: a
/// list of numbers above zero gives the places one below them, in order, where
/// there are so many properties.
pub proof fn lemma_property_numbers(indices: Seq<u16>, total: int, k: int)
    requires
        forall|i: int| 0 <= i < indices.len() ==> 1 <= #[trigger] indices[i],
        0 <= k < indices.len(),
    ensures
        match numbered(indices, total) {
            Some(places) => places.len() == indices.len() && places[k] == indices[k] - 1
                && indices[k] <= total,
            None => exists|i: int| 0 <= i < indices.len() && #[trigger] indices[i] > total,
        },
        numbered(indices.push(0), total) == numbered(indices, total),
    decreases indices.len(),
{
    assert(indices.push(0).drop_last() =~= indices);
    let fewer = indices.drop_last();
    assert(forall|i: int| 0 <= i < fewer.len() ==> (#[trigger] fewer[i]) == indices[i]);
    if fewer.len() > 0 {
        if k < fewer.len() {
            lemma_property_numbers(fewer, total, k);
        } else {
            lemma_property_numbers(fewer, total, 0);
        }
        if numbered(fewer, total) is None {
            let i = choose|i: int| 0 <= i < fewer.len() && #[trigger] fewer[i] > total;
            assert(indices[i] > total);
        }
    } else {
        reveal_with_fuel(numbered, 2);
        assert(indices[0] == indices.last());
    }
}

/// The numbers of an item are those of all its lists, in order, and of no
/// other item.
pub proof fn lemma_numbers_of_item(
    associations: Seq<ItemAssociations>,
    more: ItemAssociations,
    item_id: u32,
)
    ensures
        numbers_of(Seq::<ItemAssociations>::empty(), item_id) == Seq::<u16>::empty(),
        more.item_id == item_id ==> numbers_of(associations.push(more), item_id) == numbers_of(
            associations,
            item_id,
        ) + more.property_indices@,
        more.item_id != item_id ==> numbers_of(associations.push(more), item_id) == numbers_of(
            associations,
            item_id,
        ),
{
    assert(associations.push(more).drop_last() =~= associations);
}

/// Metadata describes an item by a `cdsc` reference to it, and opacity belongs
/// to an item by an `auxl` reference to it; no reference does both.
pub proof fn lemma_references(reference: ItemReference, item_id: u32)
    ensures
        describes(reference, item_id) <==> reference.reference_type@ == seq![
            'c' as u8,
            'd' as u8,
            's' as u8,
            'c' as u8,
        ] && reference.to_item_ids@.contains(item_id),
        assists(reference, item_id) <==> reference.reference_type@ == seq![
            'a' as u8,
            'u' as u8,
            'x' as u8,
            'l' as u8,
        ] && reference.to_item_ids@.contains(item_id),
        !(describes(reference, item_id) && assists(reference, item_id)),
{
    let code = reference.reference_type@;
    if describes(reference, item_id) {
        assert(code =~= seq!['c' as u8, 'd' as u8, 's' as u8, 'c' as u8]);
    }
    if assists(reference, item_id) {
        assert(code =~= seq!['a' as u8, 'u' as u8, 'x' as u8, 'l' as u8]);
    }
}

/// An item is EXIF metadata of a file where its type is `Exif` and it lies in
/// the file itself; items of other types than `Exif` and `mime` are not.
pub proof fn lemma_exif_items(graph: &ItemGraph, item_id: u32, info: ItemInfoEntry)
    ensures
        exif_place(graph, item_id) matches Some(place) ==> place < graph.locations@.len()
            && graph.locations@[place as int].item_id == item_id
            && graph.locations@[place as int].data_reference_index == 0,
        info.item_type is Some && info.item_type->0@ == seq![
            'E' as u8,
            'x' as u8,
            'i' as u8,
            'f' as u8,
        ] ==> is_exif_item(info),
        is_exif_item(info) ==> info.item_type is Some && (info.item_type->0@ == seq![
            'E' as u8,
            'x' as u8,
            'i' as u8,
            'f' as u8,
        ] || info.item_type->0@ == seq!['m' as u8, 'i' as u8, 'm' as u8, 'e' as u8]),
{
    lemma_first_entry(graph.infos@, graph.locations@, item_id);
    assert(graph.locations.len() == graph.locations@.len());
    if is_exif_item(info) {
        let code = info.item_type->0@;
        if code[0] == 'E' as u8 {
            assert(code =~= seq!['E' as u8, 'x' as u8, 'i' as u8, 'f' as u8]);
        } else {
            assert(code =~= seq!['m' as u8, 'i' as u8, 'm' as u8, 'e' as u8]);
        }
    }
}

/// AV1 items have the type `av01` and are configured by `av1C`; HEVC items
/// have the type `hvc1` or `hev1` and are configured by `hvcC`.
pub proof fn lemma_alpha_codecs(item_type: FourCc, property: ItemProperty)
    ensures
        AlphaCodec::Av1.codes(item_type) <==> item_type@ == seq![
            'a' as u8,
            'v' as u8,
            '0' as u8,
            '1' as u8,
        ],
        AlphaCodec::Hevc.codes(item_type) <==> item_type@ == seq![
            'h' as u8,
            'v' as u8,
            'c' as u8,
            '1' as u8,
        ] || item_type@ == seq!['h' as u8, 'e' as u8, 'v' as u8, '1' as u8],
        AlphaCodec::Av1.configures(property) <==> property.box_type@ == seq![
            'a' as u8,
            'v' as u8,
            '1' as u8,
            'C' as u8,
        ],
        AlphaCodec::Hevc.configures(property) <==> property.box_type@ == seq![
            'h' as u8,
            'v' as u8,
            'c' as u8,
            'C' as u8,
        ],
{
    let code = item_type@;
    if AlphaCodec::Av1.codes(item_type) {
        assert(code =~= seq!['a' as u8, 'v' as u8, '0' as u8, '1' as u8]);
    }
    if AlphaCodec::Hevc.codes(item_type) {
        if code[1] == 'v' as u8 {
            assert(code =~= seq!['h' as u8, 'v' as u8, 'c' as u8, '1' as u8]);
        } else {
            assert(code =~= seq!['h' as u8, 'e' as u8, 'v' as u8, '1' as u8]);
        }
    }
    let kind = property.box_type@;
    if AlphaCodec::Av1.configures(property) {
        assert(kind =~= seq!['a' as u8, 'v' as u8, '1' as u8, 'C' as u8]);
    }
    if AlphaCodec::Hevc.configures(property) {
        assert(kind =~= seq!['h' as u8, 'v' as u8, 'c' as u8, 'C' as u8]);
    }
}

/// The extension of a file name hints at a family in letters of either case:
/// four letters that are `avif`, or `heic` or `heif`; or three that are `hif`.
pub proof fn lemma_extension_hints(extension: Seq<u8>)
    ensures
        ({
            let four = extension.len() == 4;
            let is = |k: int, small: char, large: char|
                extension[k] == small as u8 || extension[k] == large as u8;
            &&& four && is(0, 'a', 'A') && is(1, 'v', 'V') && is(2, 'i', 'I') && is(3, 'f', 'F')
                <==> hinted(extension) == Some(HeifInputFamily::Avif)
            &&& (four && is(0, 'h', 'H') && is(1, 'e', 'E') && is(2, 'i', 'I') && (is(3, 'c', 'C')
                || is(3, 'f', 'F'))) || (extension.len() == 3 && is(0, 'h', 'H') && is(1, 'i', 'I')
                && is(2, 'f', 'F')) <==> hinted(extension) == Some(HeifInputFamily::Heif)
        }),
{
    let avif = seq![97u8, 118, 105, 102];
    let heic = seq![104u8, 101, 105, 99];
    let heif = seq![104u8, 101, 105, 102];
    let hif = seq![104u8, 105, 102];
    assert(forall|k: int| 0 <= k < 4 ==> #[trigger] lower(avif[k]) == avif[k]);
    assert(forall|k: int| 0 <= k < 4 ==> #[trigger] lower(heic[k]) == heic[k]);
    assert(forall|k: int| 0 <= k < 4 ==> #[trigger] lower(heif[k]) == heif[k]);
    assert(forall|k: int| 0 <= k < 3 ==> #[trigger] lower(hif[k]) == hif[k]);
    lemma_letters(extension, avif);
    lemma_letters(extension, heic);
    lemma_letters(extension, heif);
    lemma_letters(extension, hif);
}

/// Texts with the same letters, letter by letter.
proof fn lemma_letters(text: Seq<u8>, letters: Seq<u8>)
    requires
        3 <= letters.len() <= 4,
    ensures
        same_letters(text, letters) <==> text.len() == letters.len() && lower(text[0]) == lower(
            letters[0],
        ) && lower(text[1]) == lower(letters[1]) && lower(text[2]) == lower(letters[2]) && (
        letters.len() == 4 ==> lower(text[3]) == lower(letters[3])),
{
    if text.len() == letters.len() && lower(text[0]) == lower(letters[0]) && lower(text[1])
        == lower(letters[1]) && lower(text[2]) == lower(letters[2]) && (letters.len() == 4
        ==> lower(text[3]) == lower(letters[3])) {
        assert forall|k: int| 0 <= k < text.len() implies #[trigger] lower(text[k]) == lower(
            letters[k],
        ) by {
            assert(k == 0 || k == 1 || k == 2 || k == 3);
        }
    }
}

/// The ICC profile of an item is its own where it has one, and the one for its
/// nclx profile where it has none. The one for an nclx profile stands for
/// decoded samples: it has the primaries of the profile, the identity for a
/// matrix and full range; and the curves 1, 6, 14 and 15 become 13, while every
/// other curve stays.
pub proof fn lemma_profile_of_item(colr: &PrimaryItemColorProperties, nclx: NclxColorProfile)
    ensures
        colr.icc matches Some(own) ==> icc_of(colr) == Some(own@),
        colr.icc is None && colr.nclx is None ==> icc_of(colr) is None,
        colr.icc is None && colr.nclx is Some ==> icc_of(colr) == synthesized(colr.nclx->0),
        nclx.is_undefined ==> synthesized(nclx) is None,
        profile_codes(nclx) matches Some(codes) ==> {
            let curve = nclx.transfer_characteristics;
            &&& codes.colour_primaries == nclx.colour_primaries
            &&& codes.matrix_coefficients == 0
            &&& codes.full_range
            &&& curve == 1 || curve == 6 || curve == 14 || curve == 15
                ==> codes.transfer_characteristics == 13
            &&& !(curve == 1 || curve == 6 || curve == 14 || curve == 15)
                ==> codes.transfer_characteristics == curve
        },
        !nclx.is_undefined && nclx.colour_primaries <= 255 && nclx.transfer_characteristics <= 255
            ==> profile_codes(nclx) is Some,
{
}

/// Of several colour boxes, the last of each kind counts: one more nclx
/// profile replaces the one before and leaves the ICC profile alone, and the
/// other way round. A box that could not be read changes nothing.
pub proof fn lemma_last_colour_counts(
    boxes: Seq<Option<ColorInformation>>,
    more: Option<ColorInformation>,
)
    ensures
        ({
            let (all, count) = (boxes.push(more), boxes.len());
            match more {
                None => last_nclx(all, count + 1) == last_nclx(boxes, count) && last_icc(
                    all,
                    count + 1,
                ) == last_icc(boxes, count),
                Some(ColorInformation::Nclx(profile)) => last_nclx(all, count + 1) == Some(profile)
                    && last_icc(all, count + 1) == last_icc(boxes, count),
                Some(ColorInformation::Icc(profile)) => last_icc(all, count + 1) == Some(profile@)
                    && last_nclx(all, count + 1) == last_nclx(boxes, count),
            }
        }),
{
    lemma_earlier_colours(boxes, more, boxes.len());
}

/// One more box changes nothing among those before it.
proof fn lemma_earlier_colours(
    boxes: Seq<Option<ColorInformation>>,
    more: Option<ColorInformation>,
    count: nat,
)
    requires
        count <= boxes.len(),
    ensures
        last_nclx(boxes.push(more), count) == last_nclx(boxes, count),
        last_icc(boxes.push(more), count) == last_icc(boxes, count),
    decreases count,
{
    if count > 0 {
        lemma_earlier_colours(boxes, more, (count - 1) as nat);
        assert(boxes.push(more)[count - 1] == boxes[count - 1]);
    }
}

/// The samples of a file stand in big endian, and those of a colour lose the
/// bits behind the depth of the image: what is left is the sample cut down to
/// that many bits. Opacity, every fourth sample, keeps all of its bits.
pub proof fn lemma_samples_of_file(samples: Seq<u16>, bit_depth: u8, k: int)
    requires
        1 <= bit_depth <= 16,
        0 <= k < samples.len(),
    ensures
        file_samples(samples, bit_depth).len() == samples.len(),
        k % 4 == 3 ==> file_samples(samples, bit_depth)[k] == samples[k],
        k % 4 != 3 ==> {
            let (sample, kept) = (samples[k] as int, file_samples(samples, bit_depth)[k] as int);
            let step = pow2((16 - bit_depth) as nat) as int;
            &&& kept % step == 0
            &&& kept <= sample < kept + step
        },
        be_bytes(samples).len() == 2 * samples.len(),
        256 * be_bytes(samples)[2 * k] + be_bytes(samples)[2 * k + 1] == samples[k],
{
    vstd::arithmetic::power2::lemma_pow2_pos((16 - bit_depth) as nat);
    vstd::arithmetic::power2::lemma2_to64();
    let step = pow2((16 - bit_depth) as nat) as int;
    let sample = samples[k] as int;
    vstd::arithmetic::div_mod::lemma_fundamental_div_mod(sample, step);
    if bit_depth < 16 {
        let whole = sample / step;
        assert(sample - sample % step == step * whole);
        assert(0 <= step * whole <= sample) by (nonlinear_arith)
            requires
                sample == step * whole + sample % step,
                0 <= sample % step,
                step > 0,
                whole >= 0,
        ;
        vstd::arithmetic::mul::lemma_mul_is_commutative(step, whole);
        vstd::arithmetic::div_mod::lemma_mod_multiples_basic(whole, step);
    } else {
        assert(step == 1);
        assert(sample % 1 == 0);
    }
    assert((2 * k) / 2 == k && (2 * k) % 2 == 0 && (2 * k + 1) / 2 == k && (2 * k + 1) % 2 == 1);
}

} // verus!
