//! The items that are linked to the primary item: metadata that describes it,
//! and opacity that belongs to it.
use crate::fourcc::four_cc_is;
#[allow(unused_imports)]
use crate::fourcc::{spells, FourCc};
use crate::items::{
    extract_heic_item_payload, item_info_is_exif_candidate,
    property_is_alpha_auxiliary_type_property, ItemGraph, ItemReference,
};
#[allow(unused_imports)]
use crate::items::{
    data_bytes, info_of, is_alpha_property, is_exif_item, item_payload, location_of, ItemProperty,
};
use vstd::prelude::*;

verus! {

/// Whether a number is among others.
fn among(numbers: &Vec<u32>, number: u32) -> (found: bool)
    ensures
        found == numbers@.contains(number),
{
    let mut k: usize = 0;
    while k < numbers.len()
        invariant
            k <= numbers@.len(),
            forall|i: int| 0 <= i < k ==> numbers@[i] != number,
        decreases numbers@.len() - k,
    {
        if numbers[k] == number {
            assert(numbers@[k as int] == number);
            return true;
        }
        k = k + 1;
    }
    false
}

/// Whether a reference describes an item (`cdsc`).
pub open spec fn describes(reference: ItemReference, item_id: u32) -> bool {
    spells(reference.reference_type, 99, 100, 115, 99) && reference.to_item_ids@.contains(item_id)
}

/// Whether a reference is from an item that belongs to another (`auxl`).
pub open spec fn assists(reference: ItemReference, item_id: u32) -> bool {
    spells(reference.reference_type, 97, 117, 120, 108) && reference.to_item_ids@.contains(
        item_id,
    )
}

/// Where an item lies that is EXIF metadata in this file.
pub open spec fn exif_place(graph: &ItemGraph, item_id: u32) -> Option<usize> {
    match (info_of(graph.infos@, item_id), location_of(graph.locations@, item_id)) {
        (Some(info), Some(location)) => if is_exif_item(graph.infos@[info])
            && graph.locations@[location].data_reference_index == 0 {
            Some(location as usize)
        } else {
            None
        },
        _ => None,
    }
}

/// Where the EXIF metadata of the primary item lies, in the order of the
/// references.
pub open spec fn exif_places(graph: &ItemGraph, references: Seq<ItemReference>) -> Seq<usize>
    decreases references.len(),
{
    if references.len() == 0 {
        Seq::empty()
    } else {
        let before = exif_places(graph, references.drop_last());
        let last = references.last();
        if describes(last, graph.primary_item_id) {
            match exif_place(graph, last.from_item_id) {
                Some(place) => before.push(place),
                None => before,
            }
        } else {
            before
        }
    }
}

/// Where an item lies that is EXIF metadata in this file.
fn exif_item_location(graph: &ItemGraph, item_id: u32) -> (place: Option<usize>)
    ensures
        place == exif_place(graph, item_id),
        place matches Some(place) ==> place < graph.locations@.len(),
{
    let info: usize = match graph.find_info(item_id) {
        None => {
            return None;
        },
        Some(info) => info,
    };
    if !item_info_is_exif_candidate(&graph.infos[info]) {
        return None;
    }
    let location: usize = match graph.find_location(item_id) {
        None => {
            return None;
        },
        Some(location) => location,
    };
    if graph.locations[location].data_reference_index != 0 {
        return None;
    }
    Some(location)
}

/// Where the EXIF metadata of the primary item lies: places in the list of
/// locations.
pub fn primary_exif_item_locations(graph: &ItemGraph) -> (places: Vec<usize>)
    ensures
        places@ == exif_places(graph, graph.references@),
        forall|k: int| 0 <= k < places@.len() ==> #[trigger] places@[k] < graph.locations@.len(),
{
    let ghost all = graph.references@;
    let mut places: Vec<usize> = Vec::new();
    let mut k: usize = 0;
    assert(all.take(0) =~= Seq::<ItemReference>::empty());
    while k < graph.references.len()
        invariant
            k <= graph.references@.len(),
            all == graph.references@,
            places@ == exif_places(graph, all.take(k as int)),
            forall|i: int|
                0 <= i < places@.len() ==> #[trigger] places@[i] < graph.locations@.len(),
        decreases graph.references@.len() - k,
    {
        proof {
            assert(all.take(k + 1).drop_last() =~= all.take(k as int));
            assert(all.take(k + 1).last() == all[k as int]);
        }
        let reference: &ItemReference = &graph.references[k];
        if four_cc_is(reference.reference_type, 99, 100, 115, 99) && among(
            &reference.to_item_ids,
            graph.primary_item_id,
        ) {
            match exif_item_location(graph, reference.from_item_id) {
                None => {},
                Some(place) => {
                    places.push(place);
                },
            }
        }
        k = k + 1;
    }
    assert(all.take(k as int) =~= all);
    places
}

/// The payloads of the items at places, without those whose bytes are
/// missing.
pub open spec fn payloads_at(
    graph: &ItemGraph,
    input: Seq<u8>,
    item_data: Option<Seq<u8>>,
    places: Seq<usize>,
) -> Seq<Seq<u8>>
    decreases places.len(),
{
    if places.len() == 0 {
        Seq::empty()
    } else {
        let before = payloads_at(graph, input, item_data, places.drop_last());
        match item_payload(input, item_data, graph.locations@[places.last() as int]) {
            Some(payload) => before.push(payload),
            None => before,
        }
    }
}

/// What payloads hold.
pub open spec fn contents(payloads: Seq<Vec<u8>>) -> Seq<Seq<u8>> {
    payloads.map_values(|payload: Vec<u8>| payload@)
}

/// The EXIF metadata that describes the primary item.
pub fn primary_exif_item_payloads(
    graph: &ItemGraph,
    input: &[u8],
    item_data: Option<&[u8]>,
) -> (payloads: Vec<Vec<u8>>)
    ensures
        contents(payloads@) == payloads_at(
            graph,
            input@,
            data_bytes(item_data),
            exif_places(graph, graph.references@),
        ),
{
    let places: Vec<usize> = primary_exif_item_locations(graph);
    let ghost all = places@;
    let mut payloads: Vec<Vec<u8>> = Vec::new();
    let mut k: usize = 0;
    proof {
        assert(all.take(0) =~= Seq::<usize>::empty());
        assert(contents(payloads@) =~= Seq::<Seq<u8>>::empty());
    }
    while k < places.len()
        invariant
            k <= places@.len(),
            all == places@,
            forall|i: int|
                0 <= i < places@.len() ==> #[trigger] places@[i] < graph.locations@.len(),
            contents(payloads@) == payloads_at(
                graph,
                input@,
                data_bytes(item_data),
                all.take(k as int),
            ),
        decreases places@.len() - k,
    {
        proof {
            assert(all.take(k + 1).drop_last() =~= all.take(k as int));
            assert(all.take(k + 1).last() == all[k as int]);
        }
        let place: usize = places[k];
        match extract_heic_item_payload(input, item_data, &graph.locations[place]) {
            None => {},
            Some(payload) => {
                let ghost before = payloads@;
                payloads.push(payload);
                assert(contents(payloads@) =~= contents(before).push(payload@));
            },
        }
        k = k + 1;
    }
    assert(all.take(k as int) =~= all);
    payloads
}

/// How the opacity of an image is coded.
#[derive(Clone, Copy, Debug, PartialEq, Eq, Structural)]
pub enum AlphaCodec {
    Av1,
    Hevc,
}

impl AlphaCodec {
    /// Whether an item type is coded this way: `av01`, or `hvc1` and `hev1`.
    pub open spec fn codes(self, item_type: FourCc) -> bool {
        match self {
            AlphaCodec::Av1 => spells(item_type, 97, 118, 48, 49),
            AlphaCodec::Hevc => spells(item_type, 104, 118, 99, 49) || spells(
                item_type,
                104,
                101,
                118,
                49,
            ),
        }
    }

    /// Whether a property configures a decoder of this coding: `av1C`, or
    /// `hvcC`.
    pub open spec fn configures(self, property: ItemProperty) -> bool {
        match self {
            AlphaCodec::Av1 => spells(property.box_type, 97, 118, 49, 67),
            AlphaCodec::Hevc => spells(property.box_type, 104, 118, 99, 67),
        }
    }
}

/// An item that may be the opacity of the primary item: where it lies, and
/// the property that configures its decoder.
#[derive(Clone, Copy, Debug, PartialEq, Eq, Structural)]
pub struct AlphaCandidate {
    pub location: usize,
    pub configuration: usize,
}

/// Whether one of the properties at places marks an item as opacity.
pub open spec fn marks_alpha(properties: Seq<ItemProperty>, places: Seq<usize>) -> bool {
    exists|k: int| 0 <= k < places.len() && is_alpha_property(properties[#[trigger] places[k] as int])
}

/// The first of the properties at places that configures a decoder.
pub open spec fn configuration_of(
    codec: AlphaCodec,
    properties: Seq<ItemProperty>,
    places: Seq<usize>,
) -> Option<usize>
    decreases places.len(),
{
    if places.len() == 0 {
        None
    } else {
        match configuration_of(codec, properties, places.drop_last()) {
            Some(place) => Some(place),
            None => if codec.configures(properties[places.last() as int]) {
                Some(places.last())
            } else {
                None
            },
        }
    }
}

/// What an item is as the opacity of another, where it can be that.
pub open spec fn alpha_candidate(
    codec: AlphaCodec,
    graph: &ItemGraph,
    item_id: u32,
) -> Option<AlphaCandidate> {
    match (
        info_of(graph.infos@, item_id),
        location_of(graph.locations@, item_id),
        graph.properties_of(item_id),
    ) {
        (Some(info), Some(location), Some(places)) => {
            let item_type = graph.infos@[info].item_type;
            let configuration = configuration_of(codec, graph.properties@, places);
            if item_type is Some && codec.codes(item_type->0)
                && graph.locations@[location].data_reference_index == 0 && marks_alpha(
                graph.properties@,
                places,
            ) && configuration is Some {
                Some(
                    AlphaCandidate { location: location as usize, configuration: configuration->0 },
                )
            } else {
                None
            }
        },
        _ => None,
    }
}

/// The items that may be the opacity of the primary item, in the order of the
/// references.
pub open spec fn alpha_candidates(
    codec: AlphaCodec,
    graph: &ItemGraph,
    references: Seq<ItemReference>,
) -> Seq<AlphaCandidate>
    decreases references.len(),
{
    if references.len() == 0 {
        Seq::empty()
    } else {
        let before = alpha_candidates(codec, graph, references.drop_last());
        let last = references.last();
        if assists(last, graph.primary_item_id) {
            match alpha_candidate(codec, graph, last.from_item_id) {
                Some(candidate) => before.push(candidate),
                None => before,
            }
        } else {
            before
        }
    }
}

/// A configuration that was found stays the first.
proof fn lemma_configuration_of(
    codec: AlphaCodec,
    properties: Seq<ItemProperty>,
    places: Seq<usize>,
    few: int,
)
    requires
        0 <= few <= places.len(),
        configuration_of(codec, properties, places.take(few)) is Some,
    ensures
        configuration_of(codec, properties, places) == configuration_of(
            codec,
            properties,
            places.take(few),
        ),
    decreases places.len() - few,
{
    if few < places.len() {
        assert(places.take(few + 1).drop_last() =~= places.take(few));
        lemma_configuration_of(codec, properties, places, few + 1);
    } else {
        assert(places.take(few) =~= places);
    }
}

/// Whether an item type is coded in a way.
fn codes_item(codec: AlphaCodec, item_type: FourCc) -> (coded: bool)
    ensures
        coded == codec.codes(item_type),
{
    match codec {
        AlphaCodec::Av1 => four_cc_is(item_type, 97, 118, 48, 49),
        AlphaCodec::Hevc => four_cc_is(item_type, 104, 118, 99, 49) || four_cc_is(
            item_type,
            104,
            101,
            118,
            49,
        ),
    }
}

/// Whether a property configures a decoder.
fn configures_decoder(codec: AlphaCodec, property: &ItemProperty) -> (configures: bool)
    ensures
        configures == codec.configures(*property),
{
    match codec {
        AlphaCodec::Av1 => four_cc_is(property.box_type, 97, 118, 49, 67),
        AlphaCodec::Hevc => four_cc_is(property.box_type, 104, 118, 99, 67),
    }
}

/// Whether one of the properties at places marks an item as opacity.
fn has_alpha_mark(graph: &ItemGraph, places: &Vec<usize>) -> (marked: bool)
    requires
        forall|k: int| 0 <= k < places@.len() ==> #[trigger] places@[k] < graph.properties@.len(),
    ensures
        marked == marks_alpha(graph.properties@, places@),
{
    let mut k: usize = 0;
    while k < places.len()
        invariant
            k <= places@.len(),
            forall|i: int|
                0 <= i < places@.len() ==> #[trigger] places@[i] < graph.properties@.len(),
            forall|i: int|
                0 <= i < k ==> !is_alpha_property(graph.properties@[#[trigger] places@[i] as int]),
        decreases places@.len() - k,
    {
        if property_is_alpha_auxiliary_type_property(&graph.properties[places[k]]) {
            assert(is_alpha_property(graph.properties@[places@[k as int] as int]));
            return true;
        }
        k = k + 1;
    }
    false
}

/// The first of the properties at places that configures a decoder.
fn find_configuration(codec: AlphaCodec, graph: &ItemGraph, places: &Vec<usize>) -> (found: Option<
    usize,
>)
    requires
        forall|k: int| 0 <= k < places@.len() ==> #[trigger] places@[k] < graph.properties@.len(),
    ensures
        found == configuration_of(codec, graph.properties@, places@),
        found matches Some(place) ==> place < graph.properties@.len(),
{
    let ghost all = places@;
    let mut k: usize = 0;
    assert(all.take(0) =~= Seq::<usize>::empty());
    while k < places.len()
        invariant
            k <= places@.len(),
            all == places@,
            forall|i: int|
                0 <= i < places@.len() ==> #[trigger] places@[i] < graph.properties@.len(),
            configuration_of(codec, graph.properties@, all.take(k as int)) is None,
        decreases places@.len() - k,
    {
        proof {
            assert(all.take(k + 1).drop_last() =~= all.take(k as int));
            assert(all.take(k + 1).last() == all[k as int]);
        }
        let place: usize = places[k];
        if configures_decoder(codec, &graph.properties[place]) {
            proof {
                lemma_configuration_of(codec, graph.properties@, all, k + 1);
            }
            return Some(place);
        }
        k = k + 1;
    }
    assert(all.take(k as int) =~= all);
    None
}

/// What an item is as the opacity of another, where it can be that.
fn find_alpha_candidate(codec: AlphaCodec, graph: &ItemGraph, item_id: u32) -> (found: Option<
    AlphaCandidate,
>)
    ensures
        found == alpha_candidate(codec, graph, item_id),
        found matches Some(candidate) ==> candidate.location < graph.locations@.len()
            && candidate.configuration < graph.properties@.len(),
{
    let info: usize = match graph.find_info(item_id) {
        None => {
            return None;
        },
        Some(info) => info,
    };
    let item_type: FourCc = match graph.infos[info].item_type {
        None => {
            return None;
        },
        Some(item_type) => item_type,
    };
    if !codes_item(codec, item_type) {
        return None;
    }
    let location: usize = match graph.find_location(item_id) {
        None => {
            return None;
        },
        Some(location) => location,
    };
    if graph.locations[location].data_reference_index != 0 {
        return None;
    }
    let places: Vec<usize> = match graph.resolved_item_properties_for_item(item_id) {
        None => {
            return None;
        },
        Some(places) => places,
    };
    if !has_alpha_mark(graph, &places) {
        return None;
    }
    match find_configuration(codec, graph, &places) {
        None => None,
        Some(configuration) => Some(AlphaCandidate { location, configuration }),
    }
}

/// The items that may be the opacity of the primary item, in the order of the
/// references.
pub fn primary_auxiliary_alpha_candidates(codec: AlphaCodec, graph: &ItemGraph) -> (candidates: Vec<
    AlphaCandidate,
>)
    ensures
        candidates@ == alpha_candidates(codec, graph, graph.references@),
        forall|k: int|
            0 <= k < candidates@.len() ==> (#[trigger] candidates@[k]).location
                < graph.locations@.len() && candidates@[k].configuration < graph.properties@.len(),
{
    let ghost all = graph.references@;
    let mut candidates: Vec<AlphaCandidate> = Vec::new();
    let mut k: usize = 0;
    assert(all.take(0) =~= Seq::<ItemReference>::empty());
    while k < graph.references.len()
        invariant
            k <= graph.references@.len(),
            all == graph.references@,
            candidates@ == alpha_candidates(codec, graph, all.take(k as int)),
            forall|i: int|
                0 <= i < candidates@.len() ==> (#[trigger] candidates@[i]).location
                    < graph.locations@.len() && candidates@[i].configuration
                    < graph.properties@.len(),
        decreases graph.references@.len() - k,
    {
        proof {
            assert(all.take(k + 1).drop_last() =~= all.take(k as int));
            assert(all.take(k + 1).last() == all[k as int]);
        }
        let reference: &ItemReference = &graph.references[k];
        if four_cc_is(reference.reference_type, 97, 117, 120, 108) && among(
            &reference.to_item_ids,
            graph.primary_item_id,
        ) {
            match find_alpha_candidate(codec, graph, reference.from_item_id) {
                None => {},
                Some(candidate) => {
                    candidates.push(candidate);
                },
            }
        }
        k = k + 1;
    }
    assert(all.take(k as int) =~= all);
    candidates
}

} // verus!
