//! Which channels the components of an item fill, and at what bit depth.
use super::components::{
    uncompressed_channel_name, uncompressed_component_layout_from_properties,
    UncompressedComponentDecodeSpec, UncompressedPrimaryItemProperties,
    UNCOMPRESSED_CHANNEL_COUNT, UNCOMPRESSED_CHANNEL_LUMA, UNCOMPRESSED_INTERLEAVE_MULTI_Y,
};
#[allow(unused_imports)]
use super::components::{channel_name, component_layout};
use super::reader::{invalid_input, unsupported_feature};
#[allow(unused_imports)]
use super::reader::{invalid, unsupported};
use crate::errors::DecodeUncompressedError;
use crate::text::{Arg, Detail};
use vstd::prelude::*;

verus! {

/// Per-channel presence, bit depth, and component count.
#[derive(Clone, Copy, Debug, PartialEq, Eq)]
pub struct UncompressedChannelMap {
    pub has_channel: [bool; 8],
    pub channel_bit_depths: [u8; 8],
    pub channel_component_counts: [u8; 8],
}

/// The same, as sequences.
pub struct ChannelMap {
    pub present: Seq<bool>,
    pub depths: Seq<u8>,
    pub counts: Seq<u8>,
}

impl View for UncompressedChannelMap {
    type V = ChannelMap;

    open spec fn view(&self) -> ChannelMap {
        ChannelMap {
            present: self.has_channel@,
            depths: self.channel_bit_depths@,
            counts: self.channel_component_counts@,
        }
    }
}

impl ChannelMap {
    /// No channel at all.
    pub open spec fn empty() -> ChannelMap {
        ChannelMap {
            present: Seq::new(8, |i: int| false),
            depths: Seq::new(8, |i: int| 0u8),
            counts: Seq::new(8, |i: int| 0u8),
        }
    }

    /// The map with one more component. A channel takes one component; only
    /// the luma channel takes more, all of one bit depth, and only where
    /// several luma samples share a group.
    pub open spec fn with(self, spec: UncompressedComponentDecodeSpec, interleave_type: u8) -> Result<
        ChannelMap,
        DecodeUncompressedError,
    > {
        match spec.role.channel() {
            None => Ok(self),
            Some(channel) => {
                let c = channel as int;
                if !self.present[c] {
                    Ok(
                        ChannelMap {
                            present: self.present.update(c, true),
                            depths: self.depths.update(c, spec.bit_depth),
                            counts: self.counts.update(c, 1),
                        },
                    )
                } else if interleave_type == UNCOMPRESSED_INTERLEAVE_MULTI_Y && c
                    == UNCOMPRESSED_CHANNEL_LUMA {
                    if self.depths[c] != spec.bit_depth {
                        Err(
                            unsupported(
                                Detail::Two(
                                    "uncC multi-y interleave requires duplicate luma components to use one bit depth (saw {} and {})",
                                    Arg::Num(self.depths[c] as i128),
                                    Arg::Num(spec.bit_depth as i128),
                                ),
                            ),
                        )
                    } else if self.counts[c] == u8::MAX {
                        Err(
                            invalid(
                                Detail::Plain(
                                    "uncompressed multi-y luma component-count overflow",
                                ),
                            ),
                        )
                    } else {
                        Ok(
                            ChannelMap {
                                counts: self.counts.update(c, (self.counts[c] + 1) as u8),
                                ..self
                            },
                        )
                    }
                } else {
                    Err(
                        invalid(
                            Detail::One(
                                "duplicate component mapping for {} is not supported in this baseline decoder",
                                Arg::Word(channel_name(c)),
                            ),
                        ),
                    )
                }
            },
        }
    }
}

/// The map of the first `count` components, or the error of the first that
/// has one.
pub open spec fn channel_map(
    specs: Seq<UncompressedComponentDecodeSpec>,
    interleave_type: u8,
    count: nat,
) -> Result<ChannelMap, DecodeUncompressedError>
    decreases count,
{
    if count == 0 {
        Ok(ChannelMap::empty())
    } else {
        match channel_map(specs, interleave_type, (count - 1) as nat) {
            Err(e) => Err(e),
            Ok(map) => map.with(specs[count - 1], interleave_type),
        }
    }
}

/// An error among the first components is the error of all of them.
proof fn lemma_channel_map_error(
    specs: Seq<UncompressedComponentDecodeSpec>,
    interleave_type: u8,
    few: nat,
    many: nat,
)
    requires
        few <= many,
        channel_map(specs, interleave_type, few) is Err,
    ensures
        channel_map(specs, interleave_type, many) == channel_map(specs, interleave_type, few),
    decreases many - few,
{
    if few < many {
        lemma_channel_map_error(specs, interleave_type, few, (many - 1) as nat);
    }
}

/// A channel is there if and only if one of the components fills it, and its
/// bit depth is that of every such component.
pub proof fn lemma_channel_map_presence(
    specs: Seq<UncompressedComponentDecodeSpec>,
    interleave_type: u8,
    count: nat,
)
    requires
        count <= specs.len(),
    ensures
        channel_map(specs, interleave_type, count) matches Ok(map) ==> {
            &&& map.present.len() == 8
            &&& map.depths.len() == 8
            &&& map.counts.len() == 8
            &&& forall|c: usize|
                c < 8 ==> (#[trigger] map.present[c as int] <==> exists|i: int|
                    0 <= i < count && (#[trigger] specs[i]).role.channel() == Some(c))
            &&& forall|i: int|
                0 <= i < count && (#[trigger] specs[i]).role.channel() is Some ==> map.present[specs[i].role.channel()->0 as int]
                    && map.depths[specs[i].role.channel()->0 as int] == specs[i].bit_depth
        },
    decreases count,
{
    if count > 0 {
        lemma_channel_map_presence(specs, interleave_type, (count - 1) as nat);
        if channel_map(specs, interleave_type, count) is Ok {
            let before = channel_map(specs, interleave_type, (count - 1) as nat)->Ok_0;
            let map = channel_map(specs, interleave_type, count)->Ok_0;
            let last = specs[count - 1];
            assert(map == before.with(last, interleave_type)->Ok_0);
            assert forall|c: usize| c < 8 implies (#[trigger] map.present[c as int] <==> exists|i: int|
                0 <= i < count && (#[trigger] specs[i]).role.channel() == Some(c)) by {
                if map.present[c as int] {
                    if before.present[c as int] {
                        let i = choose|i: int|
                            0 <= i < count - 1 && (#[trigger] specs[i]).role.channel() == Some(c);
                        assert(specs[i].role.channel() == Some(c));
                    } else {
                        assert(specs[count - 1].role.channel() == Some(c));
                    }
                }
            }
        }
    }
}

/// Folds the components into the per-channel map, enforcing the rules on
/// components that fill the same channel.
pub fn resolve_uncompressed_channel_map(
    component_specs: &[UncompressedComponentDecodeSpec],
    interleave_type: u8,
) -> (map: Result<UncompressedChannelMap, DecodeUncompressedError>)
    ensures
        match channel_map(component_specs@, interleave_type, component_specs@.len()) {
            Ok(expected) => map is Ok && map->Ok_0@ == expected,
            Err(e) => map == Err::<UncompressedChannelMap, DecodeUncompressedError>(e),
        },
{
    let mut map: UncompressedChannelMap = UncompressedChannelMap {
        has_channel: [false, false, false, false, false, false, false, false],
        channel_bit_depths: [0, 0, 0, 0, 0, 0, 0, 0],
        channel_component_counts: [0, 0, 0, 0, 0, 0, 0, 0],
    };
    assert(map@.present =~= ChannelMap::empty().present);
    assert(map@.depths =~= ChannelMap::empty().depths);
    assert(map@.counts =~= ChannelMap::empty().counts);
    let mut index: usize = 0;
    while index < component_specs.len()
        invariant
            index <= component_specs@.len(),
            channel_map(component_specs@, interleave_type, index as nat) == Ok::<
                ChannelMap,
                DecodeUncompressedError,
            >(map@),
        decreases component_specs@.len() - index,
    {
        let spec: UncompressedComponentDecodeSpec = component_specs[index];
        let ghost before = map@;
        proof {
            if before.with(spec, interleave_type) is Err {
                lemma_channel_map_error(
                    component_specs@,
                    interleave_type,
                    (index + 1) as nat,
                    component_specs@.len(),
                );
            }
        }
        match spec.role.channel_index() {
            None => {},
            Some(channel_index) => {
                if map.has_channel[channel_index] {
                    let allow_duplicate: bool = interleave_type == UNCOMPRESSED_INTERLEAVE_MULTI_Y
                        && channel_index == UNCOMPRESSED_CHANNEL_LUMA;
                    if !allow_duplicate {
                        return invalid_input(
                            Detail::One(
                                "duplicate component mapping for {} is not supported in this baseline decoder",
                                Arg::Word(uncompressed_channel_name(channel_index)),
                            ),
                        );
                    }
                    if map.channel_bit_depths[channel_index] != spec.bit_depth {
                        return unsupported_feature(
                            Detail::Two(
                                "uncC multi-y interleave requires duplicate luma components to use one bit depth (saw {} and {})",
                                Arg::Num(map.channel_bit_depths[channel_index] as i128),
                                Arg::Num(spec.bit_depth as i128),
                            ),
                        );
                    }
                    let count: u8 = map.channel_component_counts[channel_index];
                    if count == u8::MAX {
                        return invalid_input(
                            Detail::Plain("uncompressed multi-y luma component-count overflow"),
                        );
                    }
                    map.channel_component_counts[channel_index] = count + 1;
                } else {
                    map.has_channel[channel_index] = true;
                    map.channel_bit_depths[channel_index] = spec.bit_depth;
                    map.channel_component_counts[channel_index] = 1;
                }
            },
        }
        assert(map@ == before.with(spec, interleave_type)->Ok_0);
        index = index + 1;
    }
    Ok(map)
}

/// The smallest bit depth of the channels before `count` that are there.
pub open spec fn least_depth(present: Seq<bool>, depths: Seq<u8>, count: nat) -> u8
    decreases count,
{
    if count == 0 {
        u8::MAX
    } else {
        let rest = least_depth(present, depths, (count - 1) as nat);
        if present[count - 1] && depths[count - 1] < rest {
            depths[count - 1]
        } else {
            rest
        }
    }
}

/// The largest bit depth of the channels before `count` that are there.
pub open spec fn greatest_depth(present: Seq<bool>, depths: Seq<u8>, count: nat) -> u8
    decreases count,
{
    if count == 0 {
        0
    } else {
        let rest = greatest_depth(present, depths, (count - 1) as nat);
        if present[count - 1] && depths[count - 1] > rest {
            depths[count - 1]
        } else {
            rest
        }
    }
}

/// Whether a bit depth can be decoded.
pub open spec fn depth_in_range(depth: u8) -> bool {
    1 <= depth <= 16
}

/// The first channel that is there and whose bit depth is out of range.
pub open spec fn first_bad_depth(present: Seq<bool>, depths: Seq<u8>, count: nat) -> Option<u8>
    decreases count,
{
    if count == 0 {
        None
    } else {
        match first_bad_depth(present, depths, (count - 1) as nat) {
            Some(depth) => Some(depth),
            None => if present[count - 1] && !depth_in_range(depths[count - 1]) {
                Some(depths[count - 1])
            } else {
                None
            },
        }
    }
}

/// The bit depth of the output: that of the channels where they agree, else
/// the smallest of 8 and 16 that holds them all.
pub open spec fn output_depth(present: Seq<bool>, depths: Seq<u8>) -> Result<
    u8,
    DecodeUncompressedError,
> {
    let greatest = greatest_depth(present, depths, 8);
    match first_bad_depth(present, depths, 8) {
        Some(depth) => Err(
            invalid(
                Detail::One(
                    "invalid uncompressed channel bit depth {}",
                    Arg::Num(depth as i128),
                ),
            ),
        ),
        None => if forall|i: int| 0 <= i < 8 ==> !present[i] {
            Err(
                invalid(Detail::Plain("uncompressed primary item has zero output bit depth")),
            )
        } else if least_depth(present, depths, 8) == greatest {
            Ok(greatest)
        } else if greatest <= 8 {
            Ok(8)
        } else {
            Ok(16)
        },
    }
}

proof fn lemma_first_bad_depth(present: Seq<bool>, depths: Seq<u8>, few: nat, many: nat)
    requires
        few <= many,
        first_bad_depth(present, depths, few) is Some,
    ensures
        first_bad_depth(present, depths, many) == first_bad_depth(present, depths, few),
    decreases many - few,
{
    if few < many {
        lemma_first_bad_depth(present, depths, few, (many - 1) as nat);
    }
}

/// The output depth is in range, and no channel is deeper than it.
pub proof fn lemma_output_depth(present: Seq<bool>, depths: Seq<u8>)
    requires
        present.len() == 8,
        depths.len() == 8,
    ensures
        output_depth(present, depths) matches Ok(depth) ==> {
            &&& depth_in_range(depth)
            &&& forall|i: int| 0 <= i < 8 && present[i] ==> depth_in_range(#[trigger] depths[i])
            &&& forall|i: int| 0 <= i < 8 && present[i] ==> #[trigger] depths[i] <= depth
        },
{
    lemma_depth_bounds(present, depths, 8);
}

proof fn lemma_depth_bounds(present: Seq<bool>, depths: Seq<u8>, count: nat)
    requires
        present.len() == 8,
        depths.len() == 8,
        count <= 8,
    ensures
        forall|i: int|
            0 <= i < count && present[i] ==> #[trigger] depths[i] <= greatest_depth(
                present,
                depths,
                count,
            ) && least_depth(present, depths, count) <= depths[i],
        first_bad_depth(present, depths, count) is None ==> forall|i: int|
            0 <= i < count && present[i] ==> depth_in_range(#[trigger] depths[i]),
        first_bad_depth(present, depths, count) is None ==> greatest_depth(present, depths, count) <= 16,
        first_bad_depth(present, depths, count) is None && (exists|i: int| 0 <= i < count && present[i])
            ==> greatest_depth(present, depths, count) >= 1,
    decreases count,
{
    if count > 0 {
        lemma_depth_bounds(present, depths, (count - 1) as nat);
    }
}

/// Chooses the bit depth of the output.
pub fn select_uncompressed_output_bit_depth(
    has_channel: &[bool; 8],
    channel_bit_depths: &[u8; 8],
) -> (depth: Result<u8, DecodeUncompressedError>)
    ensures
        depth == output_depth(has_channel@, channel_bit_depths@),
{
    let mut min_bit_depth: u8 = u8::MAX;
    let mut max_bit_depth: u8 = 0;
    let mut has_any_channel: bool = false;
    let mut index: usize = 0;
    while index < UNCOMPRESSED_CHANNEL_COUNT
        invariant
            index <= 8,
            min_bit_depth == least_depth(has_channel@, channel_bit_depths@, index as nat),
            max_bit_depth == greatest_depth(has_channel@, channel_bit_depths@, index as nat),
            first_bad_depth(has_channel@, channel_bit_depths@, index as nat) is None,
            has_any_channel <==> exists|i: int| 0 <= i < index && has_channel@[i],
        decreases 8 - index,
    {
        if has_channel[index] {
            let bit_depth: u8 = channel_bit_depths[index];
            if bit_depth == 0 || bit_depth > 16 {
                proof {
                    lemma_first_bad_depth(
                        has_channel@,
                        channel_bit_depths@,
                        (index + 1) as nat,
                        8,
                    );
                }
                return invalid_input(
                    Detail::One(
                        "invalid uncompressed channel bit depth {}",
                        Arg::Num(bit_depth as i128),
                    ),
                );
            }
            has_any_channel = true;
            if bit_depth < min_bit_depth {
                min_bit_depth = bit_depth;
            }
            if bit_depth > max_bit_depth {
                max_bit_depth = bit_depth;
            }
        }
        index = index + 1;
    }
    if !has_any_channel {
        return invalid_input(
            Detail::Plain("uncompressed primary item has zero output bit depth"),
        );
    }
    if min_bit_depth == max_bit_depth {
        return Ok(max_bit_depth);
    }
    if max_bit_depth <= 8 {
        Ok(8)
    } else {
        Ok(16)
    }
}

/// The output depth that the properties of an item announce.
pub open spec fn output_depth_of_properties(properties: &UncompressedPrimaryItemProperties) -> Result<
    u8,
    DecodeUncompressedError,
> {
    match component_layout(properties) {
        Err(e) => Err(e),
        Ok(layout) => match channel_map(layout.specs, layout.interleave_type, layout.specs.len()) {
            Err(e) => Err(e),
            Ok(map) => output_depth(map.present, map.depths),
        },
    }
}

/// The output bit depth that the properties of an item announce, found
/// without decoding a sample.
pub fn uncompressed_output_bit_depth_from_properties(
    properties: &UncompressedPrimaryItemProperties,
) -> (depth: Result<u8, DecodeUncompressedError>)
    ensures
        depth == output_depth_of_properties(properties),
{
    let (component_specs, _sampling_type, interleave_type):
        (Vec<UncompressedComponentDecodeSpec>, u8, u8) =
        uncompressed_component_layout_from_properties(properties)?;
    let map: UncompressedChannelMap = resolve_uncompressed_channel_map(
        component_specs.as_slice(),
        interleave_type,
    )?;
    select_uncompressed_output_bit_depth(&map.has_channel, &map.channel_bit_depths)
}

} // verus!
