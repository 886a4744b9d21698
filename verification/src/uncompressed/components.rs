//! The components of an uncompressed item: what each sample of the stream is,
//! and which channel it belongs to.
use super::reader::{invalid_input, unsupported_feature};
#[allow(unused_imports)]
use super::reader::{invalid, unsupported};
use crate::errors::DecodeUncompressedError;
use crate::fourcc::{four_cc_is, FourCc};
#[allow(unused_imports)]
use crate::fourcc::spells;
use crate::text::{Arg, Detail};
use crate::types::PrimaryItemColorProperties;
use vstd::prelude::*;

verus! {

/// `sampling_type`: every component has a sample for every pixel.
pub const UNCOMPRESSED_SAMPLING_NO_SUBSAMPLING: u8 = 0;

/// `sampling_type`: 4:2:2, half as many chroma columns.
pub const UNCOMPRESSED_SAMPLING_422: u8 = 1;

/// `sampling_type`: 4:2:0, half as many chroma columns and rows.
pub const UNCOMPRESSED_SAMPLING_420: u8 = 2;

/// `interleave_type`: one component after the other.
pub const UNCOMPRESSED_INTERLEAVE_COMPONENT: u8 = 0;

/// `interleave_type`: one pixel after the other.
pub const UNCOMPRESSED_INTERLEAVE_PIXEL: u8 = 1;

/// `interleave_type`: luma, then Cb and Cr alternating.
pub const UNCOMPRESSED_INTERLEAVE_MIXED: u8 = 2;

/// `interleave_type`: one row of each component after the other.
pub const UNCOMPRESSED_INTERLEAVE_ROW: u8 = 3;

/// `interleave_type`: all tiles of one component after those of the other.
pub const UNCOMPRESSED_INTERLEAVE_TILE_COMPONENT: u8 = 4;

/// `interleave_type`: groups of several luma samples with one Cb and one Cr.
pub const UNCOMPRESSED_INTERLEAVE_MULTI_Y: u8 = 5;

/// `component_format`: unsigned integers.
pub const UNCOMPRESSED_COMPONENT_FORMAT_UNSIGNED: u8 = 0;

/// The number of channels.
pub const UNCOMPRESSED_CHANNEL_COUNT: usize = 8;

/// The monochrome channel.
pub const UNCOMPRESSED_CHANNEL_MONO: usize = 0;

/// The luma channel.
pub const UNCOMPRESSED_CHANNEL_LUMA: usize = 1;

/// The Cb channel.
pub const UNCOMPRESSED_CHANNEL_CB: usize = 2;

/// The Cr channel.
pub const UNCOMPRESSED_CHANNEL_CR: usize = 3;

/// The red channel.
pub const UNCOMPRESSED_CHANNEL_RED: usize = 4;

/// The green channel.
pub const UNCOMPRESSED_CHANNEL_GREEN: usize = 5;

/// The blue channel.
pub const UNCOMPRESSED_CHANNEL_BLUE: usize = 6;

/// The alpha channel.
pub const UNCOMPRESSED_CHANNEL_ALPHA: usize = 7;

/// One component of the `uncC` property.
#[derive(Clone, Copy, Debug, PartialEq, Eq, Structural)]
pub struct UncompressedComponent {
    pub component_index: u16,
    pub component_bit_depth: u16,
    pub component_format: u8,
    pub component_align_size: u8,
}

/// The `uncC` property.
#[derive(Clone, Debug, PartialEq, Eq)]
pub struct UncompressedFrameConfig {
    pub version: u8,
    pub profile: FourCc,
    pub components: Vec<UncompressedComponent>,
    pub sampling_type: u8,
    pub interleave_type: u8,
    pub block_size: u8,
    pub components_little_endian: bool,
    pub block_pad_lsb: bool,
    pub block_little_endian: bool,
    pub block_reversed: bool,
    pub pad_unknown: bool,
    pub pixel_size: u32,
    pub row_align_size: u32,
    pub tile_align_size: u32,
    pub num_tile_cols: u32,
    pub num_tile_rows: u32,
}

/// The properties of an uncompressed primary item.
#[derive(Clone, Debug, PartialEq, Eq)]
pub struct UncompressedPrimaryItemProperties {
    pub item_id: u32,
    pub width: u32,
    pub height: u32,
    pub unc_c: UncompressedFrameConfig,
    /// The component types of the `cmpd` property, where there is one.
    pub component_types: Option<Vec<u16>>,
    pub colr: PrimaryItemColorProperties,
}

impl UncompressedPrimaryItemProperties {
    /// The tile grid has at least one column and one row: the property stores
    /// each count less one.
    pub open spec fn wf(&self) -> bool {
        self.unc_c.num_tile_cols > 0 && self.unc_c.num_tile_rows > 0
    }
}

/// What the samples of a component stand for.
#[derive(Clone, Copy, Debug, PartialEq, Eq, Structural)]
pub enum UncompressedChannelRole {
    Monochrome,
    Luma,
    ChromaBlue,
    ChromaRed,
    Red,
    Green,
    Blue,
    Alpha,
    Padded,
}

/// The name of a channel in messages.
pub open spec fn channel_name(channel_index: int) -> &'static str {
    if channel_index == UNCOMPRESSED_CHANNEL_MONO {
        "monochrome"
    } else if channel_index == UNCOMPRESSED_CHANNEL_LUMA {
        "luma"
    } else if channel_index == UNCOMPRESSED_CHANNEL_CB {
        "Cb"
    } else if channel_index == UNCOMPRESSED_CHANNEL_CR {
        "Cr"
    } else if channel_index == UNCOMPRESSED_CHANNEL_RED {
        "red"
    } else if channel_index == UNCOMPRESSED_CHANNEL_GREEN {
        "green"
    } else if channel_index == UNCOMPRESSED_CHANNEL_BLUE {
        "blue"
    } else if channel_index == UNCOMPRESSED_CHANNEL_ALPHA {
        "alpha"
    } else {
        "unknown"
    }
}

/// The name of a channel in messages.
pub fn uncompressed_channel_name(channel_index: usize) -> (name: &'static str)
    ensures
        name == channel_name(channel_index as int),
{
    if channel_index == UNCOMPRESSED_CHANNEL_MONO {
        "monochrome"
    } else if channel_index == UNCOMPRESSED_CHANNEL_LUMA {
        "luma"
    } else if channel_index == UNCOMPRESSED_CHANNEL_CB {
        "Cb"
    } else if channel_index == UNCOMPRESSED_CHANNEL_CR {
        "Cr"
    } else if channel_index == UNCOMPRESSED_CHANNEL_RED {
        "red"
    } else if channel_index == UNCOMPRESSED_CHANNEL_GREEN {
        "green"
    } else if channel_index == UNCOMPRESSED_CHANNEL_BLUE {
        "blue"
    } else if channel_index == UNCOMPRESSED_CHANNEL_ALPHA {
        "alpha"
    } else {
        "unknown"
    }
}

impl UncompressedChannelRole {
    /// The channel that the role fills; padding fills none.
    pub open spec fn channel(self) -> Option<usize> {
        match self {
            UncompressedChannelRole::Monochrome => Some(UNCOMPRESSED_CHANNEL_MONO),
            UncompressedChannelRole::Luma => Some(UNCOMPRESSED_CHANNEL_LUMA),
            UncompressedChannelRole::ChromaBlue => Some(UNCOMPRESSED_CHANNEL_CB),
            UncompressedChannelRole::ChromaRed => Some(UNCOMPRESSED_CHANNEL_CR),
            UncompressedChannelRole::Red => Some(UNCOMPRESSED_CHANNEL_RED),
            UncompressedChannelRole::Green => Some(UNCOMPRESSED_CHANNEL_GREEN),
            UncompressedChannelRole::Blue => Some(UNCOMPRESSED_CHANNEL_BLUE),
            UncompressedChannelRole::Alpha => Some(UNCOMPRESSED_CHANNEL_ALPHA),
            UncompressedChannelRole::Padded => None,
        }
    }

    /// The name of the role's channel in messages.
    pub open spec fn label(self) -> &'static str {
        match self.channel() {
            Some(index) => channel_name(index as int),
            None => "padded",
        }
    }

    /// Whether the role is one of the two chroma components.
    pub open spec fn is_chroma(self) -> bool {
        self is ChromaBlue || self is ChromaRed
    }

    /// The channel that the role fills; padding fills none.
    pub fn channel_index(self) -> (index: Option<usize>)
        ensures
            index == self.channel(),
            index matches Some(i) ==> i < UNCOMPRESSED_CHANNEL_COUNT,
    {
        match self {
            UncompressedChannelRole::Monochrome => Some(UNCOMPRESSED_CHANNEL_MONO),
            UncompressedChannelRole::Luma => Some(UNCOMPRESSED_CHANNEL_LUMA),
            UncompressedChannelRole::ChromaBlue => Some(UNCOMPRESSED_CHANNEL_CB),
            UncompressedChannelRole::ChromaRed => Some(UNCOMPRESSED_CHANNEL_CR),
            UncompressedChannelRole::Red => Some(UNCOMPRESSED_CHANNEL_RED),
            UncompressedChannelRole::Green => Some(UNCOMPRESSED_CHANNEL_GREEN),
            UncompressedChannelRole::Blue => Some(UNCOMPRESSED_CHANNEL_BLUE),
            UncompressedChannelRole::Alpha => Some(UNCOMPRESSED_CHANNEL_ALPHA),
            UncompressedChannelRole::Padded => None,
        }
    }

    /// The name of the role's channel in messages.
    pub fn component_name(self) -> (name: &'static str)
        ensures
            name == self.label(),
    {
        match self.channel_index() {
            Some(index) => uncompressed_channel_name(index),
            None => "padded",
        }
    }

    /// The role's own name in messages.
    pub open spec fn variant_name(self) -> &'static str {
        match self {
            UncompressedChannelRole::Monochrome => "Monochrome",
            UncompressedChannelRole::Luma => "Luma",
            UncompressedChannelRole::ChromaBlue => "ChromaBlue",
            UncompressedChannelRole::ChromaRed => "ChromaRed",
            UncompressedChannelRole::Red => "Red",
            UncompressedChannelRole::Green => "Green",
            UncompressedChannelRole::Blue => "Blue",
            UncompressedChannelRole::Alpha => "Alpha",
            UncompressedChannelRole::Padded => "Padded",
        }
    }

    /// The role's own name in messages.
    pub fn name(self) -> (name: &'static str)
        ensures
            name == self.variant_name(),
    {
        match self {
            UncompressedChannelRole::Monochrome => "Monochrome",
            UncompressedChannelRole::Luma => "Luma",
            UncompressedChannelRole::ChromaBlue => "ChromaBlue",
            UncompressedChannelRole::ChromaRed => "ChromaRed",
            UncompressedChannelRole::Red => "Red",
            UncompressedChannelRole::Green => "Green",
            UncompressedChannelRole::Blue => "Blue",
            UncompressedChannelRole::Alpha => "Alpha",
            UncompressedChannelRole::Padded => "Padded",
        }
    }
}

/// How the samples of one component stand in the stream.
#[derive(Clone, Copy, Debug, PartialEq, Eq, Structural)]
pub struct UncompressedComponentDecodeSpec {
    pub role: UncompressedChannelRole,
    pub bit_depth: u8,
    pub component_align_size: u8,
}

/// The role of each component type of a `cmpd` property.
pub open spec fn role_of_type(component_type: u16) -> Result<
    UncompressedChannelRole,
    DecodeUncompressedError,
> {
    if component_type == 0 {
        Ok(UncompressedChannelRole::Monochrome)
    } else if component_type == 1 {
        Ok(UncompressedChannelRole::Luma)
    } else if component_type == 2 {
        Ok(UncompressedChannelRole::ChromaBlue)
    } else if component_type == 3 {
        Ok(UncompressedChannelRole::ChromaRed)
    } else if component_type == 4 {
        Ok(UncompressedChannelRole::Red)
    } else if component_type == 5 {
        Ok(UncompressedChannelRole::Green)
    } else if component_type == 6 {
        Ok(UncompressedChannelRole::Blue)
    } else if component_type == 7 {
        Ok(UncompressedChannelRole::Alpha)
    } else if component_type == 12 {
        Ok(UncompressedChannelRole::Padded)
    } else {
        Err(
            unsupported(
                Detail::One(
                    "unsupported uncompressed component_type {}; baseline currently supports monochrome/Y/Cb/Cr/R/G/B/alpha/padded",
                    Arg::Num(component_type as i128),
                ),
            ),
        )
    }
}

/// The role of each component type of a `cmpd` property.
pub fn uncompressed_role_from_component_type(component_type: u16) -> (role: Result<
    UncompressedChannelRole,
    DecodeUncompressedError,
>)
    ensures
        role == role_of_type(component_type),
{
    match component_type {
        0 => Ok(UncompressedChannelRole::Monochrome),
        1 => Ok(UncompressedChannelRole::Luma),
        2 => Ok(UncompressedChannelRole::ChromaBlue),
        3 => Ok(UncompressedChannelRole::ChromaRed),
        4 => Ok(UncompressedChannelRole::Red),
        5 => Ok(UncompressedChannelRole::Green),
        6 => Ok(UncompressedChannelRole::Blue),
        7 => Ok(UncompressedChannelRole::Alpha),
        12 => Ok(UncompressedChannelRole::Padded),
        _ => unsupported_feature(
            Detail::One(
                "unsupported uncompressed component_type {}; baseline currently supports monochrome/Y/Cb/Cr/R/G/B/alpha/padded",
                Arg::Num(component_type as i128),
            ),
        ),
    }
}

/// The components of an item and how they follow each other.
pub struct ComponentLayout {
    pub specs: Seq<UncompressedComponentDecodeSpec>,
    pub sampling_type: u8,
    pub interleave_type: u8,
}

/// An eight-bit component without alignment.
pub open spec fn byte_component(role: UncompressedChannelRole) -> UncompressedComponentDecodeSpec {
    UncompressedComponentDecodeSpec { role, bit_depth: 8, component_align_size: 0 }
}

/// The layout that a version 1 profile stands for.
pub open spec fn profile_layout(profile: FourCc) -> Result<
    ComponentLayout,
    DecodeUncompressedError,
> {
    let specs = if spells(profile, 'r' as u8, 'g' as u8, 'b' as u8, '3' as u8) {
        seq![
            byte_component(UncompressedChannelRole::Red),
            byte_component(UncompressedChannelRole::Green),
            byte_component(UncompressedChannelRole::Blue),
        ]
    } else if spells(profile, 'r' as u8, 'g' as u8, 'b' as u8, 'a' as u8) {
        seq![
            byte_component(UncompressedChannelRole::Red),
            byte_component(UncompressedChannelRole::Green),
            byte_component(UncompressedChannelRole::Blue),
            byte_component(UncompressedChannelRole::Alpha),
        ]
    } else if spells(profile, 'a' as u8, 'b' as u8, 'g' as u8, 'r' as u8) {
        seq![
            byte_component(UncompressedChannelRole::Alpha),
            byte_component(UncompressedChannelRole::Blue),
            byte_component(UncompressedChannelRole::Green),
            byte_component(UncompressedChannelRole::Red),
        ]
    } else {
        Seq::empty()
    };
    if specs.len() == 0 {
        Err(
            unsupported(
                Detail::One(
                    "unsupported uncC v1 profile {} for baseline uncompressed decode",
                    Arg::FourCc(profile),
                ),
            ),
        )
    } else {
        Ok(
            ComponentLayout {
                specs,
                sampling_type: UNCOMPRESSED_SAMPLING_NO_SUBSAMPLING,
                interleave_type: UNCOMPRESSED_INTERLEAVE_PIXEL,
            },
        )
    }
}

/// What one component of the `uncC` property is, given the component types.
pub open spec fn mapped_component(
    component: UncompressedComponent,
    types: Seq<u16>,
) -> Result<UncompressedComponentDecodeSpec, DecodeUncompressedError> {
    if component.component_index >= types.len() {
        Err(
            invalid(
                Detail::Two(
                    "uncC component index {} exceeds cmpd component count {}",
                    Arg::Num(component.component_index as i128),
                    Arg::Num(types.len() as i128),
                ),
            ),
        )
    } else if component.component_format != UNCOMPRESSED_COMPONENT_FORMAT_UNSIGNED {
        Err(
            unsupported(
                Detail::One(
                    "unsupported uncompressed component_format {} (only unsigned integer is supported in this baseline)",
                    Arg::Num(component.component_format as i128),
                ),
            ),
        )
    } else if component.component_bit_depth == 0 || component.component_bit_depth > 16 {
        Err(
            unsupported(
                Detail::One(
                    "unsupported uncompressed component bit depth {} (expected 1..=16)",
                    Arg::Num(component.component_bit_depth as i128),
                ),
            ),
        )
    } else {
        match role_of_type(types[component.component_index as int]) {
            Err(e) => Err(e),
            Ok(role) => Ok(
                UncompressedComponentDecodeSpec {
                    role,
                    bit_depth: component.component_bit_depth as u8,
                    component_align_size: component.component_align_size,
                },
            ),
        }
    }
}

/// The first `count` components, or the error of the first that has one.
pub open spec fn mapped_components(
    components: Seq<UncompressedComponent>,
    types: Seq<u16>,
    count: nat,
) -> Result<Seq<UncompressedComponentDecodeSpec>, DecodeUncompressedError>
    decreases count,
{
    if count == 0 {
        Ok(Seq::empty())
    } else {
        match mapped_components(components, types, (count - 1) as nat) {
            Err(e) => Err(e),
            Ok(specs) => match mapped_component(components[count - 1], types) {
                Err(e) => Err(e),
                Ok(spec) => Ok(specs.push(spec)),
            },
        }
    }
}

/// The component layout of an item.
pub open spec fn component_layout(properties: &UncompressedPrimaryItemProperties) -> Result<
    ComponentLayout,
    DecodeUncompressedError,
> {
    if properties.unc_c.version == 1 {
        profile_layout(properties.unc_c.profile)
    } else {
        match properties.component_types {
            None => Err(
                invalid(
                    Detail::Two(
                        "primary item_ID {} is missing required cmpd mapping for uncC version {}",
                        Arg::Num(properties.item_id as i128),
                        Arg::Num(properties.unc_c.version as i128),
                    ),
                ),
            ),
            Some(types) => match mapped_components(
                properties.unc_c.components@,
                types@,
                properties.unc_c.components@.len(),
            ) {
                Err(e) => Err(e),
                Ok(specs) => Ok(
                    ComponentLayout {
                        specs,
                        sampling_type: properties.unc_c.sampling_type,
                        interleave_type: properties.unc_c.interleave_type,
                    },
                ),
            },
        }
    }
}

/// An error among the first components is the error of all of them.
proof fn lemma_mapped_error(
    components: Seq<UncompressedComponent>,
    types: Seq<u16>,
    few: nat,
    many: nat,
)
    requires
        few <= many,
        mapped_components(components, types, few) is Err,
    ensures
        mapped_components(components, types, many) == mapped_components(components, types, few),
    decreases many - few,
{
    if few < many {
        lemma_mapped_error(components, types, few, (many - 1) as nat);
    }
}

/// Every bit depth of a component layout lies in `1..=16`.
pub proof fn lemma_layout_bit_depths(properties: &UncompressedPrimaryItemProperties)
    ensures
        component_layout(properties) matches Ok(layout) ==> forall|i: int|
            0 <= i < layout.specs.len() ==> 1 <= (#[trigger] layout.specs[i]).bit_depth <= 16,
{
    if properties.unc_c.version != 1 && properties.component_types is Some {
        lemma_mapped_bit_depths(
            properties.unc_c.components@,
            properties.component_types->0@,
            properties.unc_c.components@.len(),
        );
    }
}

proof fn lemma_mapped_bit_depths(
    components: Seq<UncompressedComponent>,
    types: Seq<u16>,
    count: nat,
)
    ensures
        mapped_components(components, types, count) matches Ok(specs) ==> forall|i: int|
            0 <= i < specs.len() ==> 1 <= (#[trigger] specs[i]).bit_depth <= 16,
    decreases count,
{
    if count > 0 {
        lemma_mapped_bit_depths(components, types, (count - 1) as nat);
    }
}

/// Expands the `uncC` component layout (a version 1 profile, or the `cmpd`
/// mapping) into the component list and the effective sampling and interleave
/// types.
pub fn uncompressed_component_layout_from_properties(
    properties: &UncompressedPrimaryItemProperties,
) -> (layout: Result<
    (Vec<UncompressedComponentDecodeSpec>, u8, u8),
    DecodeUncompressedError,
>)
    ensures
        match component_layout(properties) {
            Ok(expected) => {
                &&& layout is Ok
                &&& layout->Ok_0.0@ == expected.specs
                &&& layout->Ok_0.1 == expected.sampling_type
                &&& layout->Ok_0.2 == expected.interleave_type
            },
            Err(e) => layout == Err::<
                (Vec<UncompressedComponentDecodeSpec>, u8, u8),
                DecodeUncompressedError,
            >(e),
        },
{
    let mut component_specs: Vec<UncompressedComponentDecodeSpec> = Vec::new();
    if properties.unc_c.version == 1 {
        let profile: FourCc = properties.unc_c.profile;
        let red: UncompressedComponentDecodeSpec = UncompressedComponentDecodeSpec {
            role: UncompressedChannelRole::Red,
            bit_depth: 8,
            component_align_size: 0,
        };
        let green: UncompressedComponentDecodeSpec = UncompressedComponentDecodeSpec {
            role: UncompressedChannelRole::Green,
            bit_depth: 8,
            component_align_size: 0,
        };
        let blue: UncompressedComponentDecodeSpec = UncompressedComponentDecodeSpec {
            role: UncompressedChannelRole::Blue,
            bit_depth: 8,
            component_align_size: 0,
        };
        let alpha: UncompressedComponentDecodeSpec = UncompressedComponentDecodeSpec {
            role: UncompressedChannelRole::Alpha,
            bit_depth: 8,
            component_align_size: 0,
        };
        if four_cc_is(profile, 'r' as u8, 'g' as u8, 'b' as u8, '3' as u8) {
            component_specs.push(red);
            component_specs.push(green);
            component_specs.push(blue);
            assert(component_specs@ =~= profile_layout(profile)->Ok_0.specs);
        } else if four_cc_is(profile, 'r' as u8, 'g' as u8, 'b' as u8, 'a' as u8) {
            component_specs.push(red);
            component_specs.push(green);
            component_specs.push(blue);
            component_specs.push(alpha);
            assert(component_specs@ =~= profile_layout(profile)->Ok_0.specs);
        } else if four_cc_is(profile, 'a' as u8, 'b' as u8, 'g' as u8, 'r' as u8) {
            component_specs.push(alpha);
            component_specs.push(blue);
            component_specs.push(green);
            component_specs.push(red);
            assert(component_specs@ =~= profile_layout(profile)->Ok_0.specs);
        } else {
            return unsupported_feature(
                Detail::One(
                    "unsupported uncC v1 profile {} for baseline uncompressed decode",
                    Arg::FourCc(profile),
                ),
            );
        }
        return Ok(
            (component_specs, UNCOMPRESSED_SAMPLING_NO_SUBSAMPLING, UNCOMPRESSED_INTERLEAVE_PIXEL),
        );
    }
    let component_types: &Vec<u16> = match &properties.component_types {
        Some(component_types) => component_types,
        None => {
            return invalid_input(
                Detail::Two(
                    "primary item_ID {} is missing required cmpd mapping for uncC version {}",
                    Arg::Num(properties.item_id as i128),
                    Arg::Num(properties.unc_c.version as i128),
                ),
            );
        },
    };
    let ghost components = properties.unc_c.components@;
    let mut index: usize = 0;
    while index < properties.unc_c.components.len()
        invariant
            index <= properties.unc_c.components@.len(),
            components == properties.unc_c.components@,
            properties.unc_c.version != 1,
            properties.component_types == Some(*component_types),
            mapped_components(components, component_types@, index as nat) == Ok::<
                Seq<UncompressedComponentDecodeSpec>,
                DecodeUncompressedError,
            >(component_specs@),
        decreases properties.unc_c.components@.len() - index,
    {
        let component: UncompressedComponent = properties.unc_c.components[index];
        proof {
            if mapped_component(component, component_types@) is Err {
                lemma_mapped_error(components, component_types@, (index + 1) as nat, components.len());
            }
        }
        let component_index: usize = component.component_index as usize;
        if component_index >= component_types.len() {
            return invalid_input(
                Detail::Two(
                    "uncC component index {} exceeds cmpd component count {}",
                    Arg::Num(component.component_index as i128),
                    Arg::Num(component_types.len() as i128),
                ),
            );
        }
        if component.component_format != UNCOMPRESSED_COMPONENT_FORMAT_UNSIGNED {
            return unsupported_feature(
                Detail::One(
                    "unsupported uncompressed component_format {} (only unsigned integer is supported in this baseline)",
                    Arg::Num(component.component_format as i128),
                ),
            );
        }
        if component.component_bit_depth == 0 || component.component_bit_depth > 16 {
            return unsupported_feature(
                Detail::One(
                    "unsupported uncompressed component bit depth {} (expected 1..=16)",
                    Arg::Num(component.component_bit_depth as i128),
                ),
            );
        }
        let role: UncompressedChannelRole = match uncompressed_role_from_component_type(
            component_types[component_index],
        ) {
            Ok(role) => role,
            Err(e) => {
                return Err(e);
            },
        };
        component_specs.push(
            UncompressedComponentDecodeSpec {
                role,
                bit_depth: component.component_bit_depth as u8,
                component_align_size: component.component_align_size,
            },
        );
        index = index + 1;
    }
    Ok((component_specs, properties.unc_c.sampling_type, properties.unc_c.interleave_type))
}

} // verus!
