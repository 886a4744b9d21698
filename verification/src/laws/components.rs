//! Which component becomes which colour.
#[allow(unused_imports)]
use crate::errors::DecodeUncompressedError;
#[allow(unused_imports)]
use crate::fourcc::FourCc;
#[allow(unused_imports)]
use crate::uncompressed::channel_map::{
    first_bad_depth, greatest_depth, least_depth, output_depth, ChannelMap,
};
#[allow(unused_imports)]
use crate::uncompressed::channels::{decoded_frame, ChannelImage};
#[allow(unused_imports)]
use crate::uncompressed::components::{
    mapped_component, mapped_components, profile_layout, role_of_type, UncompressedComponent,
    UncompressedComponentDecodeSpec, UncompressedPrimaryItemProperties,
};
#[allow(unused_imports)]
use crate::uncompressed::frame::{channel_set_error, tiling, FramePlan};
#[allow(unused_imports)]
use crate::uncompressed::interleave::subsampling;
#[allow(unused_imports)]
use crate::ycbcr::{converts, PreparedYcbcrToRgb, PreparedYcbcrTransform};
use vstd::arithmetic::power2::pow2;
use vstd::prelude::*;

verus! {

/// The component types 0 to 7 (monochrome, luma, Cb, Cr, red, green, blue and
/// alpha) fill the channels of the same numbers, type 12 is padding and fills
/// none, and no other type is known. The two chroma types are 2 and 3.
pub proof fn lemma_channel_of_type(component_type: u16)
    ensures
        component_type <= 7 ==> (role_of_type(component_type) matches Ok(role) && role.channel()
            == Some(component_type as usize)),
        component_type == 12 ==> (role_of_type(component_type) matches Ok(role) && role.channel()
            is None),
        component_type > 7 && component_type != 12 ==> role_of_type(component_type) is Err,
        role_of_type(component_type) matches Ok(role) ==> (role.is_chroma() <==> component_type == 2
            || component_type == 3),
{
}

/// A component has the type at its index of the list of types, and keeps its
/// bit depth and its alignment. It is refused exactly where the list has no
/// such type, the type is not known, the samples are not unsigned or their
/// depth is none of 1 to 16.
pub proof fn lemma_component(component: UncompressedComponent, types: Seq<u16>)
    ensures
        match mapped_component(component, types) {
            Ok(spec) => {
                let component_type = types[component.component_index as int];
                &&& component.component_index < types.len()
                &&& component.component_format == 0
                &&& 1 <= component.component_bit_depth <= 16
                &&& component_type <= 7 || component_type == 12
                &&& spec.bit_depth == component.component_bit_depth
                &&& spec.component_align_size == component.component_align_size
                &&& spec.role.channel() == if component_type <= 7 {
                    Some(component_type as usize)
                } else {
                    None
                }
            },
            Err(_) => {
                ||| component.component_index >= types.len()
                ||| component.component_format != 0
                ||| component.component_bit_depth == 0
                ||| component.component_bit_depth > 16
                ||| {
                    let component_type = types[component.component_index as int];
                    component_type > 7 && component_type != 12
                }
            },
        },
{
}

/// The components of an item stand in the order of the property, one for one.
pub proof fn lemma_components_in_order(
    components: Seq<UncompressedComponent>,
    types: Seq<u16>,
    count: nat,
    k: int,
)
    requires
        count <= components.len(),
        0 <= k < count,
    ensures
        mapped_components(components, types, count) matches Ok(specs) ==> specs.len() == count
            && mapped_component(components[k], types) == Ok::<
            UncompressedComponentDecodeSpec,
            DecodeUncompressedError,
        >(specs[k]),
        (forall|i: int|
            0 <= i < count ==> mapped_component(#[trigger] components[i], types) is Ok)
            ==> mapped_components(components, types, count) is Ok,
    decreases count,
{
    reveal_with_fuel(mapped_components, 2);
    if count > 1 {
        if k < count - 1 {
            lemma_components_in_order(components, types, (count - 1) as nat, k);
        } else {
            lemma_components_in_order(components, types, (count - 1) as nat, 0);
        }
    }
}

/// A profile names its channels by their letters, in the order of the samples
/// of a pixel: `r` is channel 4, `g` 5, `b` 6 and `a` 7. Every sample has
/// eight bits, none is shared, and the samples of a pixel stand together. The
/// profiles are `rgb3`, `rgba` and `abgr`.
pub proof fn lemma_profile_letters(profile: FourCc)
    ensures
        match profile_layout(profile) {
            Ok(layout) => {
                &&& layout.sampling_type == 0
                &&& layout.interleave_type == 1
                &&& layout.specs.len() == if profile@[3] == '3' as u8 {
                    3int
                } else {
                    4int
                }
                &&& forall|k: int| #![trigger layout.specs[k]]
                    0 <= k < layout.specs.len() ==> {
                        let spec = layout.specs[k];
                        &&& spec.bit_depth == 8
                        &&& spec.component_align_size == 0
                        &&& profile@[k] == 'r' as u8 ==> spec.role.channel() == Some(4usize)
                        &&& profile@[k] == 'g' as u8 ==> spec.role.channel() == Some(5usize)
                        &&& profile@[k] == 'b' as u8 ==> spec.role.channel() == Some(6usize)
                        &&& profile@[k] == 'a' as u8 ==> spec.role.channel() == Some(7usize)
                    }
            },
            Err(_) => true,
        },
        profile_layout(profile) is Ok <==> profile@ == seq!['r' as u8, 'g' as u8, 'b' as u8, '3' as u8]
            || profile@ == seq!['r' as u8, 'g' as u8, 'b' as u8, 'a' as u8] || profile@ == seq![
            'a' as u8,
            'b' as u8,
            'g' as u8,
            'r' as u8,
        ],
{
    let p = profile@;
    if profile_layout(profile) is Ok {
        if p[0] == 'r' as u8 && p[3] == '3' as u8 {
            assert(p =~= seq!['r' as u8, 'g' as u8, 'b' as u8, '3' as u8]);
        } else if p[0] == 'r' as u8 {
            assert(p =~= seq!['r' as u8, 'g' as u8, 'b' as u8, 'a' as u8]);
        } else {
            assert(p =~= seq!['a' as u8, 'b' as u8, 'g' as u8, 'r' as u8]);
        }
    }
}

/// Two columns share a sample of types 2 and 3 where the sampling is 1 or 2,
/// and two rows do where it is 2. Every other component has a sample for
/// every pixel.
pub proof fn lemma_shared_samples(component_type: u16, sampling_type: u8)
    requires
        component_type <= 7,
        sampling_type <= 2,
    ensures
        subsampling(role_of_type(component_type)->Ok_0, sampling_type) matches Ok(shared)
            && shared.0 == (if (component_type == 2 || component_type == 3) && sampling_type >= 1 {
            2int
        } else {
            1int
        }) && shared.1 == (if (component_type == 2 || component_type == 3) && sampling_type == 2 {
            2int
        } else {
            1int
        }),
{
}

/// The channels of a frame make up colours in one way: a monochrome channel
/// alone, red, green and blue together, or luma, Cb and Cr together; each with
/// or without alpha.
pub proof fn lemma_channel_sets(map: ChannelMap)
    requires
        map.present.len() == 8,
    ensures
        ({
            let p = map.present;
            channel_set_error(map) is None <==> {
                ||| p[0] && !p[1] && !p[2] && !p[3] && !p[4] && !p[5] && !p[6]
                ||| !p[0] && p[1] && p[2] && p[3] && !p[4] && !p[5] && !p[6]
                ||| !p[0] && !p[1] && !p[2] && !p[3] && p[4] && p[5] && p[6]
            }
        }),
{
}

/// A pixel takes its colour from the channels by their numbers. Where the
/// channels have the bit depth of the image: a monochrome sample is red, green
/// and blue; the samples of channels 1, 2 and 3 are converted, as luma, Cb and
/// Cr; those of channels 4, 5 and 6 are red, green and blue. The sample of
/// channel 7 is the opacity, and without that channel the default is.
pub proof fn lemma_pixel_of_channels<
    F: Fn(PreparedYcbcrToRgb, i32, i32, i32) -> (u16, u16, u16),
>(image: ChannelImage, kernel: F, pixel: int, rgba: Seq<u16>)
    requires
        forall|c: int| 0 <= c < 8 ==> #[trigger] image.depths[c] == image.output_bit_depth,
        image.pixel_is(kernel, pixel, rgba),
    ensures
        rgba.len() == 4,
        image.monochrome ==> rgba[0] == image.channels[0]->0[pixel] && rgba[1]
            == image.channels[0]->0[pixel] && rgba[2] == image.channels[0]->0[pixel],
        !image.monochrome && image.full_ycbcr ==> image.converter is Some && converts(
            image.converter->0,
            kernel,
            image.channels[1]->0[pixel] as i32,
            image.channels[2]->0[pixel] as i32,
            image.channels[3]->0[pixel] as i32,
            (rgba[0], rgba[1], rgba[2]),
        ),
        !image.monochrome && !image.full_ycbcr ==> rgba[0] == image.channels[4]->0[pixel] && rgba[1]
            == image.channels[5]->0[pixel] && rgba[2] == image.channels[6]->0[pixel],
        image.present[7] ==> rgba[3] == image.channels[7]->0[pixel],
        !image.present[7] ==> rgba[3] == image.alpha_default,
{
    assert(image.depths[0] == image.output_bit_depth);
    assert(image.depths[1] == image.output_bit_depth);
    assert(image.depths[2] == image.output_bit_depth);
    assert(image.depths[3] == image.output_bit_depth);
    assert(image.depths[4] == image.output_bit_depth);
    assert(image.depths[5] == image.output_bit_depth);
    assert(image.depths[6] == image.output_bit_depth);
    assert(image.depths[7] == image.output_bit_depth);
}

/// A decoded frame has the size of the item and the channels of its
/// components. It is monochrome where channel 0 is there, and luma and chroma
/// where channels 1, 2 and 3 are; they are then converted as the colour
/// properties say: full range unless an nclx profile clears the flag. Without
/// an alpha channel every pixel is opaque.
pub proof fn lemma_frame_of_item(
    properties: &UncompressedPrimaryItemProperties,
    plan: FramePlan,
    payload: Seq<u8>,
)
    ensures
        match decoded_frame(properties, plan, payload) {
            Err(_) => true,
            Ok(image) => {
                &&& image.width == properties.width
                &&& image.height == properties.height
                &&& image.present == plan.map.present
                &&& image.depths == plan.map.depths
                &&& image.monochrome <==> plan.map.present[0]
                &&& image.full_ycbcr <==> plan.map.present[1] && plan.map.present[2]
                    && plan.map.present[3]
                &&& image.converter is Some <==> image.full_ycbcr
                &&& image.converter matches Some(converter) ==> converter.bit_depth
                    == image.output_bit_depth && match converter.transform {
                    PreparedYcbcrTransform::IdentityLimited { .. } => {
                        properties.colr.nclx is Some && !properties.colr.nclx->0.full_range_flag
                    },
                    PreparedYcbcrTransform::MatrixLimited { .. } => {
                        properties.colr.nclx is Some && !properties.colr.nclx->0.full_range_flag
                    },
                    _ => properties.colr.nclx is None || properties.colr.nclx->0.is_undefined
                        || properties.colr.nclx->0.full_range_flag,
                }
                &&& 1 <= image.output_bit_depth <= 16 ==> image.alpha_default == pow2(
                    image.output_bit_depth as nat,
                ) - 1
            },
        },
{
    vstd::arithmetic::power2::lemma2_to64();
    if let Ok(image) = decoded_frame(properties, plan, payload) {
        if image.output_bit_depth < 16 {
            vstd::arithmetic::power2::lemma_pow2_strictly_increases(
                image.output_bit_depth as nat,
                16,
            );
        }
    }
}

/// The bit depth of the output is that of the channels where they agree; where
/// they do not, it is 8 if that is enough for all of them, and 16 if not.
pub proof fn lemma_depth_of_output(present: Seq<bool>, depths: Seq<u8>)
    requires
        present.len() == 8,
        depths.len() == 8,
        forall|c: int| 0 <= c < 8 && present[c] ==> 1 <= #[trigger] depths[c] <= 16,
        exists|c: int| 0 <= c < 8 && #[trigger] present[c],
    ensures
        output_depth(present, depths) matches Ok(depth) && (forall|c: int|
            0 <= c < 8 && present[c] ==> #[trigger] depths[c] <= depth) && ((forall|c: int, d: int|
            0 <= c < 8 && 0 <= d < 8 && present[c] && present[d] ==> #[trigger] depths[c]
                == #[trigger] depths[d]) ==> forall|c: int|
            0 <= c < 8 && present[c] ==> #[trigger] depths[c] == depth) && ((exists|c: int, d: int|
            0 <= c < 8 && 0 <= d < 8 && present[c] && present[d] && #[trigger] depths[c]
                != #[trigger] depths[d]) ==> (depth == 8 || depth == 16) && (depth == 16 ==> exists|
            c: int,
        |
            0 <= c < 8 && present[c] && #[trigger] depths[c] > 8)),
{
    reveal_with_fuel(greatest_depth, 9);
    reveal_with_fuel(least_depth, 9);
    reveal_with_fuel(first_bad_depth, 9);
}

/// The tiles of a frame are equal and make up the image: so many columns of
/// them are as wide, and so many rows as high, as the image. The tile at a row
/// and a column begins that many tiles down and right.
pub proof fn lemma_tiles_make_up_image(
    properties: &UncompressedPrimaryItemProperties,
    row: int,
    column: int,
)
    requires
        properties.unc_c.num_tile_cols > 0,
        properties.unc_c.num_tile_rows > 0,
        0 <= row < properties.unc_c.num_tile_rows,
        0 <= column < properties.unc_c.num_tile_cols,
    ensures
        tiling(properties) matches Ok(tile) ==> {
            let region = tile.region(row, column);
            &&& tile.tile_cols == properties.unc_c.num_tile_cols
            &&& tile.tile_rows == properties.unc_c.num_tile_rows
            &&& tile.tile_cols * tile.tile_width == properties.width
            &&& tile.tile_rows * tile.tile_height == properties.height
            &&& tile.image_width == properties.width
            &&& region.width == tile.tile_width
            &&& region.height == tile.tile_height
            &&& region.image_width == properties.width
            &&& region.origin_x == column * tile.tile_width
            &&& region.origin_y == row * tile.tile_height
            &&& region.origin_x + region.width <= properties.width
            &&& region.origin_y + region.height <= properties.height
        },
        properties.width > 0 && properties.height > 0 && properties.unc_c.num_tile_cols == 1
            && properties.unc_c.num_tile_rows == 1 && properties.width * properties.height
            <= usize::MAX ==> tiling(properties) is Ok,
{
    let width = properties.width as int;
    let height = properties.height as int;
    let columns = properties.unc_c.num_tile_cols as int;
    let rows = properties.unc_c.num_tile_rows as int;
    vstd::arithmetic::div_mod::lemma_fundamental_div_mod(width, columns);
    vstd::arithmetic::div_mod::lemma_fundamental_div_mod(height, rows);
    if tiling(properties) is Ok {
        lemma_tile_within(width / columns, columns, column, width);
        lemma_tile_within(height / rows, rows, row, height);
    }
}

/// One of `count` tiles lies within their sum.
proof fn lemma_tile_within(tile: int, count: int, index: int, size: int)
    requires
        size == count * tile,
        size >= 0,
        count > 0,
        0 <= index < count,
    ensures
        0 <= index * tile,
        index * tile + tile <= size,
        0 <= tile <= size,
{
    assert(0 <= tile) by (nonlinear_arith)
        requires
            size == count * tile,
            size >= 0,
            count > 0,
    ;
    assert(0 <= index * tile && index * tile + tile <= size && tile <= size) by (nonlinear_arith)
        requires
            size == count * tile,
            0 <= tile,
            0 <= index < count,
    ;
}

} // verus!
