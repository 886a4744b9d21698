//! Which component fills which channel, and what the arithmetic of a conversion
//! rounds to.
#[allow(unused_imports)]
use crate::errors::DecodeHeicError;
#[allow(unused_imports)]
use crate::transform::aperture::{
    crop_bounds, CleanApertureCropBounds, ImageCleanApertureProperty,
};
#[allow(unused_imports)]
use crate::transform::mapping::PrimaryItemTransformProperty;
#[allow(unused_imports)]
use crate::types::{HeicPixelLayout, HeicView};
#[allow(unused_imports)]
use crate::uncompressed::channel_map::ChannelMap;
#[allow(unused_imports)]
use crate::uncompressed::components::UncompressedComponentDecodeSpec;
#[allow(unused_imports)]
use crate::ycbcr::plus_256ths;
#[allow(unused_imports)]
use crate::yuv::crop::{crop_outcome, leading_crops};
use vstd::prelude::*;

verus! {

/// A component fills the channel of its role, which then has its bit depth and
/// is counted once; no other channel changes, and padding fills none. A channel
/// that is filled already is refused, but for a second luma sample of a group,
/// which has the bit depth of the first and is counted too.
pub proof fn lemma_channel_filled(
    map: ChannelMap,
    spec: UncompressedComponentDecodeSpec,
    order: u8,
    c: usize,
    d: int,
)
    requires
        map.present.len() == 8,
        map.depths.len() == 8,
        map.counts.len() == 8,
        spec.role.channel() == Some(c),
        c < 8,
        0 <= d < 8,
    ensures
        !map.present[c as int] ==> map.with(spec, order) is Ok,
        map.with(spec, order) matches Ok(more) ==> {
            &&& more.present[c as int]
            &&& more.depths[c as int] == spec.bit_depth
            &&& !map.present[c as int] ==> more.counts[c as int] == 1
            &&& map.present[c as int] ==> more.counts[c as int] == map.counts[c as int] + 1 && c
                == 1 && order == 5 && map.depths[c as int] == spec.bit_depth
            &&& d != c ==> more.present[d] == map.present[d] && more.depths[d] == map.depths[d]
                && more.counts[d] == map.counts[d]
        },
        map.present[c as int] && c == 1 && order == 5 && map.depths[c as int] == spec.bit_depth
            && map.counts[c as int] < 255 ==> map.with(spec, order) is Ok,
{
}

/// A part in 256ths is rounded to the nearest whole, and a half up.
pub proof fn lemma_nearest_whole(y: int, part: int)
    ensures
        -128 < 256 * (plus_256ths(y, part) - y) - part <= 128,
{
}

/// A clean aperture in front crops the planes where it begins at a chroma
/// sample: always in 4:4:4, at an even column in 4:2:2, at an even column and
/// row in 4:2:0. Else the planes stay, and the pixels are cropped later.
pub proof fn lemma_crop_in_front(
    decoded: HeicView,
    clap: ImageCleanApertureProperty,
    crop: CleanApertureCropBounds,
)
    requires
        crop_bounds(decoded.width, decoded.height, clap) == Ok::<
            CleanApertureCropBounds,
            crate::errors::TransformGuardError,
        >(crop),
    ensures
        ({
            let transforms = seq![PrimaryItemTransformProperty::CleanAperture(clap)];
            let at_sample = match decoded.layout {
                HeicPixelLayout::Yuv400 => true,
                HeicPixelLayout::Yuv444 => true,
                HeicPixelLayout::Yuv422 => crop.left % 2 == 0,
                HeicPixelLayout::Yuv420 => crop.left % 2 == 0 && crop.top % 2 == 0,
            };
            &&& !at_sample ==> leading_crops(decoded, transforms, 0) == Ok::<
                (HeicView, nat),
                DecodeHeicError,
            >((decoded, 0))
            &&& at_sample ==> (match crop_outcome(decoded, clap) {
                Ok(cropped) => leading_crops(decoded, transforms, 0) == Ok::<
                    (HeicView, nat),
                    DecodeHeicError,
                >((cropped, 1)),
                Err(e) => leading_crops(decoded, transforms, 0) == Err::<
                    (HeicView, nat),
                    DecodeHeicError,
                >(e),
            })
        }),
{
    reveal_with_fuel(leading_crops, 2);
    assert(crop.top as int % 1 == 0 && crop.left as int % 1 == 0);
}

} // verus!
