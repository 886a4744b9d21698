//! The opacity of an image, from the item that belongs to it.
use crate::avif::av1_stream;
#[allow(unused_imports)]
use crate::avif::stream_decoded;
use crate::errors::DecodeAvifError;
#[allow(unused_imports)]
use crate::errors::DecodeHeicError;
use crate::hevc::frame::{decode_hevc_stream_to_image, HeicFrame};
#[allow(unused_imports)]
use crate::hevc::coded::frame_decoded;
#[allow(unused_imports)]
use crate::hevc::frame::{frame_outcome, no_frame_error};
#[allow(unused_imports)]
use crate::hevc::stream::assembled;
use crate::hevc::stream::{
    assemble_heic_hevc_stream_from_components, HevcDecoderConfigurationBox,
};
use crate::types::{
    AvifAuxiliaryAlphaPlane, AvifPlaneSamples, DecodedAvifImage, DecodedHeicImage,
    HeicAuxiliaryAlphaPlane,
};
#[allow(unused_imports)]
use crate::types::HeicView;
use crate::yuv::avif::plane_sample_count;
use crate::yuv::heic::heic_sample_count;
use vstd::prelude::*;

verus! {

/// Whether the opacity is the luma of an image; there is none where the luma
/// does not fit the size of the image.
pub open spec fn is_luma_of(image: HeicView, plane: Option<HeicAuxiliaryAlphaPlane>) -> bool {
    if image.width * image.height > usize::MAX || image.y_plane.samples.len() != image.width
        * image.height {
        plane is None
    } else {
        &&& plane matches Some(alpha)
        &&& alpha.width == image.width
        &&& alpha.height == image.height
        &&& alpha.bit_depth == image.bit_depth_luma
        &&& alpha.samples@ == image.y_plane.samples
    }
}

/// The opacity that an image decodes to.
pub fn heic_alpha_from_decoded(decoded: DecodedHeicImage) -> (plane: Option<
    HeicAuxiliaryAlphaPlane,
>)
    ensures
        is_luma_of(decoded@, plane),
{
    let expected: usize = match heic_sample_count(decoded.width, decoded.height, "alpha") {
        Ok(expected) => expected,
        Err(_) => {
            return None;
        },
    };
    if decoded.y_plane.samples.len() != expected {
        return None;
    }
    Some(
        HeicAuxiliaryAlphaPlane {
            width: decoded.width,
            height: decoded.height,
            bit_depth: decoded.bit_depth_luma,
            samples: decoded.y_plane.samples,
        },
    )
}

/// Decodes an item that may be the opacity of another, by `decode_frame`.
pub fn decode_auxiliary_alpha_item_candidate<B: Fn(&[u8]) -> Result<HeicFrame, String>>(
    hvcc: &HevcDecoderConfigurationBox,
    payload: &[u8],
    decode_frame: &B,
) -> (plane: Option<HeicAuxiliaryAlphaPlane>)
    requires
        forall|unit: &[u8]| #[trigger] decode_frame.requires((unit,)),
    ensures
        match assembled(hvcc, payload@) {
            Err(_) => plane is None,
            Ok(stream) => match no_frame_error(stream) {
                Some(_) => plane is None,
                None => exists|decoded: Result<HeicFrame, String>|
                    {
                        &&& #[trigger] frame_decoded(*decode_frame, stream, decoded)
                        &&& match frame_outcome(decoded) {
                            Err(_) => plane is None,
                            Ok(image) => is_luma_of(image, plane),
                        }
                    },
            },
        },
{
    let stream: Vec<u8> = match assemble_heic_hevc_stream_from_components(hvcc, payload) {
        Ok(stream) => stream,
        Err(_) => {
            return None;
        },
    };
    let slice: &[u8] = stream.as_slice();
    let result: Result<DecodedHeicImage, DecodeHeicError> = decode_hevc_stream_to_image(
        slice,
        decode_frame,
    );
    proof {
        if no_frame_error(slice@) is None {
            let decoded = choose|decoded: Result<HeicFrame, String>| #[trigger]
                decode_frame.ensures((slice,), decoded) && (match frame_outcome(decoded) {
                    Err(e) => result == Err::<DecodedHeicImage, DecodeHeicError>(e),
                    Ok(image) => result is Ok && result->Ok_0@ == image,
                });
            assert(frame_decoded(*decode_frame, stream@, decoded));
        }
    }
    match result {
        Ok(decoded) => heic_alpha_from_decoded(decoded),
        Err(_) => None,
    }
}

/// The number of samples.
pub open spec fn samples_of(samples: AvifPlaneSamples) -> nat {
    match samples {
        AvifPlaneSamples::U8(samples) => samples@.len(),
        AvifPlaneSamples::U16(samples) => samples@.len(),
    }
}

/// The opacity that an image is the luma of; there is none where the luma
/// does not fit the size of the image.
pub open spec fn avif_luma(image: DecodedAvifImage) -> Option<AvifAuxiliaryAlphaPlane> {
    if image.width * image.height > usize::MAX || samples_of(image.y_plane.samples) != image.width
        * image.height {
        None
    } else {
        Some(
            AvifAuxiliaryAlphaPlane {
                width: image.width,
                height: image.height,
                bit_depth: image.bit_depth,
                samples: image.y_plane.samples,
            },
        )
    }
}

/// The opacity that an image decodes to.
pub fn avif_alpha_from_decoded(decoded: DecodedAvifImage) -> (plane: Option<
    AvifAuxiliaryAlphaPlane,
>)
    ensures
        plane == avif_luma(decoded),
{
    let expected: usize = match plane_sample_count(decoded.width, decoded.height, "alpha") {
        Ok(expected) => expected,
        Err(_) => {
            return None;
        },
    };
    let actual: usize = match &decoded.y_plane.samples {
        AvifPlaneSamples::U8(samples) => samples.len(),
        AvifPlaneSamples::U16(samples) => samples.len(),
    };
    if actual != expected {
        return None;
    }
    Some(
        AvifAuxiliaryAlphaPlane {
            width: decoded.width,
            height: decoded.height,
            bit_depth: decoded.bit_depth,
            samples: decoded.y_plane.samples,
        },
    )
}

/// Decodes an item that may be the opacity of another, by `decode_stream`: the
/// units of its configuration and its payload.
pub fn decode_auxiliary_alpha_avif_item_candidate<
    D: Fn(&[u8]) -> Result<DecodedAvifImage, DecodeAvifError>,
>(config_obus: &[u8], payload: &[u8], decode_stream: &D) -> (plane: Option<
    AvifAuxiliaryAlphaPlane,
>)
    requires
        forall|stream: &[u8]| #[trigger] decode_stream.requires((stream,)),
    ensures
        exists|decoded: Result<DecodedAvifImage, DecodeAvifError>|
            {
                &&& #[trigger] stream_decoded(*decode_stream, config_obus@ + payload@, decoded)
                &&& match decoded {
                    Err(_) => plane is None,
                    Ok(image) => plane == avif_luma(image),
                }
            },
{
    let stream: Vec<u8> = av1_stream(config_obus, payload);
    let decoded: Result<DecodedAvifImage, DecodeAvifError> = decode_stream(stream.as_slice());
    assert(stream_decoded(*decode_stream, config_obus@ + payload@, decoded));
    match decoded {
        Ok(image) => avif_alpha_from_decoded(image),
        Err(_) => None,
    }
}

/// A plane of opacity.
pub trait AlphaPlane: Sized {
    /// The width and the height of the plane.
    spec fn dimensions(&self) -> (u32, u32);

    /// The width and the height of the plane.
    fn size(&self) -> (size: (u32, u32))
        ensures
            size == self.dimensions(),
    ;
}

impl AlphaPlane for HeicAuxiliaryAlphaPlane {
    open spec fn dimensions(&self) -> (u32, u32) {
        (self.width, self.height)
    }

    fn size(&self) -> (size: (u32, u32)) {
        (self.width, self.height)
    }
}

impl AlphaPlane for AvifAuxiliaryAlphaPlane {
    open spec fn dimensions(&self) -> (u32, u32) {
        (self.width, self.height)
    }

    fn size(&self) -> (size: (u32, u32)) {
        (self.width, self.height)
    }
}

/// Whether a candidate is a plane of a size.
pub open spec fn fits<P: AlphaPlane>(plane: Option<P>, width: u32, height: u32) -> bool {
    plane matches Some(plane) && plane.dimensions() == (width, height)
}

/// Whether candidates are what decoding the first of them came to.
pub open spec fn candidates_decoded<P: AlphaPlane, C: Fn(usize) -> Option<P>>(
    decode_candidate: C,
    planes: Seq<Option<P>>,
) -> bool {
    forall|k: int|
        0 <= k < planes.len() ==> decode_candidate.ensures((k as usize,), #[trigger] planes[k])
}

/// Whether a plane is the first of the candidates that has a size: those
/// before it were decoded and do not fit, those behind it were not decoded.
pub open spec fn first_that_fits<P: AlphaPlane>(
    planes: Seq<Option<P>>,
    count: int,
    width: u32,
    height: u32,
    chosen: Option<P>,
) -> bool {
    &&& planes.len() <= count
    &&& forall|k: int|
        0 <= k < planes.len() - 1 ==> !fits(#[trigger] planes[k], width, height)
    &&& match chosen {
        Some(_) => planes.len() > 0 && planes.last() == chosen && fits(chosen, width, height),
        None => planes.len() == count && (planes.len() > 0 ==> !fits(
            planes.last(),
            width,
            height,
        )),
    }
}

/// The first candidate that decodes to a plane of a size.
pub fn decode_primary_auxiliary_alpha_plane<P: AlphaPlane, C: Fn(usize) -> Option<P>>(
    candidate_count: usize,
    expected_width: u32,
    expected_height: u32,
    decode_candidate: &C,
) -> (chosen: Option<P>)
    requires
        forall|k: usize| k < candidate_count ==> #[trigger] decode_candidate.requires((k,)),
    ensures
        exists|planes: Seq<Option<P>>|
            {
                &&& #[trigger] candidates_decoded(*decode_candidate, planes)
                &&& first_that_fits(
                    planes,
                    candidate_count as int,
                    expected_width,
                    expected_height,
                    chosen,
                )
            },
{
    let ghost mut planes: Seq<Option<P>> = Seq::empty();
    let mut k: usize = 0;
    while k < candidate_count
        invariant
            k <= candidate_count,
            planes.len() == k,
            forall|i: usize| i < candidate_count ==> #[trigger] decode_candidate.requires((i,)),
            candidates_decoded(*decode_candidate, planes),
            forall|i: int|
                0 <= i < k ==> !fits(#[trigger] planes[i], expected_width, expected_height),
        decreases candidate_count - k,
    {
        let plane: Option<P> = decode_candidate(k);
        let ghost before = planes;
        proof {
            planes = planes.push(plane);
            assert forall|i: int| 0 <= i < planes.len() implies decode_candidate.ensures(
                (i as usize,),
                #[trigger] planes[i],
            ) by {
                if i < k {
                    assert(planes[i] == before[i]);
                }
            }
            assert forall|i: int| 0 <= i < k implies !fits(
                #[trigger] planes[i],
                expected_width,
                expected_height,
            ) by {
                assert(planes[i] == before[i]);
            }
        }
        if let Some(found) = plane {
            let (width, height): (u32, u32) = found.size();
            if width == expected_width && height == expected_height {
                proof {
                    assert(candidates_decoded(*decode_candidate, planes));
                    assert(planes.last() == Some(found));
                }
                return Some(found);
            }
        }
        k = k + 1;
    }
    None
}

} // verus!
