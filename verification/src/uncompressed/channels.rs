//! The channels of a decoded frame, and the pixels that they make up.
#[allow(unused_imports)]
use super::channel_map::{lemma_output_depth, output_depth};
use super::channel_map::select_uncompressed_output_bit_depth;
use super::components::{
    UncompressedPrimaryItemProperties, UNCOMPRESSED_CHANNEL_ALPHA, UNCOMPRESSED_CHANNEL_BLUE,
    UNCOMPRESSED_CHANNEL_CB, UNCOMPRESSED_CHANNEL_CR, UNCOMPRESSED_CHANNEL_GREEN,
    UNCOMPRESSED_CHANNEL_LUMA, UNCOMPRESSED_CHANNEL_MONO, UNCOMPRESSED_CHANNEL_RED,
    UNCOMPRESSED_SAMPLING_420,
};
#[allow(unused_imports)]
use super::components::channel_name;
use super::compression::{
    maybe_decode_primary_uncompressed_generic_compression_payload,
    UncompressedGenericCompressionProperties,
};
#[allow(unused_imports)]
use super::compression::{payload_unpacked, reports, UnpackError};
use super::frame::{
    decode_uncompressed_frame_channels, plan_uncompressed_frame, UncompressedFramePlan,
};
#[allow(unused_imports)]
use super::frame::{blank_channels, frame_channels, frame_plan, full_ycbcr, present, FramePlan};
use super::reader::{invalid_input, unsupported_feature};
#[allow(unused_imports)]
use super::reader::{invalid, unsupported};
#[allow(unused_imports)]
use super::stream::{channels_of, Channels};
use crate::errors::DecodeUncompressedError;
use crate::icc::icc_profile_from_color_properties;
#[allow(unused_imports)]
use crate::icc::{icc_of, profile_is};
use crate::scaling::{max_sample_for_bit_depth, scale_uncompressed_sample_bit_depth};
#[allow(unused_imports)]
use crate::scaling::{max_sample, scaled};
use crate::text::{Arg, Detail};
use crate::types::{DecodedUncompressedImage, PrimaryItemColorProperties, YCbCrRange};
use crate::ycbcr::{
    ycbcr_matrix_from_primary_colr, ycbcr_range_from_primary_colr, ycbcr_transform_from_matrix,
    PreparedYcbcrToRgb, YCbCrToRgbTransform,
};
#[allow(unused_imports)]
use crate::ycbcr::{
    converts, kernel_ready, lemma_prepared_wf, matrix_of, prepared, range_of, transform_of,
};
use vstd::prelude::*;

verus! {

/// The payload of an uncompressed item, with what says how it is packed.
#[derive(Clone, Debug, PartialEq, Eq)]
pub struct UncompressedItemData {
    pub item_id: u32,
    pub generic_compression_properties: UncompressedGenericCompressionProperties,
    pub payload: Vec<u8>,
}

/// The channels of a decoded frame.
#[derive(Clone, Debug, PartialEq, Eq)]
pub struct DecodedUncompressedChannels {
    pub width: u32,
    pub height: u32,
    pub output_bit_depth: u8,
    pub has_channel: [bool; 8],
    pub channel_bit_depths: [u8; 8],
    pub channel_samples: [Option<Vec<u16>>; 8],
    pub has_monochrome: bool,
    pub has_full_ycbcr: bool,
    pub ycbcr_converter: Option<PreparedYcbcrToRgb>,
    pub alpha_default: u16,
    pub icc_profile: Option<Vec<u8>>,
}

/// The channels of a decoded frame.
pub struct ChannelImage {
    pub width: u32,
    pub height: u32,
    pub output_bit_depth: u8,
    pub present: Seq<bool>,
    pub depths: Seq<u8>,
    pub channels: Channels,
    pub monochrome: bool,
    pub full_ycbcr: bool,
    pub converter: Option<PreparedYcbcrToRgb>,
    pub alpha_default: u16,
    pub icc: Option<Seq<u8>>,
}

impl View for DecodedUncompressedChannels {
    type V = ChannelImage;

    open spec fn view(&self) -> ChannelImage {
        ChannelImage {
            width: self.width,
            height: self.height,
            output_bit_depth: self.output_bit_depth,
            present: self.has_channel@,
            depths: self.channel_bit_depths@,
            channels: channels_of(self.channel_samples),
            monochrome: self.has_monochrome,
            full_ycbcr: self.has_full_ycbcr,
            converter: self.ycbcr_converter,
            alpha_default: self.alpha_default,
            icc: match self.icc_profile {
                Some(profile) => Some(profile@),
                None => None,
            },
        }
    }
}

/// The colour of a pixel, before it is converted.
pub enum PixelColour {
    Rgb(u16, u16, u16),
    Ycbcr(u16, u16, u16),
}

/// The error for a channel without samples.
pub open spec fn missing_channel(name: &'static str) -> DecodeUncompressedError {
    invalid(Detail::One("missing decoded {} channel samples", Arg::Word(name)))
}

impl ChannelImage {
    /// The number of pixels.
    pub open spec fn pixels(self) -> int {
        self.width * self.height
    }

    /// Every channel that is there has a sample for every pixel.
    pub open spec fn wf(self) -> bool {
        &&& self.channels.len() == 8
        &&& forall|c: int|
            0 <= c < 8 && (#[trigger] self.channels[c]) is Some ==> self.channels[c]->0.len()
                == self.pixels()
        &&& self.converter matches Some(converter) ==> converter.wf()
    }

    /// A decoded frame: its bit depth is in range, its pixels can be counted,
    /// and it has the channels that it says it has.
    pub open spec fn complete(self) -> bool {
        &&& 1 <= self.output_bit_depth <= 16
        &&& self.pixels() <= usize::MAX
        &&& forall|c: int|
            0 <= c < 8 ==> ((#[trigger] self.channels[c]) is Some <==> self.present[c])
    }

    /// The sample of a channel at a pixel, in the bit depth of the output.
    pub open spec fn sample(self, channel: usize, pixel: int) -> Result<
        u16,
        DecodeUncompressedError,
    > {
        scaled(
            self.channels[channel as int]->0[pixel],
            self.depths[channel as int],
            self.output_bit_depth,
            channel_name(channel as int),
        )
    }

    /// The samples of three channels at a pixel.
    pub open spec fn three_samples(self, a: usize, b: usize, c: usize, pixel: int) -> Result<
        (u16, u16, u16),
        DecodeUncompressedError,
    > {
        if self.channels[a as int] is None {
            Err(missing_channel(channel_name(a as int)))
        } else if self.channels[b as int] is None {
            Err(missing_channel(channel_name(b as int)))
        } else if self.channels[c as int] is None {
            Err(missing_channel(channel_name(c as int)))
        } else {
            match self.sample(a, pixel) {
                Err(e) => Err(e),
                Ok(first) => match self.sample(b, pixel) {
                    Err(e) => Err(e),
                    Ok(second) => match self.sample(c, pixel) {
                        Err(e) => Err(e),
                        Ok(third) => Ok((first, second, third)),
                    },
                },
            }
        }
    }

    /// The colour of a pixel.
    pub open spec fn colour(self, pixel: int) -> Result<PixelColour, DecodeUncompressedError> {
        if self.monochrome {
            if self.channels[UNCOMPRESSED_CHANNEL_MONO as int] is None {
                Err(missing_channel("monochrome"))
            } else {
                match self.sample(UNCOMPRESSED_CHANNEL_MONO, pixel) {
                    Ok(grey) => Ok(PixelColour::Rgb(grey, grey, grey)),
                    Err(e) => Err(e),
                }
            }
        } else if self.full_ycbcr {
            match self.three_samples(
                UNCOMPRESSED_CHANNEL_LUMA,
                UNCOMPRESSED_CHANNEL_CB,
                UNCOMPRESSED_CHANNEL_CR,
                pixel,
            ) {
                Err(e) => Err(e),
                Ok((y, cb, cr)) => match self.converter {
                    None => Err(
                        invalid(
                            Detail::Plain(
                                "missing YCbCr transform for decoded YCbCr channel set",
                            ),
                        ),
                    ),
                    Some(_) => Ok(PixelColour::Ycbcr(y, cb, cr)),
                },
            }
        } else {
            match self.three_samples(
                UNCOMPRESSED_CHANNEL_RED,
                UNCOMPRESSED_CHANNEL_GREEN,
                UNCOMPRESSED_CHANNEL_BLUE,
                pixel,
            ) {
                Err(e) => Err(e),
                Ok((red, green, blue)) => Ok(PixelColour::Rgb(red, green, blue)),
            }
        }
    }

    /// The opacity of a pixel.
    pub open spec fn alpha(self, pixel: int) -> Result<u16, DecodeUncompressedError> {
        if self.present[UNCOMPRESSED_CHANNEL_ALPHA as int] {
            if self.channels[UNCOMPRESSED_CHANNEL_ALPHA as int] is None {
                Err(missing_channel("alpha"))
            } else {
                self.sample(UNCOMPRESSED_CHANNEL_ALPHA, pixel)
            }
        } else {
            Ok(self.alpha_default)
        }
    }

    /// Why a pixel cannot be had, if it cannot.
    pub open spec fn pixel_error(self, pixel: int) -> Option<DecodeUncompressedError> {
        match self.colour(pixel) {
            Err(e) => Some(e),
            Ok(_) => match self.alpha(pixel) {
                Err(e) => Some(e),
                Ok(_) => None,
            },
        }
    }

    /// Whether a pixel is `rgba`.
    pub open spec fn pixel_is<F: Fn(PreparedYcbcrToRgb, i32, i32, i32) -> (u16, u16, u16)>(
        self,
        float_kernel: F,
        pixel: int,
        rgba: Seq<u16>,
    ) -> bool {
        &&& rgba.len() == 4
        &&& self.alpha(pixel) == Ok::<u16, DecodeUncompressedError>(rgba[3])
        &&& match self.colour(pixel) {
            Err(_) => false,
            Ok(PixelColour::Rgb(red, green, blue)) => {
                rgba[0] == red && rgba[1] == green && rgba[2] == blue
            },
            Ok(PixelColour::Ycbcr(y, cb, cr)) => converts(
                self.converter->0,
                float_kernel,
                y as i32,
                cb as i32,
                cr as i32,
                (rgba[0], rgba[1], rgba[2]),
            ),
        }
    }

    /// The first of `count` pixels that cannot be had: why.
    pub open spec fn first_pixel_error(self, count: nat) -> Option<DecodeUncompressedError>
        decreases count,
    {
        if count == 0 {
            None
        } else {
            match self.first_pixel_error((count - 1) as nat) {
                Some(e) => Some(e),
                None => self.pixel_error(count - 1),
            }
        }
    }

    /// Why the image cannot be had, if it cannot.
    pub open spec fn image_error(self) -> Option<DecodeUncompressedError> {
        if self.pixels() > usize::MAX {
            Some(
                invalid(
                    Detail::Two(
                        "uncompressed image sample-count overflow for dimensions {}x{}",
                        Arg::Num(self.width as i128),
                        Arg::Num(self.height as i128),
                    ),
                ),
            )
        } else if self.pixels() * 4 > usize::MAX {
            Some(invalid(Detail::Plain("uncompressed RGBA output length overflow")))
        } else {
            self.first_pixel_error(self.pixels() as nat)
        }
    }
}

/// Where a pixel cannot be had, no later pixel counts.
pub proof fn lemma_first_pixel_error(image: ChannelImage, few: nat, many: nat)
    requires
        few <= many,
        image.first_pixel_error(few) is Some,
    ensures
        image.first_pixel_error(many) == image.first_pixel_error(few),
    decreases many - few,
{
    if few < many {
        lemma_first_pixel_error(image, few, (many - 1) as nat);
    }
}

/// The conversion of a frame with luma and chroma channels.
pub open spec fn frame_conversion(
    colr: &PrimaryItemColorProperties,
    plan: FramePlan,
    depth: u8,
) -> Result<Option<PreparedYcbcrToRgb>, DecodeUncompressedError> {
    if !full_ycbcr(plan.map) {
        Ok(None)
    } else {
        match transform_of(matrix_of(colr)) {
            Err(code) => Err(
                unsupported(
                    Detail::One(
                        "uncompressed nclx matrix_coefficients {} is not supported for YCbCr->RGB conversion",
                        Arg::Num(code as i128),
                    ),
                ),
            ),
            Ok(transform) => Ok(
                Some(
                    prepared(
                        depth,
                        range_of(colr),
                        transform,
                        plan.layout.sampling_type == UNCOMPRESSED_SAMPLING_420,
                    ),
                ),
            ),
        }
    }
}

/// The channels of a frame whose payload is `payload`.
pub open spec fn decoded_frame(
    properties: &UncompressedPrimaryItemProperties,
    plan: FramePlan,
    payload: Seq<u8>,
) -> Result<ChannelImage, DecodeUncompressedError> {
    match frame_channels(payload, plan, properties.unc_c) {
        Err(e) => Err(e),
        Ok(channels) => match output_depth(plan.map.present, plan.map.depths) {
            Err(e) => Err(e),
            Ok(depth) => match frame_conversion(&properties.colr, plan, depth) {
                Err(e) => Err(e),
                Ok(converter) => Ok(
                    ChannelImage {
                        width: properties.width,
                        height: properties.height,
                        output_bit_depth: depth,
                        present: plan.map.present,
                        depths: plan.map.depths,
                        channels,
                        monochrome: present(plan.map, UNCOMPRESSED_CHANNEL_MONO),
                        full_ycbcr: full_ycbcr(plan.map),
                        converter,
                        alpha_default: max_sample(depth as int) as u16,
                        icc: icc_of(&properties.colr),
                    },
                ),
            },
        },
    }
}

/// The channels of an item: the frame is checked, its payload unpacked, and
/// then decoded.
pub open spec fn decoded_item(
    properties: &UncompressedPrimaryItemProperties,
    item: &UncompressedItemData,
) -> Result<ChannelImage, UnpackError> {
    match frame_plan(properties) {
        Err(e) => Err(UnpackError::Known(e)),
        Ok(plan) => match payload_unpacked(
            item.item_id,
            &item.generic_compression_properties,
            item.payload@,
        ) {
            Err(why) => Err(why),
            Ok(payload) => match decoded_frame(properties, plan, payload) {
                Err(e) => Err(UnpackError::Known(e)),
                Ok(image) => Ok(image),
            },
        },
    }
}

/// Decodes a frame that was checked, from its unpacked payload.
pub fn decode_uncompressed_frame(
    properties: &UncompressedPrimaryItemProperties,
    plan: &UncompressedFramePlan,
    payload: &[u8],
) -> (result: Result<DecodedUncompressedChannels, DecodeUncompressedError>)
    requires
        properties.wf(),
        frame_plan(properties) == Ok::<FramePlan, DecodeUncompressedError>(plan@),
    ensures
        match decoded_frame(properties, plan@, payload@) {
            Ok(image) => result is Ok && result->Ok_0@ == image && image.wf() && image.complete(),
            Err(e) => result == Err::<DecodedUncompressedChannels, DecodeUncompressedError>(e),
        },
{
    proof {
        super::frame::lemma_plan(properties);
    }
    let channel_samples: [Option<Vec<u16>>; 8] = decode_uncompressed_frame_channels(
        payload,
        plan,
        &properties.unc_c,
    )?;
    let output_bit_depth: u8 = select_uncompressed_output_bit_depth(
        &plan.map.has_channel,
        &plan.map.channel_bit_depths,
    )?;
    proof {
        lemma_output_depth(plan.map@.present, plan.map@.depths);
    }
    let alpha_default: u16 = max_sample_for_bit_depth(output_bit_depth)?;
    let range: YCbCrRange = ycbcr_range_from_primary_colr(&properties.colr);
    let has_full_ycbcr: bool = plan.map.has_channel[UNCOMPRESSED_CHANNEL_LUMA]
        && plan.map.has_channel[UNCOMPRESSED_CHANNEL_CB]
        && plan.map.has_channel[UNCOMPRESSED_CHANNEL_CR];
    let ycbcr_converter: Option<PreparedYcbcrToRgb> = if has_full_ycbcr {
        let transform: YCbCrToRgbTransform = match ycbcr_transform_from_matrix(
            ycbcr_matrix_from_primary_colr(&properties.colr),
        ) {
            Ok(transform) => transform,
            Err(code) => {
                return unsupported_feature(
                    Detail::One(
                        "uncompressed nclx matrix_coefficients {} is not supported for YCbCr->RGB conversion",
                        Arg::Num(code as i128),
                    ),
                );
            },
        };
        let layout_is_420: bool = plan.sampling_type == UNCOMPRESSED_SAMPLING_420;
        proof {
            lemma_prepared_wf(output_bit_depth, range, transform, layout_is_420);
        }
        Some(PreparedYcbcrToRgb::new(output_bit_depth, range, transform, layout_is_420))
    } else {
        None
    };
    let decoded: DecodedUncompressedChannels = DecodedUncompressedChannels {
        width: properties.width,
        height: properties.height,
        output_bit_depth,
        has_channel: plan.map.has_channel,
        channel_bit_depths: plan.map.channel_bit_depths,
        channel_samples,
        has_monochrome: plan.map.has_channel[UNCOMPRESSED_CHANNEL_MONO],
        has_full_ycbcr,
        ycbcr_converter,
        alpha_default,
        icc_profile: icc_profile_from_color_properties(&properties.colr),
    };
    proof {
        let blank = blank_channels(plan.map@, plan.tile.pixels());
        assert forall|c: int| 0 <= c < 8 && (#[trigger] decoded@.channels[c]) is Some implies
            decoded@.channels[c]->0.len() == decoded@.pixels() by {
            assert(blank[c] is Some);
        }
        assert forall|c: int| 0 <= c < 8 implies ((#[trigger] decoded@.channels[c]) is Some
            <==> decoded@.present[c]) by {
            assert(blank[c] is Some <==> plan.map@.present[c]);
        }
        let here = choose|c: int| 0 <= c < 8 && plan.map@.present[c];
        assert(decoded@.channels[here] is Some);
        assert(decoded.channel_samples@[here]->0.len() == decoded@.pixels());
        assert(decoded@ == decoded_frame(properties, plan@, payload@)->Ok_0);
    }
    Ok(decoded)
}

/// Decodes an uncompressed item into its channels.
pub fn decode_primary_uncompressed_to_channels(
    properties: &UncompressedPrimaryItemProperties,
    item: UncompressedItemData,
) -> (result: Result<DecodedUncompressedChannels, DecodeUncompressedError>)
    requires
        properties.wf(),
    ensures
        match decoded_item(properties, &item) {
            Ok(image) => result is Ok && result->Ok_0@ == image && image.wf() && image.complete(),
            Err(why) => result is Err && reports(result->Err_0, why),
        },
{
    let plan: UncompressedFramePlan = plan_uncompressed_frame(properties)?;
    let payload: Vec<u8> = maybe_decode_primary_uncompressed_generic_compression_payload(
        item.item_id,
        &item.generic_compression_properties,
        item.payload,
    )?;
    decode_uncompressed_frame(properties, &plan, payload.as_slice())
}

impl DecodedUncompressedChannels {
    /// The number of pixels.
    pub fn pixel_count(&self) -> (result: Result<usize, DecodeUncompressedError>)
        ensures
            self@.pixels() <= usize::MAX ==> result is Ok && result->Ok_0 == self@.pixels(),
            self@.pixels() > usize::MAX ==> result == Err::<usize, DecodeUncompressedError>(
                self@.image_error()->0,
            ),
    {
        proof {
            assert(0 <= self.width * self.height) by (nonlinear_arith);
        }
        match (self.width as usize).checked_mul(self.height as usize) {
            Some(count) => Ok(count),
            None => invalid_input(
                Detail::Two(
                    "uncompressed image sample-count overflow for dimensions {}x{}",
                    Arg::Num(self.width as i128),
                    Arg::Num(self.height as i128),
                ),
            ),
        }
    }

    /// The number of samples of the image.
    pub fn rgba_sample_count(&self) -> (result: Result<usize, DecodeUncompressedError>)
        ensures
            self@.pixels() * 4 <= usize::MAX ==> result is Ok && result->Ok_0 == self@.pixels()
                * 4,
            self@.pixels() * 4 > usize::MAX ==> result == Err::<usize, DecodeUncompressedError>(
                self@.image_error()->0,
            ),
    {
        proof {
            assert(0 <= self.width * self.height) by (nonlinear_arith);
        }
        match self.pixel_count()?.checked_mul(4) {
            Some(count) => Ok(count),
            None => invalid_input(Detail::Plain("uncompressed RGBA output length overflow")),
        }
    }

    /// The samples of a channel.
    pub fn channel(&self, channel_index: usize, name: &'static str) -> (result: Result<
        &[u16],
        DecodeUncompressedError,
    >)
        requires
            channel_index < 8,
        ensures
            match self@.channels[channel_index as int] {
                Some(samples) => result is Ok && result->Ok_0@ == samples,
                None => result == Err::<&[u16], DecodeUncompressedError>(missing_channel(name)),
            },
    {
        match &self.channel_samples[channel_index] {
            Some(samples) => Ok(samples.as_slice()),
            None => invalid_input(
                Detail::One("missing decoded {} channel samples", Arg::Word(name)),
            ),
        }
    }

    /// The samples of three channels at a pixel.
    fn three_samples_at(
        &self,
        channels: (usize, usize, usize),
        names: (&'static str, &'static str, &'static str),
        pixel_index: usize,
    ) -> (result: Result<(u16, u16, u16), DecodeUncompressedError>)
        requires
            self@.wf(),
            pixel_index < self@.pixels(),
            channels.0 < 8,
            channels.1 < 8,
            channels.2 < 8,
            names.0 == channel_name(channels.0 as int),
            names.1 == channel_name(channels.1 as int),
            names.2 == channel_name(channels.2 as int),
        ensures
            result == self@.three_samples(channels.0, channels.1, channels.2, pixel_index as int),
    {
        let first: &[u16] = self.channel(channels.0, names.0)?;
        let second: &[u16] = self.channel(channels.1, names.1)?;
        let third: &[u16] = self.channel(channels.2, names.2)?;
        let a: u16 = scale_uncompressed_sample_bit_depth(
            first[pixel_index],
            self.channel_bit_depths[channels.0],
            self.output_bit_depth,
            names.0,
        )?;
        let b: u16 = scale_uncompressed_sample_bit_depth(
            second[pixel_index],
            self.channel_bit_depths[channels.1],
            self.output_bit_depth,
            names.1,
        )?;
        let c: u16 = scale_uncompressed_sample_bit_depth(
            third[pixel_index],
            self.channel_bit_depths[channels.2],
            self.output_bit_depth,
            names.2,
        )?;
        Ok((a, b, c))
    }

    /// A pixel: red, green, blue and opacity.
    pub fn rgba_at<F: Fn(PreparedYcbcrToRgb, i32, i32, i32) -> (u16, u16, u16)>(
        &self,
        pixel_index: usize,
        float_kernel: &F,
    ) -> (result: Result<[u16; 4], DecodeUncompressedError>)
        requires
            self@.wf(),
            pixel_index < self@.pixels(),
            kernel_ready(*float_kernel),
        ensures
            match self@.pixel_error(pixel_index as int) {
                Some(e) => result == Err::<[u16; 4], DecodeUncompressedError>(e),
                None => result is Ok && self@.pixel_is(
                    *float_kernel,
                    pixel_index as int,
                    result->Ok_0@,
                ),
            },
    {
        let (red, green, blue): (u16, u16, u16) = if self.has_monochrome {
            let mono: &[u16] = self.channel(UNCOMPRESSED_CHANNEL_MONO, "monochrome")?;
            let grey: u16 = scale_uncompressed_sample_bit_depth(
                mono[pixel_index],
                self.channel_bit_depths[UNCOMPRESSED_CHANNEL_MONO],
                self.output_bit_depth,
                "monochrome",
            )?;
            (grey, grey, grey)
        } else if self.has_full_ycbcr {
            let (y, cb, cr) = self.three_samples_at(
                (UNCOMPRESSED_CHANNEL_LUMA, UNCOMPRESSED_CHANNEL_CB, UNCOMPRESSED_CHANNEL_CR),
                ("luma", "Cb", "Cr"),
                pixel_index,
            )?;
            match self.ycbcr_converter {
                Some(converter) => converter.convert(float_kernel, y as i32, cb as i32, cr as i32),
                None => {
                    return invalid_input(
                        Detail::Plain("missing YCbCr transform for decoded YCbCr channel set"),
                    );
                },
            }
        } else {
            self.three_samples_at(
                (UNCOMPRESSED_CHANNEL_RED, UNCOMPRESSED_CHANNEL_GREEN, UNCOMPRESSED_CHANNEL_BLUE),
                ("red", "green", "blue"),
                pixel_index,
            )?
        };
        let alpha: u16 = if self.has_channel[UNCOMPRESSED_CHANNEL_ALPHA] {
            let samples: &[u16] = self.channel(UNCOMPRESSED_CHANNEL_ALPHA, "alpha")?;
            scale_uncompressed_sample_bit_depth(
                samples[pixel_index],
                self.channel_bit_depths[UNCOMPRESSED_CHANNEL_ALPHA],
                self.output_bit_depth,
                "alpha",
            )?
        } else {
            self.alpha_default
        };
        Ok([red, green, blue, alpha])
    }
}

/// Whether `rgba` holds the first `count` pixels of the image.
pub open spec fn holds_pixels<F: Fn(PreparedYcbcrToRgb, i32, i32, i32) -> (u16, u16, u16)>(
    image: ChannelImage,
    float_kernel: F,
    rgba: Seq<u16>,
    count: int,
) -> bool {
    &&& rgba.len() == 4 * count
    &&& forall|i: int|
        0 <= i < count ==> image.pixel_is(float_kernel, i, #[trigger] pixel_of(rgba, i))
}

/// Pixel `i` of interleaved samples.
pub open spec fn pixel_of(rgba: Seq<u16>, i: int) -> Seq<u16> {
    rgba.subrange(4 * i, 4 * i + 4)
}

/// The image of decoded channels.
pub fn uncompressed_channels_to_image<
    F: Fn(PreparedYcbcrToRgb, i32, i32, i32) -> (u16, u16, u16),
>(decoded: DecodedUncompressedChannels, float_kernel: &F) -> (result: Result<
    DecodedUncompressedImage,
    DecodeUncompressedError,
>)
    requires
        decoded@.wf(),
        kernel_ready(*float_kernel),
    ensures
        match decoded@.image_error() {
            Some(e) => result == Err::<DecodedUncompressedImage, DecodeUncompressedError>(e),
            None => {
                &&& result is Ok
                &&& result->Ok_0.width == decoded.width
                &&& result->Ok_0.height == decoded.height
                &&& result->Ok_0.bit_depth == decoded.output_bit_depth
                &&& result->Ok_0.icc_profile == decoded.icc_profile
                &&& holds_pixels(
                    decoded@,
                    *float_kernel,
                    result->Ok_0.rgba@,
                    decoded@.pixels(),
                )
            },
        },
{
    proof {
        assert(0 <= decoded.width * decoded.height) by (nonlinear_arith);
    }
    let sample_count: usize = decoded.rgba_sample_count()?;
    let mut rgba: Vec<u16> = Vec::with_capacity(sample_count);
    let count: usize = decoded.pixel_count()?;
    let mut pixel_index: usize = 0;
    while pixel_index < count
        invariant
            pixel_index <= count,
            count == decoded@.pixels(),
            count * 4 <= usize::MAX,
            decoded@.wf(),
            kernel_ready(*float_kernel),
            decoded@.first_pixel_error(pixel_index as nat) is None,
            holds_pixels(decoded@, *float_kernel, rgba@, pixel_index as int),
        decreases count - pixel_index,
    {
        let pixel: [u16; 4] = match decoded.rgba_at(pixel_index, float_kernel) {
            Ok(pixel) => pixel,
            Err(e) => {
                proof {
                    lemma_first_pixel_error(
                        decoded@,
                        (pixel_index + 1) as nat,
                        decoded@.pixels() as nat,
                    );
                }
                return Err(e);
            },
        };
        let ghost before = rgba@;
        rgba.push(pixel[0]);
        rgba.push(pixel[1]);
        rgba.push(pixel[2]);
        rgba.push(pixel[3]);
        proof {
            assert forall|i: int| 0 <= i < pixel_index + 1 implies decoded@.pixel_is(
                *float_kernel,
                i,
                #[trigger] pixel_of(rgba@, i),
            ) by {
                if i < pixel_index {
                    assert(pixel_of(rgba@, i) =~= pixel_of(before, i));
                } else {
                    assert(pixel_of(rgba@, i) =~= pixel@);
                }
            }
        }
        pixel_index = pixel_index + 1;
    }
    Ok(
        DecodedUncompressedImage {
            width: decoded.width,
            height: decoded.height,
            bit_depth: decoded.output_bit_depth,
            rgba,
            icc_profile: decoded.icc_profile,
        },
    )
}

/// Decodes an uncompressed (`unci`) item into an image.
pub fn decode_primary_uncompressed_to_image<
    F: Fn(PreparedYcbcrToRgb, i32, i32, i32) -> (u16, u16, u16),
>(
    properties: &UncompressedPrimaryItemProperties,
    item: UncompressedItemData,
    float_kernel: &F,
) -> (result: Result<DecodedUncompressedImage, DecodeUncompressedError>)
    requires
        properties.wf(),
        kernel_ready(*float_kernel),
    ensures
        match decoded_item(properties, &item) {
            Err(why) => result is Err && reports(result->Err_0, why),
            Ok(image) => match image.image_error() {
                Some(e) => result == Err::<DecodedUncompressedImage, DecodeUncompressedError>(e),
                None => {
                    &&& result is Ok
                    &&& result->Ok_0.width == properties.width
                    &&& result->Ok_0.height == properties.height
                    &&& result->Ok_0.bit_depth == image.output_bit_depth
                    &&& profile_is(result->Ok_0.icc_profile, image.icc)
                    &&& holds_pixels(image, *float_kernel, result->Ok_0.rgba@, image.pixels())
                },
            },
        },
{
    let decoded: DecodedUncompressedChannels = decode_primary_uncompressed_to_channels(
        properties,
        item,
    )?;
    uncompressed_channels_to_image(decoded, float_kernel)
}

} // verus!
