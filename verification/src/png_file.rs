//! PNG files of decoded images.
use crate::errors::DecodeError;
use crate::rgba::{DecodedRgbaImage, DecodedRgbaPixels};
use crate::scaling::power_of_two;
#[allow(unused_imports)]
use crate::scaling::{expanded, lemma_expanded_bound, lemma_expanded_front, to_u16};
use vstd::arithmetic::power2::pow2;
#[allow(unused_imports)]
use vstd::arithmetic::power2::{lemma2_to64, lemma_pow2_pos};
use vstd::prelude::*;

verus! {

/// The file that the `png` crate makes of RGBA samples, or the text of its
/// error.
pub uninterp spec fn png_encoded(
    width: u32,
    height: u32,
    bit_depth: u8,
    icc_profile: Option<Seq<u8>>,
    data: Seq<u8>,
) -> Result<Seq<u8>, Seq<char>>;

/// What a profile holds.
pub open spec fn profile_bytes(icc_profile: Option<&[u8]>) -> Option<Seq<u8>> {
    match icc_profile {
        Some(profile) => Some(profile@),
        None => None,
    }
}

/// Whether three times the length of a profile can be counted.
pub open spec fn profile_fits(icc_profile: Option<Seq<u8>>) -> bool {
    icc_profile matches Some(profile) ==> 3 * profile.len() <= usize::MAX
}

/// Whether a profile is so short that it fits into one chunk of a file, however
/// badly it is compressed.
pub open spec fn profile_in_chunk(icc_profile: Option<Seq<u8>>) -> bool {
    icc_profile matches Some(profile) ==> profile.len() <= 0x1000_0000
}

/// The text of the error that the `png` crate gives where it cannot reserve
/// memory for a profile.
pub open spec fn out_of_memory() -> Seq<char> {
    "Limits are exceeded."@
}

/// `png::Encoder::with_info`, `write_header` and `write_image_data` of the
/// `png` crate, for RGBA samples that are written to memory, and the text of
/// the error. The crate multiplies the bytes of a row by the rows, and the
/// length of the profile by three, without a check, so that the products have
/// to fit. It refuses an image without pixels, and samples that do not fill
/// the image. Without a profile it refuses nothing else. A profile it refuses
/// where a chunk cannot hold it compressed, which takes a longer one than
/// `profile_in_chunk` allows: a compressed byte takes two at most, beside what
/// each block begins with. Whether there is memory for a profile is up to the
/// machine; where there is none, the error is the one of `out_of_memory`. All
/// else is a function of the arguments and has the name `png_encoded`.
#[verifier::external_body]
fn encode_rgba(
    width: u32,
    height: u32,
    bit_depth: u8,
    icc_profile: Option<&[u8]>,
    data: &[u8],
) -> (result: Result<Vec<u8>, String>)
    requires
        bit_depth == 8 || bit_depth == 16,
        width * 8 < usize::MAX,
        width * height * 8 <= usize::MAX,
        profile_fits(profile_bytes(icc_profile)),
    ensures
        match result {
            Ok(file) => png_encoded(width, height, bit_depth, profile_bytes(icc_profile), data@)
                == Ok::<Seq<u8>, Seq<char>>(file@),
            Err(text) => {
                ||| png_encoded(width, height, bit_depth, profile_bytes(icc_profile), data@)
                    == Err::<Seq<u8>, Seq<char>>(text@)
                ||| icc_profile is Some && width > 0 && height > 0 && text@ == out_of_memory()
            },
        },
        width == 0 || height == 0 || data@.len() != width * height * 4 * (bit_depth as int / 8)
            ==> result is Err,
        width > 0 && height > 0 && data@.len() == width * height * 4 * (bit_depth as int / 8)
            && profile_in_chunk(profile_bytes(icc_profile)) ==> (result matches Err(text)
            ==> icc_profile is Some && text@ == out_of_memory()),
{
    let mut file = Vec::new();
    let mut info = png::Info::with_size(width, height);
    info.color_type = png::ColorType::Rgba;
    info.bit_depth = png::BitDepth::from_u8(bit_depth).unwrap();
    info.icc_profile = icc_profile.map(|profile| profile.to_vec().into());
    png::Encoder::with_info(&mut file, info)
        .and_then(|encoder| encoder.write_header())
        .and_then(|mut writer| writer.write_image_data(data))
        .map_err(|error| error.to_string())?;
    Ok(file)
}

/// The bytes of samples, the high byte of each first.
pub open spec fn be_bytes(samples: Seq<u16>) -> Seq<u8> {
    Seq::new(
        2 * samples.len(),
        |k: int|
            if k % 2 == 0 {
                (samples[k / 2] / 256) as u8
            } else {
                (samples[k / 2] % 256) as u8
            },
    )
}

/// A sample of some bit depth without the bits that repeat its first ones.
pub open spec fn unrepeated(sample: u16, bit_depth: u8) -> u16 {
    if bit_depth >= 16 {
        sample
    } else {
        (sample - (sample as int) % (pow2((16 - bit_depth) as nat) as int)) as u16
    }
}

/// The samples of a file: colours without repeated bits, opacity as it is.
pub open spec fn file_samples(samples: Seq<u16>, bit_depth: u8) -> Seq<u16> {
    Seq::new(
        samples.len(),
        |k: int|
            if k % 4 == 3 {
                samples[k]
            } else {
                unrepeated(samples[k], bit_depth)
            },
    )
}

/// The samples of a file.
///
/// In memory a sample repeats its first bits behind its last one, so that it
/// has the full range of sixteen bits. A file has zeros there instead; opacity
/// keeps its full range.
pub fn masked_samples(pixels: &[u16], source_bit_depth: u8) -> (masked: Vec<u16>)
    requires
        1 <= source_bit_depth,
    ensures
        masked@ == file_samples(pixels@, source_bit_depth),
{
    let step: u32 = if source_bit_depth < 16 {
        power_of_two(16 - source_bit_depth)
    } else {
        1
    };
    proof {
        lemma2_to64();
    }
    let mut masked: Vec<u16> = Vec::with_capacity(pixels.len());
    let mut k: usize = 0;
    while k < pixels.len()
        invariant
            k <= pixels@.len(),
            masked@.len() == k,
            step > 0,
            step == (if source_bit_depth < 16 {
                pow2((16 - source_bit_depth) as nat) as int
            } else {
                1
            }),
            forall|i: int|
                0 <= i < k ==> #[trigger] masked@[i] == file_samples(pixels@, source_bit_depth)[i],
        decreases pixels@.len() - k,
    {
        let sample: u16 = pixels[k];
        if k % 4 == 3 {
            masked.push(sample);
        } else {
            proof {
                vstd::arithmetic::div_mod::lemma_mod_decreases(sample as nat, step as nat);
            }
            masked.push((sample as u32 - sample as u32 % step) as u16);
        }
        k = k + 1;
    }
    assert(masked@ =~= file_samples(pixels@, source_bit_depth));
    masked
}

/// The bytes of samples, or an error where they cannot be counted.
pub fn sample_bytes(samples: &[u16]) -> (result: Result<Vec<u8>, DecodeError>)
    ensures
        if 2 * samples@.len() > usize::MAX {
            result == Err::<Vec<u8>, DecodeError>(
                DecodeError::OutputBufferOverflow {
                    buffer_name: "RGBA16 PNG byte buffer",
                    element_count: samples@.len() as usize,
                    element_size_bytes: 2,
                },
            )
        } else {
            result is Ok && result->Ok_0@ == be_bytes(samples@)
        },
{
    let byte_len: usize = match samples.len().checked_mul(2) {
        Some(byte_len) => byte_len,
        None => {
            return Err(
                DecodeError::OutputBufferOverflow {
                    buffer_name: "RGBA16 PNG byte buffer",
                    element_count: samples.len(),
                    element_size_bytes: 2,
                },
            );
        },
    };
    let mut bytes: Vec<u8> = Vec::with_capacity(byte_len);
    let mut k: usize = 0;
    while k < samples.len()
        invariant
            k <= samples@.len(),
            bytes@.len() == 2 * k,
            2 * samples@.len() <= usize::MAX,
            forall|i: int| 0 <= i < 2 * k ==> #[trigger] bytes@[i] == be_bytes(samples@)[i],
        decreases samples@.len() - k,
    {
        let sample: u16 = samples[k];
        bytes.push((sample / 256) as u8);
        bytes.push((sample % 256) as u8);
        k = k + 1;
    }
    assert(bytes@ =~= be_bytes(samples@));
    Ok(bytes)
}

/// What the profile of an image holds.
pub open spec fn image_profile(decoded: &DecodedRgbaImage) -> Option<Seq<u8>> {
    match decoded.icc_profile {
        Some(profile) => Some(profile@),
        None => None,
    }
}

/// What the `png` crate makes of a decoded image.
pub open spec fn image_file(decoded: &DecodedRgbaImage) -> Result<Seq<u8>, Seq<char>> {
    let icc_profile = image_profile(decoded);
    match decoded.pixels {
        DecodedRgbaPixels::U8(pixels) => png_encoded(
            decoded.width,
            decoded.height,
            8,
            icc_profile,
            pixels@,
        ),
        DecodedRgbaPixels::U16(pixels) => png_encoded(
            decoded.width,
            decoded.height,
            16,
            icc_profile,
            be_bytes(file_samples(pixels@, decoded.source_bit_depth)),
        ),
    }
}

/// Whether an image has the pixels of its size, and any at all.
pub open spec fn is_filled(decoded: &DecodedRgbaImage) -> bool {
    &&& 0 < decoded.width
    &&& 0 < decoded.height
    &&& match decoded.pixels {
        DecodedRgbaPixels::U8(pixels) => pixels@.len() == 4 * (decoded.width * decoded.height),
        DecodedRgbaPixels::U16(pixels) => pixels@.len() == 4 * (decoded.width * decoded.height),
    }
}

/// What the outcome of encoding makes of a decoded image: the file, or the error
/// with its text.
pub fn png_outcome(encoded: Result<Vec<u8>, String>) -> (result: Result<Vec<u8>, DecodeError>)
    ensures
        result == (match encoded {
            Ok(file) => Ok::<Vec<u8>, DecodeError>(file),
            Err(text) => Err(DecodeError::PngEncoding(text)),
        }),
{
    match encoded {
        Ok(file) => Ok(file),
        Err(text) => Err(DecodeError::PngEncoding(text)),
    }
}

/// The PNG file of a decoded image. Whether the encoder has memory for a profile
/// is up to the machine: where it has none, the error says so.
pub fn decoded_rgba_to_png(decoded: &DecodedRgbaImage) -> (result: Result<Vec<u8>, DecodeError>)
    requires
        decoded.pixels is U16 ==> 1 <= decoded.source_bit_depth,
        decoded.width * 8 < usize::MAX,
        decoded.width * decoded.height * 8 <= usize::MAX,
        profile_fits(image_profile(decoded)),
    ensures
        match decoded.pixels {
            DecodedRgbaPixels::U16(pixels) if 2 * pixels@.len() > usize::MAX => result == Err::<
                Vec<u8>,
                DecodeError,
            >(
                DecodeError::OutputBufferOverflow {
                    buffer_name: "RGBA16 PNG byte buffer",
                    element_count: pixels@.len() as usize,
                    element_size_bytes: 2,
                },
            ),
            _ => match result {
                Ok(file) => image_file(decoded) == Ok::<Seq<u8>, Seq<char>>(file@),
                Err(DecodeError::PngEncoding(text)) => {
                    ||| image_file(decoded) == Err::<Seq<u8>, Seq<char>>(text@)
                    ||| decoded.icc_profile is Some && decoded.width > 0 && decoded.height > 0
                        && text@ == out_of_memory()
                },
                Err(_) => false,
            },
        },
        result is Ok ==> is_filled(decoded),
        is_filled(decoded) && profile_in_chunk(image_profile(decoded)) ==> match result {
            Ok(_) => true,
            Err(DecodeError::PngEncoding(text)) => decoded.icc_profile is Some && text@
                == out_of_memory(),
            Err(_) => false,
        },
{
    let icc_profile: Option<&[u8]> = match &decoded.icc_profile {
        Some(profile) => Some(profile.as_slice()),
        None => None,
    };
    proof {
        assert(decoded.width * decoded.height * 4 * 1 == 4 * (decoded.width * decoded.height))
            by (nonlinear_arith);
        assert(decoded.width * decoded.height * 4 * 2 == 2 * (4 * (decoded.width
            * decoded.height))) by (nonlinear_arith);
    }
    let encoded: Result<Vec<u8>, String> = match &decoded.pixels {
        DecodedRgbaPixels::U8(pixels) => encode_rgba(
            decoded.width,
            decoded.height,
            8,
            icc_profile,
            pixels.as_slice(),
        ),
        DecodedRgbaPixels::U16(pixels) => {
            let masked: Vec<u16> = masked_samples(pixels.as_slice(), decoded.source_bit_depth);
            let bytes: Vec<u8> = sample_bytes(masked.as_slice())?;
            encode_rgba(decoded.width, decoded.height, 16, icc_profile, bytes.as_slice())
        },
    };
    png_outcome(encoded)
}

/// A sample of some bit depth that was scaled to sixteen bits stands in a file
/// as it was, moved to the high end.
pub proof fn lemma_file_sample(sample: u16, bit_depth: u8)
    requires
        1 <= bit_depth <= 16,
        sample < pow2(bit_depth as nat),
    ensures
        unrepeated(to_u16(sample, bit_depth), bit_depth) == sample * pow2(
            (16 - bit_depth) as nat,
        ),
{
    lemma2_to64();
    if bit_depth < 16 {
        lemma_expanded_front(sample as int, bit_depth as int, 16);
        lemma_expanded_bound(sample as int, bit_depth as int, 16);
        let wide = expanded(sample as int, bit_depth as int, 16);
        let step = pow2((16 - bit_depth) as nat) as int;
        lemma_pow2_pos((16 - bit_depth) as nat);
        vstd::arithmetic::div_mod::lemma_fundamental_div_mod(wide, step);
        assert(0 <= sample * step == step * sample) by (nonlinear_arith)
            requires
                0 <= sample,
                step > 0,
        ;
    } else {
        assert(pow2((16 - bit_depth) as nat) == 1);
        assert(sample * 1 == sample);
    }
}

} // verus!
