//! The ICC profile of an image: the one that its file holds, or one made from
//! its nclx colour codes.
use crate::text::{Arg, Detail};
use crate::types::{NclxColorProfile, PrimaryItemColorProperties};
use moxcms::{
    CicpColorPrimaries, CicpProfile, ColorProfile, LocalizableString, MatrixCoefficients,
    ProfileText, TransferCharacteristics, Xyzd,
};
use vstd::prelude::*;

verus! {

/// The codes that describe a colour space.
#[derive(Clone, Copy, Debug, PartialEq, Eq, Structural)]
pub struct ColorCodes {
    pub colour_primaries: u8,
    pub transfer_characteristics: u8,
    pub matrix_coefficients: u8,
    pub full_range: bool,
}

/// The texts that stand in a profile that is made from codes.
pub struct ProfileTexts<'a> {
    /// The coordinates of the illuminant, as decimal fractions.
    pub illuminant: [&'a str; 3],
    pub language: &'a str,
    pub country: &'a str,
    pub description: &'a str,
    pub copyright: &'a str,
}

/// Whether a code stands for colour primaries: not for unspecified or reserved
/// ones.
pub open spec fn names_primaries(colour_primaries: u8) -> bool {
    colour_primaries == 1 || 4 <= colour_primaries <= 12 || colour_primaries == 22
}

/// Whether a code stands for a transfer curve: not for an unspecified or
/// reserved one.
pub open spec fn names_transfer_curve(transfer_characteristics: u8) -> bool {
    transfer_characteristics == 1 || 4 <= transfer_characteristics <= 18
}

/// The bytes that `moxcms::ColorProfile::encode` makes of a profile, in one
/// build, before and behind its creation time; nothing where it fails.
pub uninterp spec fn encoded_around_time(
    codes: (u8, u8, u8, bool),
    illuminant: (Seq<char>, Seq<char>, Seq<char>),
    locale: (Seq<char>, Seq<char>),
    description: Seq<char>,
    copyright: Seq<char>,
) -> Option<(Seq<u8>, Seq<u8>)>;

/// `moxcms::ColorProfile::is_matrix_shaper` of the profile that
/// `moxcms::ColorProfile::new_from_cicp` makes of the codes: it has colorants
/// and curves exactly where the codes stand for primaries and for a curve.
#[verifier::external_body]
fn is_matrix_shaper(codes: ColorCodes) -> (shaper: bool)
    requires
        codes.matrix_coefficients <= 14,
    ensures
        shaper == (names_primaries(codes.colour_primaries) && names_transfer_curve(
            codes.transfer_characteristics,
        )),
{
    ColorProfile::new_from_cicp(
        CicpProfile {
            color_primaries: CicpColorPrimaries::try_from(codes.colour_primaries).unwrap(),
            transfer_characteristics: TransferCharacteristics::try_from(
                codes.transfer_characteristics,
            ).unwrap(),
            matrix_coefficients: MatrixCoefficients::try_from(codes.matrix_coefficients).unwrap(),
            full_range: codes.full_range,
        },
    ).is_matrix_shaper()
}

/// `moxcms::ColorProfile::encode` of the profile that
/// `moxcms::ColorProfile::new_from_cicp` makes of the codes, with the given
/// illuminant as white point and media white point and with the given texts.
/// `encode` writes the time of the call into bytes 24 to 35. All that stands
/// before and behind depends on the arguments alone, in one build of `moxcms`,
/// and has the name `encoded_around_time`. Its numbers are computed in double
/// precision and then rounded to sixteen bits; a build for another target may
/// fuse a product with a sum and so round it otherwise.
#[verifier::external_body]
fn encode_profile(codes: ColorCodes, texts: &ProfileTexts<'_>) -> (encoded: Option<Vec<u8>>)
    ensures
        around_time(encoded) == encoded_around_time(
            (
                codes.colour_primaries,
                codes.transfer_characteristics,
                codes.matrix_coefficients,
                codes.full_range,
            ),
            (texts.illuminant@[0]@, texts.illuminant@[1]@, texts.illuminant@[2]@),
            (texts.language@, texts.country@),
            texts.description@,
            texts.copyright@,
        ),
        encoded matches Some(bytes) ==> bytes@.len() >= 36,
{
    let mut profile = ColorProfile::new_from_cicp(CicpProfile {
        color_primaries: codes.colour_primaries.try_into().ok()?,
        transfer_characteristics: codes.transfer_characteristics.try_into().ok()?,
        matrix_coefficients: codes.matrix_coefficients.try_into().ok()?,
        full_range: codes.full_range,
    });
    let [x, y, z] = texts.illuminant.map(|text| text.parse().ok());
    profile.white_point = Xyzd::new(x?, y?, z?);
    profile.media_white_point = Some(profile.white_point);
    [profile.description, profile.copyright] = [texts.description, texts.copyright].map(
        |text| Some(ProfileText::Localizable(vec![
            LocalizableString::new(texts.language.into(), texts.country.into(), text.into())
        ]))
    );
    profile.encode().ok()
}

/// The bytes of an encoded profile before and behind its creation time.
pub open spec fn around_time(encoded: Option<Vec<u8>>) -> Option<(Seq<u8>, Seq<u8>)> {
    match encoded {
        Some(bytes) => Some(
            (bytes@.subrange(0, 24), bytes@.subrange(36, bytes@.len() as int)),
        ),
        None => None,
    }
}

/// The transfer characteristics that an ICC profile is made with: the BT.709
/// family of curves is rendered as sRGB.
pub open spec fn rendered_transfer(transfer_characteristics: u16) -> u16 {
    if transfer_characteristics == 1 || transfer_characteristics == 6
        || transfer_characteristics == 14 || transfer_characteristics == 15 {
        13
    } else {
        transfer_characteristics
    }
}

/// The codes that the ICC profile for an nclx profile is made of: none where
/// the profile is undefined or a code does not fit in a byte. The profile
/// describes decoded samples, so the matrix is the identity, in full range.
pub open spec fn profile_codes(nclx: NclxColorProfile) -> Option<ColorCodes> {
    if nclx.is_undefined || nclx.colour_primaries > 255 || rendered_transfer(
        nclx.transfer_characteristics,
    ) > 255 {
        None
    } else {
        Some(
            ColorCodes {
                colour_primaries: nclx.colour_primaries as u8,
                transfer_characteristics: rendered_transfer(nclx.transfer_characteristics) as u8,
                matrix_coefficients: 0,
                full_range: true,
            },
        )
    }
}

/// The codes that the ICC profile for an nclx profile is made of.
pub fn profile_codes_from_nclx(nclx: &NclxColorProfile) -> (codes: Option<ColorCodes>)
    ensures
        codes == profile_codes(*nclx),
{
    if nclx.is_undefined {
        return None;
    }
    let transfer: u16 = match nclx.transfer_characteristics {
        1 | 6 | 14 | 15 => 13,
        other => other,
    };
    if nclx.colour_primaries > 255 || transfer > 255 {
        return None;
    }
    Some(
        ColorCodes {
            colour_primaries: nclx.colour_primaries as u8,
            transfer_characteristics: transfer as u8,
            matrix_coefficients: 0,
            full_range: true,
        },
    )
}

/// The template of a description: a code of one digit is written with a
/// leading zero.
pub open spec fn description_template(codes: ColorCodes) -> &'static str {
    if codes.colour_primaries < 10 {
        if codes.transfer_characteristics < 10 {
            "CICP 0{}/0{} RGB"
        } else {
            "CICP 0{}/{} RGB"
        }
    } else if codes.transfer_characteristics < 10 {
        "CICP {}/0{} RGB"
    } else {
        "CICP {}/{} RGB"
    }
}

/// The description of a profile that is made from codes.
pub open spec fn description(codes: ColorCodes) -> Detail {
    Detail::Two(
        description_template(codes),
        Arg::Num(codes.colour_primaries as i128),
        Arg::Num(codes.transfer_characteristics as i128),
    )
}

/// The description of a profile that is made from codes.
pub fn profile_description(codes: ColorCodes) -> (text: String)
    ensures
        text@ == description(codes).text(),
{
    let template: &'static str = if codes.colour_primaries < 10 {
        if codes.transfer_characteristics < 10 {
            "CICP 0{}/0{} RGB"
        } else {
            "CICP 0{}/{} RGB"
        }
    } else if codes.transfer_characteristics < 10 {
        "CICP {}/0{} RGB"
    } else {
        "CICP {}/{} RGB"
    };
    Detail::Two(
        template,
        Arg::Num(codes.colour_primaries as i128),
        Arg::Num(codes.transfer_characteristics as i128),
    ).render()
}

/// The creation time that a profile is given: the first of January 1970.
pub open spec fn epoch_date_time() -> Seq<u8> {
    seq![0x07, 0xB2, 0, 1, 0, 1, 0, 0, 0, 0, 0, 0]
}

/// Sets the creation time of an encoded ICC profile, which stands in bytes 24
/// to 35, to a fixed one. A profile that is too short has none.
pub fn pin_icc_creation_time(encoded: Vec<u8>) -> (pinned: Option<Vec<u8>>)
    ensures
        encoded@.len() < 36 ==> pinned is None,
        encoded@.len() >= 36 ==> pinned is Some && pinned->0@ == encoded@.subrange(0, 24)
            + epoch_date_time() + encoded@.subrange(36, encoded@.len() as int),
{
    let mut encoded: Vec<u8> = encoded;
    if encoded.len() < 36 {
        return None;
    }
    let ghost before = encoded@;
    encoded[24] = 0x07;
    encoded[25] = 0xB2;
    encoded[26] = 0;
    encoded[27] = 1;
    encoded[28] = 0;
    encoded[29] = 1;
    encoded[30] = 0;
    encoded[31] = 0;
    encoded[32] = 0;
    encoded[33] = 0;
    encoded[34] = 0;
    encoded[35] = 0;
    assert(encoded@ =~= before.subrange(0, 24) + epoch_date_time() + before.subrange(
        36,
        before.len() as int,
    ));
    Some(encoded)
}

/// The bytes of a profile before and behind its creation time, with the first
/// of January 1970 in that place.
pub open spec fn with_epoch(around: (Seq<u8>, Seq<u8>)) -> Seq<u8> {
    around.0 + epoch_date_time() + around.1
}

/// The ICC profile for an nclx profile. It describes how still images are
/// rendered, with the canonical D50 illuminant of ICC profiles.
pub open spec fn synthesized(nclx: NclxColorProfile) -> Option<Seq<u8>> {
    match profile_codes(nclx) {
        None => None,
        Some(codes) => if !names_primaries(codes.colour_primaries) || !names_transfer_curve(
            codes.transfer_characteristics,
        ) {
            None
        } else {
            match encoded_around_time(
                (
                    codes.colour_primaries,
                    codes.transfer_characteristics,
                    codes.matrix_coefficients,
                    codes.full_range,
                ),
                ("0.964202880859375"@, "1"@, "0.8249053955078125"@),
                ("en"@, "US"@),
                description(codes).text(),
                "Public Domain."@,
            ) {
                None => None,
                Some(around) => Some(with_epoch(around)),
            }
        },
    }
}

/// Makes the ICC profile for an nclx profile.
pub fn nclx_to_icc_profile(nclx: &NclxColorProfile) -> (profile: Option<Vec<u8>>)
    ensures
        match synthesized(*nclx) {
            Some(bytes) => profile is Some && profile->0@ == bytes,
            None => profile is None,
        },
        profile matches Some(profile) ==> profile@.len() >= 36 && profile@.subrange(24, 36)
            == epoch_date_time(),
{
    let codes: ColorCodes = match profile_codes_from_nclx(nclx) {
        Some(codes) => codes,
        None => return None,
    };
    if !is_matrix_shaper(codes) {
        return None;
    }
    let description: String = profile_description(codes);
    let texts: ProfileTexts<'_> = ProfileTexts {
        illuminant: ["0.964202880859375", "1", "0.8249053955078125"],
        language: "en",
        country: "US",
        description: description.as_str(),
        copyright: "Public Domain.",
    };
    match encode_profile(codes, &texts) {
        Some(encoded) => {
            let pinned: Option<Vec<u8>> = pin_icc_creation_time(encoded);
            assert(pinned->0@.subrange(24, 36) =~= epoch_date_time());
            pinned
        },
        None => None,
    }
}

/// The curves of the BT.709 family and the one of sRGB give one profile, and
/// neither the matrix nor the range of the coded samples matters.
pub proof fn lemma_one_profile(one: NclxColorProfile, other: NclxColorProfile)
    requires
        one.is_undefined == other.is_undefined,
        one.colour_primaries == other.colour_primaries,
        rendered_transfer(one.transfer_characteristics) == rendered_transfer(
            other.transfer_characteristics,
        ),
    ensures
        synthesized(one) == synthesized(other),
{
}

/// The ICC profile of an image: its own, or else the one for its nclx profile.
pub open spec fn icc_of(colr: &PrimaryItemColorProperties) -> Option<Seq<u8>> {
    match colr.icc {
        Some(profile) => Some(profile@),
        None => match colr.nclx {
            Some(nclx) => synthesized(nclx),
            None => None,
        },
    }
}

/// Whether `profile` holds the bytes `expected`, or both are nothing.
pub open spec fn profile_is(profile: Option<Vec<u8>>, expected: Option<Seq<u8>>) -> bool {
    match expected {
        Some(bytes) => profile is Some && profile->0@ == bytes,
        None => profile is None,
    }
}

/// The ICC profile of an image: its own, or else the one for its nclx profile.
pub fn icc_profile_from_color_properties(colr: &PrimaryItemColorProperties) -> (profile: Option<
    Vec<u8>,
>)
    ensures
        profile_is(profile, icc_of(colr)),
{
    if let Some(profile) = &colr.icc {
        let mut copy: Vec<u8> = Vec::new();
        copy.extend_from_slice(profile.as_slice());
        assert(copy@ =~= profile@);
        return Some(copy);
    }
    match &colr.nclx {
        Some(nclx) => nclx_to_icc_profile(nclx),
        None => None,
    }
}

/// What a `colr` property holds.
#[derive(Clone, Debug, PartialEq, Eq)]
pub enum ColorInformation {
    Nclx(NclxColorProfile),
    Icc(Vec<u8>),
}

/// The last nclx profile among the first `count` boxes.
pub open spec fn last_nclx(boxes: Seq<Option<ColorInformation>>, count: nat) -> Option<
    NclxColorProfile,
>
    decreases count,
{
    if count == 0 {
        None
    } else {
        match boxes[count - 1] {
            Some(ColorInformation::Nclx(profile)) => Some(profile),
            _ => last_nclx(boxes, (count - 1) as nat),
        }
    }
}

/// The last ICC profile among the first `count` boxes.
pub open spec fn last_icc(boxes: Seq<Option<ColorInformation>>, count: nat) -> Option<Seq<u8>>
    decreases count,
{
    if count == 0 {
        None
    } else {
        match boxes[count - 1] {
            Some(ColorInformation::Icc(profile)) => Some(profile@),
            _ => last_icc(boxes, (count - 1) as nat),
        }
    }
}

/// The colour properties of an item: of its `colr` boxes the last of each
/// kind counts, and one that could not be read counts for nothing.
pub fn color_properties_from_colr_boxes(boxes: &[Option<ColorInformation>]) -> (colr:
    PrimaryItemColorProperties)
    ensures
        colr.nclx == last_nclx(boxes@, boxes@.len()),
        profile_is(colr.icc, last_icc(boxes@, boxes@.len())),
{
    let mut nclx: Option<NclxColorProfile> = None;
    let mut icc: Option<Vec<u8>> = None;
    let mut i: usize = 0;
    while i < boxes.len()
        invariant
            i <= boxes@.len(),
            nclx == last_nclx(boxes@, i as nat),
            profile_is(icc, last_icc(boxes@, i as nat)),
        decreases boxes@.len() - i,
    {
        match &boxes[i] {
            Some(ColorInformation::Nclx(profile)) => {
                nclx = Some(*profile);
            },
            Some(ColorInformation::Icc(profile)) => {
                let mut copy: Vec<u8> = Vec::new();
                copy.extend_from_slice(profile.as_slice());
                assert(copy@ =~= profile@);
                icc = Some(copy);
            },
            None => {},
        }
        i = i + 1;
    }
    PrimaryItemColorProperties { nclx, icc }
}

} // verus!
