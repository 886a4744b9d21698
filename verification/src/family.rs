//! Which family of files an input belongs to.
use crate::errors::{DecodeError, Wording};
use crate::fourcc::{four_cc_is, FourCc};
#[allow(unused_imports)]
use crate::fourcc::spells;
use crate::guardrails::DecodeGuardrails;
use crate::items::bytes_eq_ignore_ascii_case;
#[allow(unused_imports)]
use crate::items::same_letters;
use crate::text::Detail;
use vstd::prelude::*;

verus! {

/// The families of files.
#[derive(Clone, Copy, Debug, PartialEq, Eq, Structural)]
pub enum HeifInputFamily {
    Avif,
    Heif,
}

/// The brands of a file.
#[derive(Clone, Debug, PartialEq, Eq)]
pub struct FileTypeBox {
    pub major_brand: FourCc,
    pub compatible_brands: Vec<FourCc>,
}

impl HeifInputFamily {
    /// Whether a brand is one of the family: `avif` and `avis`, or `mif1`,
    /// `msf1`, `miaf`, `heic`, `heix`, `hevc`, `hevx`, `heim` and `heis`.
    pub open spec fn has_brand(self, brand: FourCc) -> bool {
        match self {
            HeifInputFamily::Avif => spells(brand, 97, 118, 105, 102) || spells(
                brand,
                97,
                118,
                105,
                115,
            ),
            HeifInputFamily::Heif => {
                ||| spells(brand, 109, 105, 102, 49)
                ||| spells(brand, 109, 115, 102, 49)
                ||| spells(brand, 109, 105, 97, 102)
                ||| spells(brand, 104, 101, 105, 99)
                ||| spells(brand, 104, 101, 105, 120)
                ||| spells(brand, 104, 101, 118, 99)
                ||| spells(brand, 104, 101, 118, 120)
                ||| spells(brand, 104, 101, 105, 109)
                ||| spells(brand, 104, 101, 105, 115)
            },
        }
    }
}

/// Whether a file has a brand of a family.
pub open spec fn is_branded(ftyp: &FileTypeBox, family: HeifInputFamily) -> bool {
    family.has_brand(ftyp.major_brand) || exists|k: int|
        0 <= k < ftyp.compatible_brands@.len() && family.has_brand(
            #[trigger] ftyp.compatible_brands@[k],
        )
}

/// The family of a file, by its brands.
pub open spec fn family_of(ftyp: &FileTypeBox) -> Option<HeifInputFamily> {
    if is_branded(ftyp, HeifInputFamily::Avif) {
        Some(HeifInputFamily::Avif)
    } else if is_branded(ftyp, HeifInputFamily::Heif) {
        Some(HeifInputFamily::Heif)
    } else {
        None
    }
}

/// Whether a brand is one of a family.
fn brand_is_of(brand: FourCc, family: HeifInputFamily) -> (found: bool)
    ensures
        found == family.has_brand(brand),
{
    match family {
        HeifInputFamily::Avif => four_cc_is(brand, 97, 118, 105, 102) || four_cc_is(
            brand,
            97,
            118,
            105,
            115,
        ),
        HeifInputFamily::Heif => four_cc_is(brand, 109, 105, 102, 49) || four_cc_is(
            brand,
            109,
            115,
            102,
            49,
        ) || four_cc_is(brand, 109, 105, 97, 102) || four_cc_is(brand, 104, 101, 105, 99)
            || four_cc_is(brand, 104, 101, 105, 120) || four_cc_is(brand, 104, 101, 118, 99)
            || four_cc_is(brand, 104, 101, 118, 120) || four_cc_is(brand, 104, 101, 105, 109)
            || four_cc_is(brand, 104, 101, 105, 115),
    }
}

/// Whether a file has a brand of a family.
pub fn has_file_brand(ftyp: &FileTypeBox, family: HeifInputFamily) -> (found: bool)
    ensures
        found == is_branded(ftyp, family),
{
    if brand_is_of(ftyp.major_brand, family) {
        return true;
    }
    let mut k: usize = 0;
    while k < ftyp.compatible_brands.len()
        invariant
            k <= ftyp.compatible_brands@.len(),
            !family.has_brand(ftyp.major_brand),
            forall|i: int|
                0 <= i < k ==> !family.has_brand(#[trigger] ftyp.compatible_brands@[i]),
        decreases ftyp.compatible_brands@.len() - k,
    {
        if brand_is_of(ftyp.compatible_brands[k], family) {
            assert(family.has_brand(ftyp.compatible_brands@[k as int]));
            return true;
        }
        k = k + 1;
    }
    false
}

/// The family of a file, by its brands.
pub fn detect_input_family_from_ftyp(ftyp: &FileTypeBox) -> (family: Option<HeifInputFamily>)
    ensures
        family == family_of(ftyp),
{
    if has_file_brand(ftyp, HeifInputFamily::Avif) {
        return Some(HeifInputFamily::Avif);
    }
    if has_file_brand(ftyp, HeifInputFamily::Heif) {
        return Some(HeifInputFamily::Heif);
    }
    None
}

/// The family that the extension of a file name hints at: `avif`, or `heic`,
/// `heif` and `hif`, in letters of either case.
pub open spec fn hinted(extension: Seq<u8>) -> Option<HeifInputFamily> {
    if same_letters(extension, seq![97u8, 118, 105, 102]) {
        Some(HeifInputFamily::Avif)
    } else if same_letters(extension, seq![104u8, 101, 105, 99]) || same_letters(
        extension,
        seq![104u8, 101, 105, 102],
    ) || same_letters(extension, seq![104u8, 105, 102]) {
        Some(HeifInputFamily::Heif)
    } else {
        None
    }
}

/// The family that the extension of a file name hints at.
pub fn extension_family_hint(extension: Option<&[u8]>) -> (family: Option<HeifInputFamily>)
    ensures
        match extension {
            Some(extension) => family == hinted(extension@),
            None => family is None,
        },
{
    let extension: &[u8] = match extension {
        Some(extension) => extension,
        None => {
            return None;
        },
    };
    let avif: [u8; 4] = [97, 118, 105, 102];
    let heic: [u8; 4] = [104, 101, 105, 99];
    let heif: [u8; 4] = [104, 101, 105, 102];
    let hif: [u8; 3] = [104, 105, 102];
    proof {
        assert(avif@ =~= seq![97u8, 118, 105, 102]);
        assert(heic@ =~= seq![104u8, 101, 105, 99]);
        assert(heif@ =~= seq![104u8, 101, 105, 102]);
        assert(hif@ =~= seq![104u8, 105, 102]);
    }
    if bytes_eq_ignore_ascii_case(extension, avif.as_slice()) {
        return Some(HeifInputFamily::Avif);
    }
    if bytes_eq_ignore_ascii_case(extension, heic.as_slice()) || bytes_eq_ignore_ascii_case(
        extension,
        heif.as_slice(),
    ) || bytes_eq_ignore_ascii_case(extension, hif.as_slice()) {
        return Some(HeifInputFamily::Heif);
    }
    None
}

/// Return `true` when the extension is `heif`, `heic`, or `hif`.
///
/// This helper is intended as a cheap caller-side gate before HEIF-specific
/// metadata handling such as EXIF orientation inspection.
pub fn path_extension_is_heif(extension: Option<&[u8]>) -> (heif: bool)
    ensures
        heif == (extension matches Some(extension) && hinted(extension@) == Some(
            HeifInputFamily::Heif,
        )),
{
    match extension_family_hint(extension) {
        Some(HeifInputFamily::Heif) => true,
        _ => false,
    }
}

/// Return `true` when the extension is one of `heif`, `heic`, `hif`, or `avif`.
pub fn path_extension_is_heif_family(extension: Option<&[u8]>) -> (found: bool)
    ensures
        found == (extension matches Some(extension) && hinted(extension@) is Some),
{
    match extension_family_hint(extension) {
        Some(_) => true,
        None => false,
    }
}

/// The error for files of no known family.
pub open spec fn no_family_error() -> DecodeError {
    DecodeError::Unsupported(
        Wording::Template(
            Detail::Plain(
                "Unsupported HEIF/AVIF file type: could not infer image family from ftyp brands",
            ),
        ),
    )
}

/// The family of a file: by its brands, or else by a hint.
pub open spec fn resolved_family(
    detected: Option<HeifInputFamily>,
    hint: Option<HeifInputFamily>,
) -> Result<HeifInputFamily, DecodeError> {
    match (detected, hint) {
        (Some(family), _) => Ok(family),
        (None, Some(family)) => Ok(family),
        (None, None) => Err(no_family_error()),
    }
}

/// The family of a file: by its brands, or else by a hint.
pub fn resolve_input_family(
    detected: Option<HeifInputFamily>,
    hint: Option<HeifInputFamily>,
) -> (result: Result<HeifInputFamily, DecodeError>)
    ensures
        result == resolved_family(detected, hint),
{
    match detected {
        Some(family) => Ok(family),
        None => match hint {
            Some(family) => Ok(family),
            None => Err(
                DecodeError::Unsupported(
                    Wording::Template(
                        Detail::Plain(
                            "Unsupported HEIF/AVIF file type: could not infer image family from ftyp brands",
                        ),
                    ),
                ),
            ),
        },
    }
}

/// Enforce the input-size guardrail and resolve the input family from the
/// ftyp brands, falling back to the caller-provided hint.
pub fn enforce_and_resolve_input_family(
    input_bytes: u64,
    ftyp: Option<&FileTypeBox>,
    hint: Option<HeifInputFamily>,
    guardrails: &DecodeGuardrails,
) -> (result: Result<HeifInputFamily, DecodeError>)
    ensures
        match guardrails.input_error(input_bytes) {
            Some(e) => result == Err::<HeifInputFamily, DecodeError>(e),
            None => result == resolved_family(
                match ftyp {
                    Some(ftyp) => family_of(ftyp),
                    None => None,
                },
                hint,
            ),
        },
{
    guardrails.enforce_input_bytes(input_bytes)?;
    let detected: Option<HeifInputFamily> = match ftyp {
        Some(ftyp) => detect_input_family_from_ftyp(ftyp),
        None => None,
    };
    resolve_input_family(detected, hint)
}

/// The families have no brand in common.
pub proof fn lemma_families_apart(brand: FourCc)
    ensures
        !(HeifInputFamily::Avif.has_brand(brand) && HeifInputFamily::Heif.has_brand(brand)),
{
}

} // verus!
