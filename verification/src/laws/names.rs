//! The names that mark items, and the letters that they are written in.
#[allow(unused_imports)]
use crate::items::{
    avc_alpha_type, hevc_alpha_type, is_alpha_property, is_exif_content, lower, mpeg_alpha_type,
    names_exif, same_letters, text_end, ItemProperty,
};
#[allow(unused_imports)]
use crate::uncompressed::components::channel_name;
use vstd::prelude::*;

verus! {

/// The bytes of a text of ASCII letters.
pub open spec fn ascii(text: Seq<char>) -> Seq<u8> {
    Seq::new(text.len(), |k: int| text[k] as u8)
}

/// A letter is the same in upper and lower case; nothing else is changed.
pub proof fn lemma_cases_of_letters(byte: u8, offset: u8)
    ensures
        offset < 26 ==> lower((65 + offset) as u8) == 97 + offset && lower((97 + offset) as u8)
            == 97 + offset,
        !(65 <= byte <= 90) ==> lower(byte) == byte,
        same_letters(seq![byte], seq![byte]),
{
}

/// A property marks opacity where it is an `auxC` of version 0 with one of three
/// names, which end at the first zero or at the end.
pub proof fn lemma_names_of_opacity(property: ItemProperty)
    requires
        property.payload@.len() >= 4,
        property.payload@[0] == 0,
        property.box_type@ == seq!['a' as u8, 'u' as u8, 'x' as u8, 'C' as u8],
    ensures
        avc_alpha_type() == ascii("urn:mpeg:avc:2015:auxid:1"@),
        hevc_alpha_type() == ascii("urn:mpeg:hevc:2015:auxid:1"@),
        mpeg_alpha_type() == ascii("urn:mpeg:mpegB:cicp:systems:auxiliary:alpha"@),
        property.payload@.skip(4) == ascii("urn:mpeg:avc:2015:auxid:1"@) || property.payload@.skip(4)
            == ascii("urn:mpeg:hevc:2015:auxid:1"@) || property.payload@.skip(4) == ascii(
            "urn:mpeg:mpegB:cicp:systems:auxiliary:alpha"@,
        ) ==> is_alpha_property(property),
        is_alpha_property(property) ==> {
            let end = text_end(property.payload@, 4);
            let name = property.payload@.subrange(4, end);
            name == ascii("urn:mpeg:avc:2015:auxid:1"@) || name == ascii(
                "urn:mpeg:hevc:2015:auxid:1"@,
            ) || name == ascii("urn:mpeg:mpegB:cicp:systems:auxiliary:alpha"@)
        },
{
    reveal_strlit("urn:mpeg:avc:2015:auxid:1");
    reveal_strlit("urn:mpeg:hevc:2015:auxid:1");
    reveal_strlit("urn:mpeg:mpegB:cicp:systems:auxiliary:alpha");
    assert(avc_alpha_type() =~= ascii("urn:mpeg:avc:2015:auxid:1"@));
    assert(hevc_alpha_type() =~= ascii("urn:mpeg:hevc:2015:auxid:1"@));
    assert(mpeg_alpha_type() =~= ascii("urn:mpeg:mpegB:cicp:systems:auxiliary:alpha"@));
    let payload = property.payload@;
    let name = payload.skip(4);
    if name == avc_alpha_type() || name == hevc_alpha_type() || name == mpeg_alpha_type() {
        assert forall|k: int| 4 <= k < payload.len() implies #[trigger] payload[k] != 0 by {
            assert(payload[k] == name[k - 4]);
        }
        lemma_text_to_the_end(payload, 4);
        assert(payload.subrange(4, payload.len() as int) =~= name);
    }
}

/// A text without a zero goes to the end.
proof fn lemma_text_to_the_end(bytes: Seq<u8>, place: int)
    requires
        0 <= place <= bytes.len(),
        forall|k: int| place <= k < bytes.len() ==> #[trigger] bytes[k] != 0,
    ensures
        text_end(bytes, place) == bytes.len(),
    decreases bytes.len() - place,
{
    if place < bytes.len() {
        lemma_text_to_the_end(bytes, place + 1);
    }
}

/// EXIF data are named `Exif`, or their content is `application/exif` or
/// `image/tiff`, in upper or lower case.
pub proof fn lemma_names_of_exif(name: Seq<u8>, content: Seq<u8>)
    ensures
        names_exif(name) <==> same_letters(name, ascii("exif"@)),
        is_exif_content(content) <==> same_letters(content, ascii("application/exif"@))
            || same_letters(content, ascii("image/tiff"@)),
{
    reveal_strlit("exif");
    reveal_strlit("application/exif");
    reveal_strlit("image/tiff");
    let exif = ascii("exif"@);
    let stored = seq![69u8, 120, 105, 102];
    assert forall|k: int| 0 <= k < 4 implies #[trigger] lower(stored[k]) == lower(exif[k]) by {}
    assert(ascii("application/exif"@) =~= seq![
        97u8,
        112,
        112,
        108,
        105,
        99,
        97,
        116,
        105,
        111,
        110,
        47,
        101,
        120,
        105,
        102,
    ]);
    assert(ascii("image/tiff"@) =~= seq![105u8, 109, 97, 103, 101, 47, 116, 105, 102, 102]);
}

/// Every channel has a name of its own.
pub proof fn lemma_names_of_channels(one: int, other: int)
    requires
        0 <= one < 8,
        0 <= other < 8,
    ensures
        channel_name(one)@ == channel_name(other)@ ==> one == other,
        channel_name(4)@ == seq!['r', 'e', 'd'],
        channel_name(5)@ == seq!['g', 'r', 'e', 'e', 'n'],
        channel_name(6)@ == seq!['b', 'l', 'u', 'e'],
        channel_name(2)@ == seq!['C', 'b'],
        channel_name(3)@ == seq!['C', 'r'],
{
    reveal_strlit("monochrome");
    reveal_strlit("luma");
    reveal_strlit("Cb");
    reveal_strlit("Cr");
    reveal_strlit("red");
    reveal_strlit("green");
    reveal_strlit("blue");
    reveal_strlit("alpha");
    assert(channel_name(one)@.len() == channel_name(other)@.len() && channel_name(one)@[0]
        == channel_name(other)@[0] && channel_name(one)@[1] == channel_name(other)@[1] ==> one
        == other);
    assert(channel_name(4)@ =~= seq!['r', 'e', 'd']);
    assert(channel_name(5)@ =~= seq!['g', 'r', 'e', 'e', 'n']);
    assert(channel_name(6)@ =~= seq!['b', 'l', 'u', 'e']);
    assert(channel_name(2)@ =~= seq!['C', 'b']);
    assert(channel_name(3)@ =~= seq!['C', 'r']);
}

} // verus!
