//! What the codes of a colour profile stand for.
#[allow(unused_imports)]
use crate::icc::{
    description_template, names_primaries, names_transfer_curve, with_epoch, ColorCodes,
};
#[allow(unused_imports)]
use crate::ycbcr::{primaries_of, Chromaticity};
use vstd::prelude::*;

verus! {

/// The codes that a profile can be made from are those whose primaries are
/// known. The codes 0 and 3 are reserved, and 2 stands for nothing.
pub proof fn lemma_known_primaries(code: u8)
    ensures
        names_primaries(code) <==> primaries_of(code as u16) is Some,
        code == 0 || code == 2 || code == 3 || (13 <= code && code != 22) ==> !names_primaries(
            code,
        ),
        names_transfer_curve(code) <==> code != 0 && code != 2 && code != 3 && code <= 18,
{
}

/// The spaces that share what they have in common: 6 and 7 are one space; 5 is
/// 1 with another green; 11 and 12 differ in white alone; the spaces for video
/// and displays have the white of daylight, the older ones for film and
/// broadcasting that of standard illuminant C, and the space of code 10 is made
/// up of the coordinates themselves.
pub proof fn lemma_spaces_in_common()
    ensures
        primaries_of(6) == primaries_of(7),
        primaries_of(5)->0.red == primaries_of(1)->0.red,
        primaries_of(5)->0.blue == primaries_of(1)->0.blue,
        primaries_of(5)->0.green.y == primaries_of(1)->0.green.y,
        primaries_of(5)->0.green.x == primaries_of(1)->0.green.x - 10000,
        primaries_of(11)->0.red == primaries_of(12)->0.red,
        primaries_of(11)->0.green == primaries_of(12)->0.green,
        primaries_of(11)->0.blue == primaries_of(12)->0.blue,
        primaries_of(12)->0.blue == primaries_of(1)->0.blue,
        primaries_of(11)->0.white == (Chromaticity { x: 314000, y: 351000 }),
        forall|code: u16|
            #![trigger primaries_of(code)]
            code == 1 || code == 5 || code == 6 || code == 7 || code == 9 || code == 12 || code
                == 22 ==> primaries_of(code)->0.white == (Chromaticity { x: 312700, y: 329000 }),
        primaries_of(4)->0.white == (Chromaticity { x: 310000, y: 316000 }),
        primaries_of(8)->0.white == primaries_of(4)->0.white,
        primaries_of(10)->0.red == (Chromaticity { x: 1000000, y: 0 }),
        primaries_of(10)->0.green == (Chromaticity { x: 0, y: 1000000 }),
        primaries_of(10)->0.blue == (Chromaticity { x: 0, y: 0 }),
        primaries_of(10)->0.white == (Chromaticity { x: 333333, y: 333333 }),
        primaries_of(8)->0.red == (Chromaticity { x: 681000, y: 319000 }),
        primaries_of(8)->0.green == (Chromaticity { x: 243000, y: 692000 }),
        primaries_of(8)->0.blue == (Chromaticity { x: 145000, y: 49000 }),
        primaries_of(12)->0.red == (Chromaticity { x: 680000, y: 320000 }),
        primaries_of(12)->0.green == (Chromaticity { x: 265000, y: 690000 }),
        primaries_of(22)->0.red == (Chromaticity { x: 630000, y: 340000 }),
        primaries_of(22)->0.green == (Chromaticity { x: 295000, y: 605000 }),
        primaries_of(22)->0.blue == (Chromaticity { x: 155000, y: 77000 }),
{
}

/// In every space red lies furthest to the right and green furthest up, and
/// white lies between the three: to the left of red and to the right of blue,
/// below green and above blue.
pub proof fn lemma_shape_of_spaces(code: u16)
    ensures
        primaries_of(code) matches Some(space) ==> {
            &&& space.green.x < space.red.x
            &&& space.blue.x < space.red.x
            &&& space.red.y < space.green.y
            &&& space.blue.y < space.green.y
            &&& space.blue.x < space.white.x && space.white.x < space.red.x
            &&& space.blue.y < space.white.y && space.white.y < space.green.y
        },
{
}

/// A profile that is made from codes says that it was made at the beginning of
/// the year 1970, whatever the time is: a year in two bytes, a month, a day,
/// and no hours, minutes or seconds. Nothing else of it is changed.
pub proof fn lemma_profile_time(around: (Seq<u8>, Seq<u8>))
    requires
        around.0.len() == 24,
    ensures
        ({
            let profile = with_epoch(around);
            &&& profile.len() == 36 + around.1.len()
            &&& profile.take(24) == around.0
            &&& profile.skip(36) == around.1
            &&& 256 * profile[24] + profile[25] == 1970
            &&& 256 * profile[26] + profile[27] == 1
            &&& 256 * profile[28] + profile[29] == 1
            &&& forall|k: int| 30 <= k < 36 ==> #[trigger] profile[k] == 0
        }),
{
    let profile = with_epoch(around);
    assert(profile.take(24) =~= around.0);
    assert(profile.skip(36) =~= around.1);
}

/// The description of a profile has a zero in front of each code of one digit.
pub proof fn lemma_two_digits(codes: ColorCodes)
    ensures
        ({
            let template = description_template(codes)@;
            let first = codes.colour_primaries < 10;
            let second = codes.transfer_characteristics < 10;
            &&& template.take(5) == seq!['C', 'I', 'C', 'P', ' ']
            &&& (template[5] == '0') == first
            &&& template.len() == 14 + (if first {
                1int
            } else {
                0int
            }) + (if second {
                1int
            } else {
                0int
            })
            &&& template[template.len() - 7] == (if second {
                '0'
            } else {
                '/'
            })
        }),
{
    reveal_strlit("CICP 0{}/0{} RGB");
    reveal_strlit("CICP 0{}/{} RGB");
    reveal_strlit("CICP {}/0{} RGB");
    reveal_strlit("CICP {}/{} RGB");
}

} // verus!
