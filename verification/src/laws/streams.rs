//! What the units of a coded image say of it.
#[allow(unused_imports)]
use crate::bytes::be_value;
#[allow(unused_imports)]
use crate::hevc::coded::{coded_image, recoloured};
#[allow(unused_imports)]
use crate::hevc::estimate::{escape_at, list_bytes, working_bytes};
#[allow(unused_imports)]
use crate::hevc::frame::HeicFrame;
#[allow(unused_imports)]
use crate::hevc::nal::{class_of, is_sps, type_code, units_from, NalView};
#[allow(unused_imports)]
use crate::hevc::sps::{
    first_sps, item_sps, metadata_error, sps_metadata, unplaced, HevcSps,
};
#[allow(unused_imports)]
use crate::hevc::stream::{array_units, flat_units, HevcDecoderConfigurationBox, HevcNalArray};
#[allow(unused_imports)]
use crate::types::{DecodedHeicImageMetadata, HeicPixelLayout, HeicView, PrimaryItemColorProperties};
use vstd::prelude::*;

verus! {

/// Four bytes spell a number, the first of which counts most.
pub proof fn lemma_four_bytes_spell(bytes: Seq<u8>)
    requires
        bytes.len() == 4,
    ensures
        be_value(bytes) == 16777216 * bytes[0] + 65536 * bytes[1] + 256 * bytes[2] + bytes[3],
{
    reveal_with_fuel(be_value, 5);
    assert(bytes.drop_last().drop_last().drop_last().drop_last() =~= Seq::<u8>::empty());
}

/// The type of a unit stands in the six bits behind the first one: the first
/// byte is twice the type, plus 128 for the forbidden bit and one for the layer.
/// Types up to 31 hold coded pictures, 32 to 34 parameter sets; 33 is the
/// sequence parameter set.
pub proof fn lemma_unit_types(bytes: Seq<u8>, code: int, forbidden: int, layer: int)
    requires
        bytes.len() >= 2,
        0 <= code < 64,
        0 <= forbidden <= 1,
        0 <= layer <= 1,
        bytes[0] == 128 * forbidden + 2 * code + layer,
    ensures
        type_code(bytes) == Some(code),
        class_of(type_code(bytes)) is Vcl <==> code < 32,
        class_of(type_code(bytes)) is ParameterSet <==> 32 <= code < 35,
        class_of(type_code(bytes)) is AccessUnitDelimiter <==> code == 35,
        class_of(type_code(bytes)) is SupplementalEnhancementInfo <==> code == 39 || code == 40,
        is_sps(bytes) <==> code == 33,
{
}

/// A unit without a whole header is of no known type.
pub proof fn lemma_short_unit(bytes: Seq<u8>)
    requires
        bytes.len() < 2,
    ensures
        type_code(bytes) is None,
        class_of(type_code(bytes)) is Unknown,
        !is_sps(bytes),
{
}

/// A stream begins with the length of its first unit, in four bytes, and the
/// unit; the rest is a stream again.
pub proof fn lemma_first_unit(stream: Seq<u8>, start: int)
    requires
        0 <= start,
        start + 4 <= stream.len(),
    ensures
        ({
            let length = 16777216 * stream[start] + 65536 * stream[start + 1] + 256 * stream[start
                + 2] + stream[start + 3];
            let (units, cut) = units_from(stream, 4, start);
            &&& start + 4 + length <= stream.len() ==> {
                let (rest, rest_cut) = units_from(stream, 4, start + 4 + length);
                &&& units.len() == rest.len() + 1
                &&& units[0].offset == start + 4
                &&& units[0].bytes == stream.subrange(start + 4, start + 4 + length)
                &&& units.drop_first() == rest
                &&& cut == rest_cut
            }
            &&& start + 4 + length > stream.len() ==> units.len() == 0 && cut is Some
        }),
{
    let field = stream.subrange(start, start + 4);
    lemma_four_bytes_spell(field);
    let length = be_value(field);
    if start + 4 + length <= stream.len() {
        let (units, cut) = units_from(stream, 4, start);
        let (rest, rest_cut) = units_from(stream, 4, start + 4 + length);
        assert(units.drop_first() =~= rest);
    }
}

/// The visible image of a parameter set: the coded size without what is cut
/// off left and right, and top and bottom, which counts double where two
/// columns (chroma formats 1 and 2) or two rows (format 1) share a sample. The
/// bit depths and the layout are those of the set; where the colour planes are
/// separate, it is monochrome.
pub proof fn lemma_visible_image(sps: HevcSps)
    ensures
        ({
            let across = if sps.chroma_format_idc == 1 || sps.chroma_format_idc == 2 {
                2int
            } else {
                1int
            };
            let down = if sps.chroma_format_idc == 1 {
                2int
            } else {
                1int
            };
            let (left, right, top, bottom) = sps.conf_win_offset;
            match sps_metadata(sps) {
                Ok(metadata) => {
                    &&& metadata.width > 0
                    &&& metadata.height > 0
                    &&& metadata.width + across * left + across * right
                        == sps.pic_width_in_luma_samples
                    &&& metadata.height + down * top + down * bottom
                        == sps.pic_height_in_luma_samples
                    &&& metadata.bit_depth_luma == sps.bit_depth_y
                    &&& metadata.bit_depth_chroma == sps.bit_depth_c
                    &&& metadata.layout is Yuv400 <==> sps.separate_colour_plane_flag
                        || sps.chroma_format_idc == 0
                    &&& metadata.layout is Yuv420 <==> !sps.separate_colour_plane_flag
                        && sps.chroma_format_idc == 1
                    &&& metadata.layout is Yuv422 <==> !sps.separate_colour_plane_flag
                        && sps.chroma_format_idc == 2
                    &&& metadata.layout is Yuv444 <==> !sps.separate_colour_plane_flag
                        && sps.chroma_format_idc == 3
                },
                Err(_) => {
                    ||| across * left + across * right >= sps.pic_width_in_luma_samples
                    ||| down * top + down * bottom >= sps.pic_height_in_luma_samples
                    ||| !sps.separate_colour_plane_flag && sps.chroma_format_idc > 3
                },
            }
        }),
{
}

/// The parameter set of an item is the first one of its configuration, and
/// only where that has none, the first of its payload.
pub proof fn lemma_first_parameter_set(units: Seq<NalView>, k: int)
    requires
        0 <= k < units.len(),
        is_sps(units[k].bytes),
        forall|i: int| 0 <= i < k ==> !is_sps((#[trigger] units[i]).bytes),
    ensures
        first_sps(units) == Some(units[k]),
    decreases units.len(),
{
    if k > 0 {
        assert(!is_sps(units[0].bytes));
        let rest = units.drop_first();
        assert(rest[k - 1] == units[k]);
        assert forall|i: int| 0 <= i < k - 1 implies !is_sps((#[trigger] rest[i]).bytes) by {
            assert(rest[i] == units[i + 1]);
        }
        lemma_first_parameter_set(rest, k - 1);
    }
}

/// The parameter set of an item comes from its configuration where that has
/// one, and from its payload where it has none.
pub proof fn lemma_parameter_set_of_item(hvcc: &HevcDecoderConfigurationBox, payload: Seq<u8>)
    requires
        1 <= hvcc.nal_length_size <= 4,
    ensures
        first_sps(unplaced(hvcc.headers())) is Some ==> item_sps(hvcc, payload) is Ok && item_sps(
            hvcc,
            payload,
        )->Ok_0 == first_sps(unplaced(hvcc.headers()))->0,
        first_sps(unplaced(hvcc.headers())) is None && first_sps(
            units_from(payload, hvcc.nal_length_size as int, 0).0,
        ) is Some ==> item_sps(hvcc, payload) is Ok && item_sps(hvcc, payload)->Ok_0 == first_sps(
            units_from(payload, hvcc.nal_length_size as int, 0).0,
        )->0,
{
}

/// The units of a configuration stand array by array, in order.
pub proof fn lemma_configuration_units(arrays: Seq<HevcNalArray>, more: Seq<HevcNalArray>)
    ensures
        flat_units(arrays + more) == flat_units(arrays) + flat_units(more),
        arrays.len() == 1 ==> flat_units(arrays) == array_units(arrays[0].nal_units@),
    decreases more.len(),
{
    if arrays.len() == 1 {
        reveal_with_fuel(flat_units, 2);
        assert(arrays.drop_last() =~= Seq::<HevcNalArray>::empty());
        assert(flat_units(arrays) =~= array_units(arrays[0].nal_units@));
    }
    if more.len() == 0 {
        assert(arrays + more =~= arrays);
        assert(flat_units(arrays) + flat_units(more) =~= flat_units(arrays));
    } else {
        assert((arrays + more).drop_last() =~= arrays + more.drop_last());
        lemma_configuration_units(arrays, more.drop_last());
        assert(flat_units(arrays + more) =~= flat_units(arrays) + flat_units(more));
    }
}

/// A decoded image is accepted where it has the size, the layout and the bit
/// depths that its stream announces, and nowhere else.
pub proof fn lemma_announced_image(image: HeicView, metadata: DecodedHeicImageMetadata)
    ensures
        metadata_error(image, metadata) is None <==> image.width == metadata.width && image.height
            == metadata.height && image.layout == metadata.layout && image.bit_depth_luma
            == metadata.bit_depth_luma && image.bit_depth_chroma == metadata.bit_depth_chroma,
{
}

/// The colour properties of an item change how its image is converted, and
/// nothing else: the range and the matrix are those of an nclx profile that
/// says something, and those of the frame without one.
pub proof fn lemma_colours_of_item(image: HeicView, colr: &PrimaryItemColorProperties)
    ensures
        ({
            let result = recoloured(image, colr);
            &&& result.width == image.width
            &&& result.height == image.height
            &&& result.layout == image.layout
            &&& result.bit_depth_luma == image.bit_depth_luma
            &&& result.bit_depth_chroma == image.bit_depth_chroma
            &&& result.y_plane == image.y_plane
            &&& result.u_plane == image.u_plane
            &&& result.v_plane == image.v_plane
            &&& colr.nclx is Some && !colr.nclx->0.is_undefined ==> {
                &&& result.ycbcr_range is Full <==> colr.nclx->0.full_range_flag
                &&& result.ycbcr_matrix.matrix_coefficients == colr.nclx->0.matrix_coefficients
                &&& result.ycbcr_matrix.colour_primaries == colr.nclx->0.colour_primaries
            }
            &&& colr.nclx is None || colr.nclx->0.is_undefined ==> result == image
        }),
{
}

/// A coded item decodes to the image of its frame: with the size that its
/// container gives, where it gives one.
pub proof fn lemma_image_of_coded_item(
    stream: Seq<u8>,
    parsed: Result<HevcSps, String>,
    frame: HeicFrame,
    colr: &PrimaryItemColorProperties,
    expected: Option<(u32, u32)>,
)
    ensures
        coded_image(stream, parsed, Ok(frame), colr, expected) matches Ok(image) ==> {
            &&& frame.error() is None
            &&& image == recoloured(frame.image(), colr)
            &&& expected matches Some(size) ==> image.width == size.0 && image.height == size.1
        },
{
}

/// An escape is two zeros and a three. The bytes of a frame are those of its
/// planes in a working format: four for a pixel of luma, half as many more
/// where four pixels share their chroma, twice as many where two do, and three
/// times as many where none does.
pub proof fn lemma_working_memory(bytes: Seq<u8>, place: int)
    requires
        0 <= place,
        place + 2 < bytes.len(),
    ensures
        escape_at(bytes, place) <==> bytes[place] == 0 && bytes[place + 1] == 0 && bytes[place + 2]
            == 3,
        2 * working_bytes(HeicPixelLayout::Yuv420) == 3 * working_bytes(HeicPixelLayout::Yuv400),
        working_bytes(HeicPixelLayout::Yuv422) == 2 * working_bytes(HeicPixelLayout::Yuv400),
        working_bytes(HeicPixelLayout::Yuv444) == 3 * working_bytes(HeicPixelLayout::Yuv400),
        working_bytes(HeicPixelLayout::Yuv400) == 4,
{
}

/// A longer list never takes less memory. A short one has room for twice as many
/// entries and four more.
pub proof fn lemma_lists_grow(few: u64, many: u64, size: u64)
    requires
        few <= many,
    ensures
        list_bytes(few, size) <= list_bytes(many, size),
        list_bytes(0, size) == 0,
        0 < few < 0x1000_0000 && size < 0x1000_0000 ==> list_bytes(few, size) == (2 * few + 4)
            * size,
{
    assert(((few * 2) + 4) * size <= ((many * 2) + 4) * size) by (nonlinear_arith)
        requires
            few <= many,
            size >= 0,
    ;
    if 0 < few < 0x1000_0000 && size < 0x1000_0000 {
        assert(((few * 2) + 4) * size <= 0x2000_0004 * 0x1000_0000) by (nonlinear_arith)
            requires
                few < 0x1000_0000,
                size < 0x1000_0000,
        ;
        assert((2 * few + 4) * size == ((few * 2) + 4) * size) by (nonlinear_arith);
    }
    lemma_capped_products(few * 2 + 4, many * 2 + 4, size as int);
}

/// Products of numbers that are cut at the largest one keep their order.
proof fn lemma_capped_products(few: int, many: int, size: int)
    requires
        0 <= few <= many,
        size >= 0,
    ensures
        ({
            let top = u64::MAX as int;
            let low = if few > top {
                top
            } else {
                few
            };
            let high = if many > top {
                top
            } else {
                many
            };
            low * size <= high * size
        }),
{
    let top = u64::MAX as int;
    let low = if few > top {
        top
    } else {
        few
    };
    let high = if many > top {
        top
    } else {
        many
    };
    assert(low * size <= high * size) by (nonlinear_arith)
        requires
            low <= high,
            size >= 0,
    ;
}

} // verus!
