//! What is taken out of a file, and in which order.
#[allow(unused_imports)]
use crate::boxes::{
    described_bytes, describes_file, file_type_place, in_order, put_in_order, SourceTopLevelBox,
    TopLevelBoxView,
};
#[allow(unused_imports)]
use crate::grid::window::{is_batch, is_window, tiles_before};
#[allow(unused_imports)]
use crate::icc::around_time;
#[allow(unused_imports)]
use crate::transform::mapping::PrimaryItemTransformProperty;
#[allow(unused_imports)]
use crate::types::HeicView;
#[allow(unused_imports)]
use crate::yuv::rgba::converted_planes;
use vstd::prelude::*;

verus! {

/// What describes a file are the boxes `ftyp` and `meta`; their bytes follow
/// each other in the order of the boxes, and those of other boxes are left out.
pub proof fn lemma_description_of_file(boxes: Seq<TopLevelBoxView>, entry: TopLevelBoxView)
    ensures
        describes_file(entry) <==> entry.header.box_type@ == seq![
            'f' as u8,
            't' as u8,
            'y' as u8,
            'p' as u8,
        ] || entry.header.box_type@ == seq!['m' as u8, 'e' as u8, 't' as u8, 'a' as u8],
        described_bytes(Seq::empty()) == Seq::<u8>::empty(),
        described_bytes(boxes.push(entry)) == (if describes_file(entry) {
            described_bytes(boxes) + entry.bytes
        } else {
            described_bytes(boxes)
        }),
{
    let code = entry.header.box_type@;
    assert(boxes.push(entry).drop_last() =~= boxes);
    if describes_file(entry) {
        if code[0] == 'f' as u8 {
            assert(code =~= seq!['f' as u8, 't' as u8, 'y' as u8, 'p' as u8]);
        } else {
            assert(code =~= seq!['m' as u8, 'e' as u8, 't' as u8, 'a' as u8]);
        }
    }
}

/// Boxes in order stand one behind the other in the file, and none is lost or
/// added.
pub proof fn lemma_boxes_in_order(boxes: Seq<TopLevelBoxView>)
    ensures
        in_order(boxes).len() == boxes.len(),
        in_order(boxes).to_multiset() == boxes.to_multiset(),
        forall|i: int, j: int|
            0 <= i < j < boxes.len() ==> (#[trigger] in_order(boxes)[i]).offset <= (
            #[trigger] in_order(boxes)[j]).offset,
    decreases boxes.len(),
{
    broadcast use vstd::seq_lib::group_to_multiset_ensures;

    if boxes.len() > 0 {
        let before = boxes.drop_last();
        lemma_boxes_in_order(before);
        lemma_one_more_in_order(in_order(before), boxes.last());
        assert(boxes =~= before.push(boxes.last()));
    }
}

/// One more box, put in its place.
proof fn lemma_one_more_in_order(boxes: Seq<TopLevelBoxView>, entry: TopLevelBoxView)
    requires
        forall|i: int, j: int|
            0 <= i < j < boxes.len() ==> (#[trigger] boxes[i]).offset <= (#[trigger] boxes[j]).offset,
    ensures
        ({
            let more = put_in_order(boxes, entry);
            &&& more.len() == boxes.len() + 1
            &&& more.to_multiset() == boxes.push(entry).to_multiset()
            &&& forall|i: int, j: int|
                0 <= i < j < more.len() ==> (#[trigger] more[i]).offset <= (
                #[trigger] more[j]).offset
            &&& forall|k: int|
                0 <= k < more.len() ==> (#[trigger] more[k]).offset <= entry.offset || (
                boxes.len() > 0 && more[k].offset <= boxes.last().offset)
        }),
    decreases boxes.len(),
{
    broadcast use vstd::seq_lib::group_to_multiset_ensures;

    if boxes.len() > 0 && boxes.last().offset > entry.offset {
        let fewer = boxes.drop_last();
        lemma_one_more_in_order(fewer, entry);
        let part = put_in_order(fewer, entry);
        let more = put_in_order(boxes, entry);
        assert(more == part.push(boxes.last()));
        assert(boxes =~= fewer.push(boxes.last()));
        assert(more.to_multiset() =~= boxes.push(entry).to_multiset());
        assert forall|k: int| 0 <= k < part.len() implies (#[trigger] part[k]).offset
            <= boxes.last().offset by {
            if fewer.len() > 0 {
                assert(fewer.last() == boxes[boxes.len() - 2]);
            }
        }
    }
}

/// The file type is the first box with that type, where there is one.
pub proof fn lemma_file_type(boxes: Seq<SourceTopLevelBox>)
    ensures
        match file_type_place(boxes) {
            Some(place) => 0 <= place < boxes.len() && boxes[place].header.box_type@ == seq![
                'f' as u8,
                't' as u8,
                'y' as u8,
                'p' as u8,
            ] && forall|k: int|
                0 <= k < place ==> (#[trigger] boxes[k]).header.box_type@ != seq![
                    'f' as u8,
                    't' as u8,
                    'y' as u8,
                    'p' as u8,
                ],
            None => forall|k: int|
                0 <= k < boxes.len() ==> (#[trigger] boxes[k]).header.box_type@ != seq![
                    'f' as u8,
                    't' as u8,
                    'y' as u8,
                    'p' as u8,
                ],
        },
    decreases boxes.len(),
{
    if boxes.len() > 0 {
        let fewer = boxes.drop_last();
        lemma_file_type(fewer);
        let code = boxes.last().header.box_type@;
        if crate::fourcc::spells(boxes.last().header.box_type, 102, 116, 121, 112) {
            assert(code =~= seq!['f' as u8, 't' as u8, 'y' as u8, 'p' as u8]);
        }
        assert forall|k: int| 0 <= k < boxes.len() - 1 implies #[trigger] boxes[k] == fewer[k] by {}
    }
}

/// Batches follow each other: each begins behind all tiles of the earlier ones,
/// and is a window of what is left.
pub proof fn lemma_batches_follow(
    estimates: Seq<Option<u64>>,
    threads: usize,
    batches: Seq<usize>,
    k: int,
)
    requires
        0 <= k,
    ensures
        tiles_before(batches, 0) == 0,
        tiles_before(batches, k + 1) == tiles_before(batches, k) + batches[k],
        is_batch(estimates, threads, batches, k) ==> tiles_before(batches, k) < estimates.len()
            && is_window(estimates.skip(tiles_before(batches, k)), threads, batches[k]),
{
}

/// With an opacity plane, planes are converted as they are, and every transform
/// is carried out on pixels, so that colour and opacity stay together.
pub proof fn lemma_colour_and_opacity_together(
    decoded: HeicView,
    transforms: Seq<PrimaryItemTransformProperty>,
)
    ensures
        converted_planes(decoded, transforms, true) matches Ok((planes, done)) && planes == decoded
            && done == 0,
        transforms.len() == 0 ==> (converted_planes(decoded, transforms, false) matches Ok(
            (planes, done),
        ) && planes == decoded && done == 0),
{
}

/// The creation time of a profile stands in twelve bytes behind the first 24.
pub proof fn lemma_around_time(bytes: Vec<u8>)
    requires
        bytes@.len() >= 36,
    ensures
        around_time(Some(bytes)) matches Some((before, behind)) && before.len() == 24
            && behind.len() == bytes@.len() - 36 && before == bytes@.take(24) && behind
            == bytes@.skip(36),
        around_time(None) is None,
{
    assert(bytes@.subrange(0, 24) =~= bytes@.take(24));
    assert(bytes@.subrange(36, bytes@.len() as int) =~= bytes@.skip(36));
}

} // verus!
