//! The boxes at the top level of a file that is read piece by piece.
#[allow(unused_imports)]
use crate::bytes::{be_value, lemma_be_value_bound};
use crate::bytes::{read_u32_be_from, read_u64_be_from};
use crate::errors::{DecodeError, Wording};
use crate::fourcc::{four_cc_eq, four_cc_is, FourCc};
#[allow(unused_imports)]
use crate::fourcc::spells;
use crate::text::{Arg, Detail};
use vstd::prelude::*;
use vstd::slice::slice_subrange;

verus! {

/// The bytes of a box header without a large size.
pub const BASIC_BOX_HEADER_SIZE: usize = 8;

/// The bytes of a large size.
pub const LARGE_BOX_SIZE_FIELD_SIZE: usize = 8;

/// The bytes of the extended type of a `uuid` box.
pub const UUID_EXTENDED_TYPE_SIZE: usize = 16;

/// The bytes that hold every box header.
pub const TOP_LEVEL_BOX_HEADER_PROBE_SIZE: u64 = 32;

/// The header of a box at the top level.
#[derive(Clone, Copy, Debug, PartialEq, Eq)]
pub struct SourceTopLevelBoxHeader {
    pub box_type: FourCc,
    pub box_size: u64,
    pub header_size: u8,
}

/// A box at the top level.
#[derive(Clone, Debug, PartialEq, Eq)]
pub struct SourceTopLevelBox {
    pub offset: u64,
    pub header: SourceTopLevelBoxHeader,
    pub bytes: Vec<u8>,
}

/// What a box at the top level is.
pub struct TopLevelBoxView {
    pub offset: int,
    pub header: SourceTopLevelBoxHeader,
    pub bytes: Seq<u8>,
}

impl View for SourceTopLevelBox {
    type V = TopLevelBoxView;

    open spec fn view(&self) -> TopLevelBoxView {
        TopLevelBoxView { offset: self.offset as int, header: self.header, bytes: self.bytes@ }
    }
}

/// An error of a box, by its wording.
pub open spec fn box_error(detail: Detail) -> DecodeError {
    DecodeError::Unsupported(Wording::Template(detail))
}

/// An error of a box, by its wording.
fn unsupported_box(detail: Detail) -> (error: DecodeError)
    ensures
        error == box_error(detail),
{
    DecodeError::Unsupported(Wording::Template(detail))
}

/// Bytes that a header lacks.
pub open spec fn truncated(template: &'static str, offset: u64, actual: int, needed: int) -> DecodeError {
    box_error(
        Detail::Three(
            template,
            Arg::Num(offset as i128),
            Arg::Num(actual as i128),
            Arg::Num(needed as i128),
        ),
    )
}

/// The size that a header gives, and its bytes so far.
pub open spec fn size_field(probe: Seq<u8>, offset: u64, available: u64) -> Result<
    (int, int),
    DecodeError,
> {
    let size = be_value(probe.subrange(0, 4));
    if size == 1 {
        if probe.len() < 16 {
            Err(
                truncated(
                    "truncated BMFF largesize field at offset {} (available: {} bytes, required: {})",
                    offset,
                    probe.len() as int,
                    16,
                ),
            )
        } else {
            Ok((be_value(probe.subrange(8, 16)), 16))
        }
    } else if size == 0 {
        Ok((available as int, 8))
    } else {
        Ok((size, 8))
    }
}

/// The bytes of a header, with the extended type of a `uuid` box.
pub open spec fn header_length(probe: Seq<u8>, so_far: int) -> int {
    if probe[4] == 117 && probe[5] == 117 && probe[6] == 105 && probe[7] == 100 {
        so_far + 16
    } else {
        so_far
    }
}

/// The header that bytes begin with, in a file with some bytes left.
pub open spec fn header_at(probe: Seq<u8>, offset: u64, available: u64) -> Result<
    SourceTopLevelBoxHeader,
    DecodeError,
> {
    if probe.len() < 8 {
        Err(
            truncated(
                "truncated BMFF box header at offset {} (available: {} bytes, required: {})",
                offset,
                probe.len() as int,
                8,
            ),
        )
    } else {
        match size_field(probe, offset, available) {
            Err(e) => Err(e),
            Ok((size, so_far)) => {
                let length = header_length(probe, so_far);
                if probe.len() < length {
                    Err(
                        truncated(
                            "truncated BMFF uuid extended type at offset {} (available: {} bytes, required: {})",
                            offset,
                            probe.len() as int,
                            length,
                        ),
                    )
                } else if size < length {
                    Err(
                        box_error(
                            Detail::Three(
                                "invalid BMFF box size at offset {}: box_size={}, header_size={}",
                                Arg::Num(offset as i128),
                                Arg::Num(size as i128),
                                Arg::Num(length as i128),
                            ),
                        ),
                    )
                } else if size > available {
                    Err(
                        box_error(
                            Detail::Three(
                                "BMFF box at offset {} exceeds available bytes: box_size={}, available={}",
                                Arg::Num(offset as i128),
                                Arg::Num(size as i128),
                                Arg::Num(available as i128),
                            ),
                        ),
                    )
                } else {
                    Ok(
                        SourceTopLevelBoxHeader {
                            box_type: [probe[4], probe[5], probe[6], probe[7]],
                            box_size: size as u64,
                            header_size: length as u8,
                        },
                    )
                }
            },
        }
    }
}

/// Reads the header that bytes begin with.
pub fn parse_source_top_level_box_header(probe: &[u8], offset: u64, available: u64) -> (result: Result<
    SourceTopLevelBoxHeader,
    DecodeError,
>)
    ensures
        result == header_at(probe@, offset, available),
{
    let actual: usize = probe.len();
    if actual < BASIC_BOX_HEADER_SIZE {
        return Err(
            unsupported_box(
                Detail::Three(
                    "truncated BMFF box header at offset {} (available: {} bytes, required: {})",
                    Arg::Num(offset as i128),
                    Arg::Num(actual as i128),
                    Arg::Num(BASIC_BOX_HEADER_SIZE as i128),
                ),
            ),
        );
    }
    let size: u32 = read_u32_be_from(probe);
    let box_type: FourCc = [probe[4], probe[5], probe[6], probe[7]];
    let mut header_size: usize = BASIC_BOX_HEADER_SIZE;
    let box_size: u64 = if size == 1 {
        let needed: usize = BASIC_BOX_HEADER_SIZE + LARGE_BOX_SIZE_FIELD_SIZE;
        if actual < needed {
            return Err(
                unsupported_box(
                    Detail::Three(
                        "truncated BMFF largesize field at offset {} (available: {} bytes, required: {})",
                        Arg::Num(offset as i128),
                        Arg::Num(actual as i128),
                        Arg::Num(needed as i128),
                    ),
                ),
            );
        }
        header_size = needed;
        let large: &[u8] = slice_subrange(probe, BASIC_BOX_HEADER_SIZE, needed);
        assert(large@.subrange(0, 8) =~= probe@.subrange(8, 16));
        read_u64_be_from(large)
    } else if size == 0 {
        available
    } else {
        size as u64
    };
    if four_cc_is(box_type, 117, 117, 105, 100) {
        let needed: usize = header_size + UUID_EXTENDED_TYPE_SIZE;
        if actual < needed {
            return Err(
                unsupported_box(
                    Detail::Three(
                        "truncated BMFF uuid extended type at offset {} (available: {} bytes, required: {})",
                        Arg::Num(offset as i128),
                        Arg::Num(actual as i128),
                        Arg::Num(needed as i128),
                    ),
                ),
            );
        }
        header_size = needed;
    }
    if box_size < header_size as u64 {
        return Err(
            unsupported_box(
                Detail::Three(
                    "invalid BMFF box size at offset {}: box_size={}, header_size={}",
                    Arg::Num(offset as i128),
                    Arg::Num(box_size as i128),
                    Arg::Num(header_size as i128),
                ),
            ),
        );
    }
    if box_size > available {
        return Err(
            unsupported_box(
                Detail::Three(
                    "BMFF box at offset {} exceeds available bytes: box_size={}, available={}",
                    Arg::Num(offset as i128),
                    Arg::Num(box_size as i128),
                    Arg::Num(available as i128),
                ),
            ),
        );
    }
    proof {
        assert(box_type =~= header_at(probe@, offset, available)->Ok_0.box_type);
    }
    Ok(SourceTopLevelBoxHeader { box_type, box_size, header_size: header_size as u8 })
}

/// The first of some types that is a given one.
pub open spec fn place_among(wanted: Seq<FourCc>, box_type: FourCc) -> Option<int>
    decreases wanted.len(),
{
    if wanted.len() == 0 {
        None
    } else {
        match place_among(wanted.drop_last(), box_type) {
            Some(place) => Some(place),
            None => if wanted.last()@ == box_type@ {
                Some(wanted.len() - 1)
            } else {
                None
            },
        }
    }
}

/// A place that was found stays the first.
proof fn lemma_place_among(wanted: Seq<FourCc>, box_type: FourCc, few: int)
    requires
        0 <= few <= wanted.len(),
        place_among(wanted.take(few), box_type) is Some,
    ensures
        place_among(wanted, box_type) == place_among(wanted.take(few), box_type),
    decreases wanted.len() - few,
{
    if few < wanted.len() {
        assert(wanted.take(few + 1).drop_last() =~= wanted.take(few));
        lemma_place_among(wanted, box_type, few + 1);
    } else {
        assert(wanted.take(few) =~= wanted);
    }
}

/// The first of some types that is a given one.
fn find_among(wanted: &[FourCc], box_type: FourCc) -> (found: Option<usize>)
    ensures
        match place_among(wanted@, box_type) {
            None => found is None,
            Some(place) => found is Some && found->0 == place && 0 <= place < wanted@.len(),
        },
{
    let mut k: usize = 0;
    assert(wanted@.take(0) =~= Seq::<FourCc>::empty());
    while k < wanted.len()
        invariant
            k <= wanted@.len(),
            place_among(wanted@.take(k as int), box_type) is None,
        decreases wanted@.len() - k,
    {
        assert(wanted@.take(k + 1).drop_last() =~= wanted@.take(k as int));
        if four_cc_eq(wanted[k], box_type) {
            proof {
                lemma_place_among(wanted@, box_type, k + 1);
            }
            return Some(k);
        }
        k = k + 1;
    }
    assert(wanted@.take(k as int) =~= wanted@);
    None
}

/// Whether every type was found.
pub open spec fn all_found(found: Seq<bool>) -> bool {
    forall|k: int| 0 <= k < found.len() ==> #[trigger] found[k]
}

/// Whether every type was found.
fn every_one(found: &Vec<bool>) -> (all: bool)
    ensures
        all == all_found(found@),
{
    let mut k: usize = 0;
    while k < found.len()
        invariant
            k <= found@.len(),
            forall|i: int| 0 <= i < k ==> #[trigger] found@[i],
        decreases found@.len() - k,
    {
        if !found[k] {
            assert(!found@[k as int]);
            return false;
        }
        k = k + 1;
    }
    true
}

/// The bytes of a file in which a box header is looked for.
pub open spec fn probe_at(file: Seq<u8>, cursor: int) -> Seq<u8> {
    file.subrange(
        cursor,
        if file.len() - cursor < 32 {
            file.len() as int
        } else {
            cursor + 32
        },
    )
}

/// The error for a box that memory cannot hold.
pub open spec fn unheld_box(header: SourceTopLevelBoxHeader, cursor: int) -> DecodeError {
    box_error(
        Detail::Three(
            "top-level box {} at offset {} has size {} that does not fit in usize",
            Arg::FourCc(header.box_type),
            Arg::Num(cursor as i128),
            Arg::Num(header.box_size as i128),
        ),
    )
}

/// The first box of each wanted type, from a place in a file on, behind those
/// that were found before it. The search ends when every type was found.
pub open spec fn boxes_from(
    file: Seq<u8>,
    wanted: Seq<FourCc>,
    cursor: int,
    found: Seq<bool>,
    selected: Seq<TopLevelBoxView>,
) -> Result<Seq<TopLevelBoxView>, DecodeError>
    decreases file.len() - cursor,
{
    if cursor >= file.len() || cursor < 0 {
        Ok(selected)
    } else {
        match header_at(probe_at(file, cursor), cursor as u64, (file.len() - cursor) as u64) {
            Err(e) => Err(e),
            Ok(header) => if header.box_size > usize::MAX {
                Err(unheld_box(header, cursor))
            } else if header.box_size == 0 {
                Ok(selected)
            } else {
                let end = cursor + header.box_size;
                match place_among(wanted, header.box_type) {
                    Some(place) if !found[place] => {
                        let more = selected.push(
                            TopLevelBoxView {
                                offset: cursor,
                                header,
                                bytes: file.subrange(cursor, end),
                            },
                        );
                        let seen = found.update(place, true);
                        if all_found(seen) {
                            Ok(more)
                        } else {
                            boxes_from(file, wanted, end, seen, more)
                        }
                    },
                    _ => boxes_from(file, wanted, end, found, selected),
                }
            },
        }
    }
}

/// The first box of each wanted type in a file.
pub open spec fn selected_boxes(file: Seq<u8>, wanted: Seq<FourCc>) -> Result<
    Seq<TopLevelBoxView>,
    DecodeError,
> {
    if wanted.len() == 0 {
        Ok(Seq::empty())
    } else {
        boxes_from(file, wanted, 0, Seq::new(wanted.len(), |k: int| false), Seq::empty())
    }
}

/// What boxes are.
pub open spec fn box_views(boxes: Seq<SourceTopLevelBox>) -> Seq<TopLevelBoxView> {
    boxes.map_values(|entry: SourceTopLevelBox| entry@)
}

/// Whether the bytes that are read are those of a file, where reading
/// succeeds.
pub open spec fn reads_file<R: Fn(u64, usize) -> Result<Vec<u8>, DecodeError>>(
    read_range: R,
    file: Seq<u8>,
) -> bool {
    forall|offset: u64, length: usize, bytes: Vec<u8>|
        offset + length <= file.len() && #[trigger] read_range.ensures(
            (offset, length),
            Ok::<Vec<u8>, DecodeError>(bytes),
        ) ==> bytes@ == file.subrange(offset as int, offset + length)
}

/// The bytes that are asked for where a box header is looked for.
pub open spec fn probe_length(available: int) -> int {
    if available < 32 {
        available
    } else {
        32
    }
}

/// A search of a source for the first box of each wanted type: where it stands,
/// which types it found, and their boxes.
pub struct BoxSearch {
    pub source_len: int,
    pub wanted: Seq<FourCc>,
    pub cursor: int,
    pub found: Seq<bool>,
    pub selected: Seq<TopLevelBoxView>,
}

impl BoxSearch {
    /// A search that has not begun.
    pub open spec fn start(source_len: int, wanted: Seq<FourCc>) -> BoxSearch {
        BoxSearch {
            source_len,
            wanted,
            cursor: 0,
            found: Seq::new(wanted.len(), |k: int| false),
            selected: Seq::empty(),
        }
    }

    /// The bytes from where the search stands on.
    pub open spec fn left(self) -> int {
        if self.cursor < self.source_len {
            self.source_len - self.cursor
        } else {
            0
        }
    }

    /// The place of a box among the wanted types, where it was not found before.
    pub open spec fn wants(self, header: SourceTopLevelBoxHeader) -> Option<int> {
        match place_among(self.wanted, header.box_type) {
            Some(place) if !self.found[place] => Some(place),
            _ => None,
        }
    }

    /// The search behind a box.
    pub open spec fn behind(self, header: SourceTopLevelBoxHeader) -> BoxSearch {
        BoxSearch { cursor: self.cursor + header.box_size, ..self }
    }

    /// The search behind a box that it wants.
    pub open spec fn with_box(
        self,
        header: SourceTopLevelBoxHeader,
        place: int,
        bytes: Seq<u8>,
    ) -> BoxSearch {
        BoxSearch {
            cursor: self.cursor + header.box_size,
            found: self.found.update(place, true),
            selected: self.selected.push(
                TopLevelBoxView { offset: self.cursor, header, bytes },
            ),
            ..self
        }
    }
}

/// Whether a search that goes on gives `result`, by what `read_range` gives for
/// the header of each box that it comes to and for the bytes of each that it
/// wants. At the end of the source nothing more is read.
pub open spec fn search_gives<R: Fn(u64, usize) -> Result<Vec<u8>, DecodeError>>(
    read_range: R,
    search: BoxSearch,
    result: Result<Seq<TopLevelBoxView>, DecodeError>,
) -> bool
    decreases search.left(), 2int,
{
    if search.cursor >= search.source_len || search.cursor < 0 {
        result == Ok::<Seq<TopLevelBoxView>, DecodeError>(search.selected)
    } else {
        exists|probe: Result<Vec<u8>, DecodeError>|
            {
                &&& #[trigger] read_range.ensures(
                    (search.cursor as u64, probe_length(search.left()) as usize),
                    probe,
                )
                &&& probe_gives(read_range, search, probe, result)
            }
    }
}

/// Whether a search gives `result` after `probe` came back for the header of the
/// next box.
pub open spec fn probe_gives<R: Fn(u64, usize) -> Result<Vec<u8>, DecodeError>>(
    read_range: R,
    search: BoxSearch,
    probe: Result<Vec<u8>, DecodeError>,
    result: Result<Seq<TopLevelBoxView>, DecodeError>,
) -> bool
    decreases search.left(), 1int,
{
    match probe {
        Err(e) => result == Err::<Seq<TopLevelBoxView>, DecodeError>(e),
        Ok(bytes) => match header_at(bytes@, search.cursor as u64, search.left() as u64) {
            Err(e) => result == Err::<Seq<TopLevelBoxView>, DecodeError>(e),
            Ok(header) => if header.box_size > usize::MAX {
                result == Err::<Seq<TopLevelBoxView>, DecodeError>(
                    unheld_box(header, search.cursor),
                )
            } else {
                match search.wants(header) {
                    Some(place) => exists|read: Result<Vec<u8>, DecodeError>|
                        {
                            &&& #[trigger] read_range.ensures(
                                (search.cursor as u64, header.box_size as usize),
                                read,
                            )
                            &&& box_gives(read_range, search, header, place, read, result)
                        },
                    None => search.behind(header).left() < search.left() && search_gives(
                        read_range,
                        search.behind(header),
                        result,
                    ),
                }
            },
        },
    }
}

/// Whether a search gives `result` after `read` came back for the bytes of a box
/// that it wants. With the last of the wanted boxes the search ends.
pub open spec fn box_gives<R: Fn(u64, usize) -> Result<Vec<u8>, DecodeError>>(
    read_range: R,
    search: BoxSearch,
    header: SourceTopLevelBoxHeader,
    place: int,
    read: Result<Vec<u8>, DecodeError>,
    result: Result<Seq<TopLevelBoxView>, DecodeError>,
) -> bool
    decreases search.left(), 0int,
{
    match read {
        Err(e) => result == Err::<Seq<TopLevelBoxView>, DecodeError>(e),
        Ok(bytes) => {
            let next = search.with_box(header, place, bytes@);
            if all_found(next.found) {
                result == Ok::<Seq<TopLevelBoxView>, DecodeError>(next.selected)
            } else {
                next.left() < search.left() && search_gives(read_range, next, result)
            }
        },
    }
}

/// Whether the search for the first box of each wanted type in a source gives
/// `result`. Where no type is wanted, nothing is read.
pub open spec fn source_search_gives<R: Fn(u64, usize) -> Result<Vec<u8>, DecodeError>>(
    read_range: R,
    source_len: u64,
    wanted: Seq<FourCc>,
    result: Result<Seq<TopLevelBoxView>, DecodeError>,
) -> bool {
    if wanted.len() == 0 {
        result == Ok::<Seq<TopLevelBoxView>, DecodeError>(Seq::empty())
    } else {
        search_gives(read_range, BoxSearch::start(source_len as int, wanted), result)
    }
}

/// Whether the search of a file from a place on asks for a range of it: for the
/// header of a box that it comes to, or for the bytes of a wanted box that was
/// not found before.
pub open spec fn search_asks(
    file: Seq<u8>,
    wanted: Seq<FourCc>,
    cursor: int,
    found: Seq<bool>,
    offset: int,
    length: int,
) -> bool
    decreases file.len() - cursor,
{
    if cursor >= file.len() || cursor < 0 {
        false
    } else {
        ||| offset == cursor && length == probe_length(file.len() - cursor)
        ||| match header_at(probe_at(file, cursor), cursor as u64, (file.len() - cursor) as u64) {
            Err(_) => false,
            Ok(header) => if header.box_size > usize::MAX || header.box_size == 0 {
                false
            } else {
                let end = cursor + header.box_size;
                match place_among(wanted, header.box_type) {
                    Some(place) if !found[place] => {
                        let seen = found.update(place, true);
                        ||| offset == cursor && length == header.box_size
                        ||| !all_found(seen) && search_asks(
                            file,
                            wanted,
                            end,
                            seen,
                            offset,
                            length,
                        )
                    },
                    _ => search_asks(file, wanted, end, found, offset, length),
                }
            },
        }
    }
}

/// Whether the search of a file, from where it stands, asks for a range that can
/// fail in a way.
pub open spec fn search_fails<R: Fn(u64, usize) -> Result<Vec<u8>, DecodeError>>(
    read_range: R,
    file: Seq<u8>,
    wanted: Seq<FourCc>,
    cursor: int,
    found: Seq<bool>,
    error: DecodeError,
) -> bool {
    exists|offset: u64, length: usize|
        {
            &&& #[trigger] read_range.ensures(
                (offset, length),
                Err::<Vec<u8>, DecodeError>(error),
            )
            &&& search_asks(file, wanted, cursor, found, offset as int, length as int)
        }
}

/// Whether `result` is what a search of a file finds. A failure may also be one
/// of reading a range that the search asks for.
pub open spec fn found_in_file<R: Fn(u64, usize) -> Result<Vec<u8>, DecodeError>>(
    read_range: R,
    file: Seq<u8>,
    wanted: Seq<FourCc>,
    result: Result<Seq<TopLevelBoxView>, DecodeError>,
) -> bool {
    ||| selected_boxes(file, wanted) == result
    ||| result matches Err(e) && wanted.len() > 0 && search_fails(
        read_range,
        file,
        wanted,
        0,
        Seq::new(wanted.len(), |k: int| false),
        e,
    )
}

/// Whether every range of a file can be read, and gives its bytes.
pub open spec fn reads_whole<R: Fn(u64, usize) -> Result<Vec<u8>, DecodeError>>(
    read_range: R,
    file: Seq<u8>,
) -> bool {
    &&& reads_file(read_range, file)
    &&& forall|offset: u64, length: usize, error: DecodeError|
        offset + length <= file.len() ==> !(#[trigger] read_range.ensures(
            (offset, length),
            Err::<Vec<u8>, DecodeError>(error),
        ))
}

/// A search of a source that is read from a file finds what a search of the file
/// finds.
proof fn lemma_search_of_file<R: Fn(u64, usize) -> Result<Vec<u8>, DecodeError>>(
    read_range: R,
    file: Seq<u8>,
    search: BoxSearch,
    result: Result<Seq<TopLevelBoxView>, DecodeError>,
)
    requires
        reads_file(read_range, file),
        search.source_len == file.len() <= u64::MAX,
        search_gives(read_range, search, result),
    ensures
        boxes_from(file, search.wanted, search.cursor, search.found, search.selected) == result || (
        result matches Err(e) && search_fails(
            read_range,
            file,
            search.wanted,
            search.cursor,
            search.found,
            e,
        )),
    decreases search.left(),
{
    let cursor = search.cursor;
    if 0 <= cursor < file.len() {
        let asked = probe_length(search.left()) as usize;
        let probe = choose|probe: Result<Vec<u8>, DecodeError>|
            {
                &&& #[trigger] read_range.ensures((cursor as u64, asked), probe)
                &&& probe_gives(read_range, search, probe, result)
            };
        if let Ok(bytes) = probe {
            assert(bytes@ == probe_at(file, cursor));
            let headed = header_at(bytes@, cursor as u64, search.left() as u64);
            if headed is Ok && headed->Ok_0.box_size <= usize::MAX {
                let header = headed->Ok_0;
                match search.wants(header) {
                    Some(place) => {
                        let read = choose|read: Result<Vec<u8>, DecodeError>|
                            {
                                &&& #[trigger] read_range.ensures(
                                    (cursor as u64, header.box_size as usize),
                                    read,
                                )
                                &&& box_gives(read_range, search, header, place, read, result)
                            };
                        if let Ok(whole) = read {
                            let next = search.with_box(header, place, whole@);
                            assert(whole@ == file.subrange(cursor, cursor + header.box_size));
                            if !all_found(next.found) {
                                lemma_search_of_file(read_range, file, next, result);
                            }
                        }
                    },
                    None => {
                        lemma_search_of_file(read_range, file, search.behind(header), result);
                    },
                }
            }
        }
    }
}

/// A search asks for nothing behind the end of a file.
proof fn lemma_asked_inside(
    file: Seq<u8>,
    wanted: Seq<FourCc>,
    cursor: int,
    found: Seq<bool>,
    offset: int,
    length: int,
)
    requires
        file.len() <= u64::MAX,
        search_asks(file, wanted, cursor, found, offset, length),
    ensures
        0 <= offset,
        offset + length <= file.len(),
    decreases file.len() - cursor,
{
    let headed = header_at(probe_at(file, cursor), cursor as u64, (file.len() - cursor) as u64);
    if headed is Ok && 0 < headed->Ok_0.box_size <= usize::MAX {
        let header = headed->Ok_0;
        let end = cursor + header.box_size;
        match place_among(wanted, header.box_type) {
            Some(place) if !found[place] => {
                let seen = found.update(place, true);
                if !all_found(seen) && search_asks(file, wanted, end, seen, offset, length) {
                    lemma_asked_inside(file, wanted, end, seen, offset, length);
                }
            },
            _ => {
                if search_asks(file, wanted, end, found, offset, length) {
                    lemma_asked_inside(file, wanted, end, found, offset, length);
                }
            },
        }
    }
}

/// A source that is read from a file, every range of which can be read, gives
/// the boxes of the file, or the error of the file.
pub proof fn lemma_boxes_of_file<R: Fn(u64, usize) -> Result<Vec<u8>, DecodeError>>(
    read_range: R,
    file: Seq<u8>,
    wanted: Seq<FourCc>,
    result: Result<Seq<TopLevelBoxView>, DecodeError>,
)
    requires
        reads_whole(read_range, file),
        file.len() <= u64::MAX,
        source_search_gives(read_range, file.len() as u64, wanted, result),
    ensures
        result == selected_boxes(file, wanted),
{
    if wanted.len() > 0 {
        let search = BoxSearch::start(file.len() as int, wanted);
        lemma_search_of_file(read_range, file, search, result);
        if let Err(e) = result {
            if search_fails(read_range, file, wanted, 0, search.found, e) {
                let (offset, length) = choose|offset: u64, length: usize|
                    {
                        &&& #[trigger] read_range.ensures(
                            (offset, length),
                            Err::<Vec<u8>, DecodeError>(e),
                        )
                        &&& search_asks(
                            file,
                            wanted,
                            0,
                            search.found,
                            offset as int,
                            length as int,
                        )
                    };
                lemma_asked_inside(file, wanted, 0, search.found, offset as int, length as int);
            }
        }
    }
}

/// What boxes, or an error, are.
pub open spec fn boxes_result(result: Result<Vec<SourceTopLevelBox>, DecodeError>) -> Result<
    Seq<TopLevelBoxView>,
    DecodeError,
> {
    match result {
        Ok(boxes) => Ok(box_views(boxes@)),
        Err(e) => Err(e),
    }
}

/// Finds the first box of each wanted type, reading by `read_range`.
pub fn read_selected_top_level_boxes_from_source<
    R: Fn(u64, usize) -> Result<Vec<u8>, DecodeError>,
>(source_len: u64, selected_types: &[FourCc], read_range: &R) -> (result: Result<
    Vec<SourceTopLevelBox>,
    DecodeError,
>)
    requires
        forall|offset: u64, length: usize| #[trigger] read_range.requires((offset, length)),
    ensures
        source_search_gives(*read_range, source_len, selected_types@, boxes_result(result)),
        forall|file: Seq<u8>| #[trigger]
            reads_file(*read_range, file) && file.len() == source_len ==> found_in_file(
                *read_range,
                file,
                selected_types@,
                boxes_result(result),
            ),
{
    let result: Result<Vec<SourceTopLevelBox>, DecodeError> = search_source(
        source_len,
        selected_types,
        read_range,
    );
    proof {
        assert forall|file: Seq<u8>| #[trigger]
            reads_file(*read_range, file) && file.len() == source_len implies found_in_file(
            *read_range,
            file,
            selected_types@,
            boxes_result(result),
        ) by {
            if selected_types@.len() > 0 {
                lemma_search_of_file(
                    *read_range,
                    file,
                    BoxSearch::start(source_len as int, selected_types@),
                    boxes_result(result),
                );
            }
        }
    }
    result
}

/// Finds the first box of each wanted type, reading by `read_range`.
fn search_source<R: Fn(u64, usize) -> Result<Vec<u8>, DecodeError>>(
    source_len: u64,
    selected_types: &[FourCc],
    read_range: &R,
) -> (result: Result<Vec<SourceTopLevelBox>, DecodeError>)
    requires
        forall|offset: u64, length: usize| #[trigger] read_range.requires((offset, length)),
    ensures
        source_search_gives(*read_range, source_len, selected_types@, boxes_result(result)),
{
    let mut selected: Vec<SourceTopLevelBox> = Vec::new();
    assert(box_views(selected@) =~= Seq::<TopLevelBoxView>::empty());
    if selected_types.len() == 0 {
        return Ok(selected);
    }
    let mut found: Vec<bool> = vec![false; selected_types.len()];
    assert(found@ =~= Seq::new(selected_types@.len(), |k: int| false));
    let ghost start = BoxSearch::start(source_len as int, selected_types@);
    let ghost mut search = start;
    let mut cursor: u64 = 0;
    while cursor < source_len
        invariant
            cursor <= source_len,
            found@.len() == selected_types@.len(),
            selected_types@.len() > 0,
            forall|offset: u64, length: usize| #[trigger] read_range.requires((offset, length)),
            search == (BoxSearch {
                source_len: source_len as int,
                wanted: selected_types@,
                cursor: cursor as int,
                found: found@,
                selected: box_views(selected@),
            }),
            start == BoxSearch::start(source_len as int, selected_types@),
            forall|outcome: Result<Seq<TopLevelBoxView>, DecodeError>| #[trigger]
                search_gives(*read_range, search, outcome) ==> search_gives(
                    *read_range,
                    start,
                    outcome,
                ),
        decreases source_len - cursor,
    {
        let available: u64 = source_len - cursor;
        let probe_len: usize = if available < TOP_LEVEL_BOX_HEADER_PROBE_SIZE {
            available as usize
        } else {
            TOP_LEVEL_BOX_HEADER_PROBE_SIZE as usize
        };
        let probed: Result<Vec<u8>, DecodeError> = read_range(cursor, probe_len);
        assert(read_range.ensures(
            (search.cursor as u64, probe_length(search.left()) as usize),
            probed,
        ));
        assert forall|outcome: Result<Seq<TopLevelBoxView>, DecodeError>| #[trigger]
            probe_gives(*read_range, search, probed, outcome) implies search_gives(
            *read_range,
            start,
            outcome,
        ) by {
            assert(search_gives(*read_range, search, outcome));
        }
        let probe: Vec<u8> = match probed {
            Err(e) => {
                assert(probe_gives(*read_range, search, probed, Err(e)));
                return Err(e);
            },
            Ok(probe) => probe,
        };
        let header: SourceTopLevelBoxHeader = match parse_source_top_level_box_header(
            probe.as_slice(),
            cursor,
            available,
        ) {
            Err(e) => {
                assert(probe_gives(*read_range, search, probed, Err(e)));
                return Err(e);
            },
            Ok(header) => header,
        };
        if header.box_size > usize::MAX as u64 {
            let e: DecodeError = unsupported_box(
                Detail::Three(
                    "top-level box {} at offset {} has size {} that does not fit in usize",
                    Arg::FourCc(header.box_type),
                    Arg::Num(cursor as i128),
                    Arg::Num(header.box_size as i128),
                ),
            );
            assert(probe_gives(*read_range, search, probed, Err(e)));
            return Err(e);
        }
        let ghost mut next = search.behind(header);
        let wanted_place: Option<usize> = match find_among(selected_types, header.box_type) {
            Some(place) => if found[place] {
                None
            } else {
                Some(place)
            },
            None => None,
        };
        match wanted_place {
            Some(place) => {
                let read: Result<Vec<u8>, DecodeError> = read_range(
                    cursor,
                    header.box_size as usize,
                );
                assert(search.wants(header) == Some(place as int));
                assert forall|outcome: Result<Seq<TopLevelBoxView>, DecodeError>| #[trigger]
                    box_gives(
                        *read_range,
                        search,
                        header,
                        place as int,
                        read,
                        outcome,
                    ) implies search_gives(*read_range, start, outcome) by {
                    assert(probe_gives(*read_range, search, probed, outcome));
                }
                let bytes: Vec<u8> = match read {
                    Err(e) => {
                        assert(box_gives(
                            *read_range,
                            search,
                            header,
                            place as int,
                            read,
                            Err(e),
                        ));
                        return Err(e);
                    },
                    Ok(bytes) => bytes,
                };
                let ghost before = selected@;
                let entry: SourceTopLevelBox = SourceTopLevelBox { offset: cursor, header, bytes };
                selected.push(entry);
                assert(box_views(selected@) =~= box_views(before).push(entry@));
                found.set(place, true);
                proof {
                    next = search.with_box(header, place as int, bytes@);
                }
                if every_one(&found) {
                    assert(box_gives(
                        *read_range,
                        search,
                        header,
                        place as int,
                        read,
                        Ok(box_views(selected@)),
                    ));
                    return Ok(selected);
                }
                assert forall|outcome: Result<Seq<TopLevelBoxView>, DecodeError>| #[trigger]
                    search_gives(*read_range, next, outcome) implies search_gives(
                    *read_range,
                    start,
                    outcome,
                ) by {
                    assert(box_gives(
                        *read_range,
                        search,
                        header,
                        place as int,
                        read,
                        outcome,
                    ));
                }
            },
            None => {
                assert forall|outcome: Result<Seq<TopLevelBoxView>, DecodeError>| #[trigger]
                    search_gives(*read_range, next, outcome) implies search_gives(
                    *read_range,
                    start,
                    outcome,
                ) by {
                    assert(probe_gives(*read_range, search, probed, outcome));
                }
            },
        }
        cursor = cursor + header.box_size;
        proof {
            search = next;
        }
    }
    assert(search_gives(*read_range, search, Ok(box_views(selected@))));
    Ok(selected)
}

/// Boxes in order, and one more: it comes behind those that do not start
/// after it.
pub open spec fn put_in_order(boxes: Seq<TopLevelBoxView>, entry: TopLevelBoxView) -> Seq<
    TopLevelBoxView,
>
    decreases boxes.len(),
{
    if boxes.len() == 0 || boxes.last().offset <= entry.offset {
        boxes.push(entry)
    } else {
        put_in_order(boxes.drop_last(), entry).push(boxes.last())
    }
}

/// Boxes in the order in which they start.
pub open spec fn in_order(boxes: Seq<TopLevelBoxView>) -> Seq<TopLevelBoxView>
    decreases boxes.len(),
{
    if boxes.len() == 0 {
        boxes
    } else {
        put_in_order(in_order(boxes.drop_last()), boxes.last())
    }
}

/// Whether a box says what the file is, or describes its items.
pub open spec fn describes_file(entry: TopLevelBoxView) -> bool {
    spells(entry.header.box_type, 102, 116, 121, 112) || spells(
        entry.header.box_type,
        109,
        101,
        116,
        97,
    )
}

/// The bytes of the boxes that describe a file, one after another.
pub open spec fn described_bytes(boxes: Seq<TopLevelBoxView>) -> Seq<u8>
    decreases boxes.len(),
{
    if boxes.len() == 0 {
        Seq::empty()
    } else if describes_file(boxes.last()) {
        described_bytes(boxes.drop_last()) + boxes.last().bytes
    } else {
        described_bytes(boxes.drop_last())
    }
}

/// What the boxes at places are.
pub open spec fn boxes_at(boxes: Seq<SourceTopLevelBox>, places: Seq<usize>) -> Seq<
    TopLevelBoxView,
> {
    places.map_values(|place: usize| boxes[place as int]@)
}

/// Boxes that start at or before one another, and one that starts after the
/// rest from a place on.
proof fn lemma_put_in_order(boxes: Seq<TopLevelBoxView>, entry: TopLevelBoxView, at: int)
    requires
        0 <= at <= boxes.len(),
        at > 0 ==> boxes[at - 1].offset <= entry.offset,
        forall|k: int| at <= k < boxes.len() ==> (#[trigger] boxes[k]).offset > entry.offset,
    ensures
        put_in_order(boxes, entry) == boxes.insert(at, entry),
    decreases boxes.len(),
{
    if boxes.len() == 0 || boxes.last().offset <= entry.offset {
        assert(at == boxes.len());
        assert(boxes.push(entry) =~= boxes.insert(at, entry));
    } else {
        assert(at < boxes.len());
        lemma_put_in_order(boxes.drop_last(), entry, at);
        assert(boxes.drop_last().insert(at, entry).push(boxes.last()) =~= boxes.insert(at, entry));
    }
}

/// The places of boxes, in the order in which the boxes start.
fn ordered_places(boxes: &[SourceTopLevelBox]) -> (places: Vec<usize>)
    ensures
        forall|k: int| 0 <= k < places@.len() ==> #[trigger] places@[k] < boxes@.len(),
        boxes_at(boxes@, places@) == in_order(box_views(boxes@)),
{
    let mut places: Vec<usize> = Vec::new();
    let mut next: usize = 0;
    let ghost all = box_views(boxes@);
    proof {
        assert(all.take(0) =~= Seq::<TopLevelBoxView>::empty());
        assert(boxes_at(boxes@, places@) =~= Seq::<TopLevelBoxView>::empty());
    }
    while next < boxes.len()
        invariant
            next <= boxes@.len(),
            all == box_views(boxes@),
            forall|k: int| 0 <= k < places@.len() ==> #[trigger] places@[k] < boxes@.len(),
            boxes_at(boxes@, places@) == in_order(all.take(next as int)),
        decreases boxes@.len() - next,
    {
        let offset: u64 = boxes[next].offset;
        let mut at: usize = places.len();
        while at > 0 && boxes[places[at - 1]].offset > offset
            invariant
                at <= places@.len(),
                forall|k: int| 0 <= k < places@.len() ==> #[trigger] places@[k] < boxes@.len(),
                forall|k: int|
                    at <= k < places@.len() ==> boxes@[#[trigger] places@[k] as int].offset
                        > offset,
            decreases at,
        {
            at = at - 1;
        }
        let ghost before = places@;
        let ghost earlier = boxes_at(boxes@, before);
        places.insert(at, next);
        proof {
            let entry = all[next as int];
            assert(all.take(next + 1).drop_last() =~= all.take(next as int));
            assert(all.take(next + 1).last() == entry);
            assert forall|k: int| at <= k < earlier.len() implies (#[trigger] earlier[k]).offset
                > entry.offset by {
                assert(before[k] < boxes@.len());
            }
            lemma_put_in_order(earlier, entry, at as int);
            assert(boxes_at(boxes@, places@) =~= earlier.insert(at as int, entry));
        }
        next = next + 1;
    }
    assert(all.take(next as int) =~= all);
    places
}

/// The bytes of the boxes that describe a file, in the order in which the
/// boxes start.
pub fn encode_source_selected_top_level_boxes(selected: &[SourceTopLevelBox]) -> (bytes: Vec<u8>)
    ensures
        bytes@ == described_bytes(in_order(box_views(selected@))),
{
    let places: Vec<usize> = ordered_places(selected);
    let mut bytes: Vec<u8> = Vec::new();
    let mut k: usize = 0;
    let ghost all = boxes_at(selected@, places@);
    assert(all.take(0) =~= Seq::<TopLevelBoxView>::empty());
    while k < places.len()
        invariant
            k <= places@.len(),
            all == boxes_at(selected@, places@),
            forall|i: int| 0 <= i < places@.len() ==> #[trigger] places@[i] < selected@.len(),
            bytes@ == described_bytes(all.take(k as int)),
        decreases places@.len() - k,
    {
        let entry: &SourceTopLevelBox = &selected[places[k]];
        proof {
            assert(all.take(k + 1).drop_last() =~= all.take(k as int));
            assert(all.take(k + 1).last() == entry@);
        }
        if four_cc_is(entry.header.box_type, 102, 116, 121, 112) || four_cc_is(
            entry.header.box_type,
            109,
            101,
            116,
            97,
        ) {
            bytes.extend_from_slice(entry.bytes.as_slice());
        }
        k = k + 1;
    }
    assert(all.take(k as int) =~= all);
    bytes
}

/// The first box that says what the file is.
pub open spec fn file_type_place(boxes: Seq<SourceTopLevelBox>) -> Option<int>
    decreases boxes.len(),
{
    if boxes.len() == 0 {
        None
    } else {
        match file_type_place(boxes.drop_last()) {
            Some(place) => Some(place),
            None => if spells(boxes.last().header.box_type, 102, 116, 121, 112) {
                Some(boxes.len() - 1)
            } else {
                None
            },
        }
    }
}

/// A place that was found stays the first.
proof fn lemma_file_type_place(boxes: Seq<SourceTopLevelBox>, few: int)
    requires
        0 <= few <= boxes.len(),
        file_type_place(boxes.take(few)) is Some,
    ensures
        file_type_place(boxes) == file_type_place(boxes.take(few)),
    decreases boxes.len() - few,
{
    if few < boxes.len() {
        assert(boxes.take(few + 1).drop_last() =~= boxes.take(few));
        lemma_file_type_place(boxes, few + 1);
    } else {
        assert(boxes.take(few) =~= boxes);
    }
}

/// The first box that says what the file is.
pub fn find_file_type_box(selected: &[SourceTopLevelBox]) -> (found: Option<usize>)
    ensures
        match file_type_place(selected@) {
            None => found is None,
            Some(place) => found is Some && found->0 == place && 0 <= place < selected@.len(),
        },
{
    let mut k: usize = 0;
    assert(selected@.take(0) =~= Seq::<SourceTopLevelBox>::empty());
    while k < selected.len()
        invariant
            k <= selected@.len(),
            file_type_place(selected@.take(k as int)) is None,
        decreases selected@.len() - k,
    {
        assert(selected@.take(k + 1).drop_last() =~= selected@.take(k as int));
        if four_cc_is(selected[k].header.box_type, 102, 116, 121, 112) {
            proof {
                lemma_file_type_place(selected@, k + 1);
            }
            return Some(k);
        }
        k = k + 1;
    }
    assert(selected@.take(k as int) =~= selected@);
    None
}

/// Boxes are found in the order in which they start, so that what is kept of
/// them keeps that order.
proof fn lemma_found_in_order(
    file: Seq<u8>,
    wanted: Seq<FourCc>,
    cursor: int,
    found: Seq<bool>,
    selected: Seq<TopLevelBoxView>,
)
    requires
        forall|k: int| 0 <= k < selected.len() ==> (#[trigger] selected[k]).offset < cursor,
        in_order(selected) == selected,
    ensures
        boxes_from(file, wanted, cursor, found, selected) matches Ok(boxes) ==> in_order(boxes)
            == boxes,
    decreases file.len() - cursor,
{
    if 0 <= cursor < file.len() {
        match header_at(probe_at(file, cursor), cursor as u64, (file.len() - cursor) as u64) {
            Err(_) => {},
            Ok(header) => {
                if 0 < header.box_size <= usize::MAX {
                    let end = cursor + header.box_size;
                    match place_among(wanted, header.box_type) {
                        Some(place) if !found[place] => {
                            let entry = TopLevelBoxView {
                                offset: cursor,
                                header,
                                bytes: file.subrange(cursor, end),
                            };
                            let more = selected.push(entry);
                            assert(more.drop_last() =~= selected);
                            assert(in_order(more) == more);
                            lemma_found_in_order(
                                file,
                                wanted,
                                end,
                                found.update(place, true),
                                more,
                            );
                        },
                        _ => {
                            lemma_found_in_order(file, wanted, end, found, selected);
                        },
                    }
                }
            },
        }
    }
}

/// The boxes that are found in a file come in the order in which they start.
pub proof fn lemma_selected_in_order(file: Seq<u8>, wanted: Seq<FourCc>)
    ensures
        selected_boxes(file, wanted) matches Ok(boxes) ==> in_order(boxes) == boxes,
{
    let none = Seq::<TopLevelBoxView>::empty();
    assert(in_order(none) == none);
    lemma_found_in_order(file, wanted, 0, Seq::new(wanted.len(), |k: int| false), none);
}

/// Whether a box is a piece of a file, as long as its header says, and of a
/// wanted type.
pub open spec fn is_piece(file: Seq<u8>, wanted: Seq<FourCc>, entry: TopLevelBoxView) -> bool {
    &&& 0 <= entry.offset
    &&& entry.offset + entry.header.box_size <= file.len()
    &&& entry.bytes == file.subrange(entry.offset, entry.offset + entry.header.box_size)
    &&& place_among(wanted, entry.header.box_type) is Some
}

/// The boxes that are found are pieces of the file.
proof fn lemma_found_pieces(
    file: Seq<u8>,
    wanted: Seq<FourCc>,
    cursor: int,
    found: Seq<bool>,
    selected: Seq<TopLevelBoxView>,
)
    requires
        file.len() <= u64::MAX,
        forall|k: int| 0 <= k < selected.len() ==> is_piece(file, wanted, #[trigger] selected[k]),
    ensures
        boxes_from(file, wanted, cursor, found, selected) matches Ok(boxes) ==> forall|k: int|
            0 <= k < boxes.len() ==> is_piece(file, wanted, #[trigger] boxes[k]),
    decreases file.len() - cursor,
{
    if 0 <= cursor < file.len() {
        match header_at(probe_at(file, cursor), cursor as u64, (file.len() - cursor) as u64) {
            Err(_) => {},
            Ok(header) => {
                if 0 < header.box_size <= usize::MAX {
                    let end = cursor + header.box_size;
                    lemma_header_fits(probe_at(file, cursor), cursor as u64, (file.len()
                        - cursor) as u64);
                    match place_among(wanted, header.box_type) {
                        Some(place) if !found[place] => {
                            let entry = TopLevelBoxView {
                                offset: cursor,
                                header,
                                bytes: file.subrange(cursor, end),
                            };
                            let more = selected.push(entry);
                            assert(is_piece(file, wanted, entry));
                            assert forall|k: int| 0 <= k < more.len() implies is_piece(
                                file,
                                wanted,
                                #[trigger] more[k],
                            ) by {
                                if k < selected.len() {
                                    assert(more[k] == selected[k]);
                                }
                            }
                            lemma_found_pieces(file, wanted, end, found.update(place, true), more);
                        },
                        _ => {
                            lemma_found_pieces(file, wanted, end, found, selected);
                        },
                    }
                }
            },
        }
    }
}

/// A box that a header describes ends within the file.
proof fn lemma_header_fits(probe: Seq<u8>, offset: u64, available: u64)
    ensures
        header_at(probe, offset, available) matches Ok(header) ==> header.box_size <= available,
{
    if probe.len() >= 8 {
        lemma_be_value_bound(probe.subrange(0, 4));
        if probe.len() >= 16 {
            lemma_be_value_bound(probe.subrange(8, 16));
        }
    }
}

/// The boxes that are found in a file are pieces of it, as long as their
/// headers say, and of wanted types.
pub proof fn lemma_selected_pieces(file: Seq<u8>, wanted: Seq<FourCc>)
    requires
        file.len() <= u64::MAX,
    ensures
        selected_boxes(file, wanted) matches Ok(boxes) ==> forall|k: int|
            0 <= k < boxes.len() ==> is_piece(file, wanted, #[trigger] boxes[k]),
{
    lemma_found_pieces(
        file,
        wanted,
        0,
        Seq::new(wanted.len(), |k: int| false),
        Seq::<TopLevelBoxView>::empty(),
    );
}

} // verus!
