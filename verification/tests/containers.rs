use std::cell::RefCell;

use heif_decode::boxes::{
    encode_source_selected_top_level_boxes, find_file_type_box, parse_source_top_level_box_header,
    read_selected_top_level_boxes_from_source, SourceTopLevelBox,
};
use heif_decode::errors::{DecodeError, DecodeGuardrailError, Wording};
use heif_decode::exif::{
    exif_orientation_hint, primary_exif_orientation, primary_exif_tiff_payload,
    primary_item_has_orientation_transform,
};
use heif_decode::family::{
    detect_input_family_from_ftyp, enforce_and_resolve_input_family, path_extension_is_heif,
    path_extension_is_heif_family, FileTypeBox, HeifInputFamily,
};
use heif_decode::guardrails::{
    decode_error_from_source_read_error, DecodeGuardrails, SourceReadError,
};
use heif_decode::items::{
    append_heic_item_location_extents, append_heic_item_location_extents_from_source,
    extract_heic_item_payload, extract_heic_item_payload_from_source, ItemAssociations, ItemExtent,
    ItemGraph, ItemInfoEntry, ItemLocation, ItemProperty, ItemReference,
};
use heif_decode::linked::{
    primary_auxiliary_alpha_candidates, primary_exif_item_payloads, AlphaCandidate, AlphaCodec,
};
use heif_decode::transform::mapping::{ImageRotationProperty, PrimaryItemTransformProperty};

fn boxed(kind: &[u8; 4], content: &[u8]) -> Vec<u8> {
    let mut bytes = ((8 + content.len()) as u32).to_be_bytes().to_vec();
    bytes.extend_from_slice(kind);
    bytes.extend_from_slice(content);
    bytes
}

#[test]
fn box_headers_give_types_and_sizes() {
    let plain = boxed(b"ftyp", &[1, 2]);
    let header = parse_source_top_level_box_header(&plain, 0, 10).expect("a whole box");
    assert_eq!(
        (&header.box_type, header.box_size, header.header_size),
        (b"ftyp", 10, 8)
    );

    // The size one stands for a large size behind the type.
    let mut large = vec![0, 0, 0, 1];
    large.extend_from_slice(b"mdat");
    large.extend_from_slice(&20_u64.to_be_bytes());
    let header = parse_source_top_level_box_header(&large, 0, 20).expect("a whole box");
    assert_eq!((header.box_size, header.header_size), (20, 16));

    // The size zero stands for the rest of the file.
    let mut rest = vec![0, 0, 0, 0];
    rest.extend_from_slice(b"mdat");
    let header = parse_source_top_level_box_header(&rest, 5, 99).expect("a whole box");
    assert_eq!(header.box_size, 99);

    // A `uuid` box has a longer type.
    let uuid = boxed(b"uuid", &[0; 16]);
    let header = parse_source_top_level_box_header(&uuid, 0, 24).expect("a whole box");
    assert_eq!(header.header_size, 24);
}

#[test]
fn broken_box_headers_are_refused() {
    let message = |probe: &[u8], available: u64| {
        parse_source_top_level_box_header(probe, 3, available)
            .expect_err("a broken box")
            .message()
    };
    assert_eq!(
        message(&[0, 0, 0], 3),
        "truncated BMFF box header at offset 3 (available: 3 bytes, required: 8)"
    );
    assert_eq!(
        message(&[0, 0, 0, 1, 1, 1, 1, 1], 8),
        "truncated BMFF largesize field at offset 3 (available: 8 bytes, required: 16)"
    );
    assert_eq!(
        message(&boxed(b"uuid", &[]), 8),
        "truncated BMFF uuid extended type at offset 3 (available: 8 bytes, required: 24)"
    );
    assert_eq!(
        message(&[0, 0, 0, 7, 1, 1, 1, 1], 8),
        "invalid BMFF box size at offset 3: box_size=7, header_size=8"
    );
    assert_eq!(
        message(&[0, 0, 0, 9, 1, 1, 1, 1], 8),
        "BMFF box at offset 3 exceeds available bytes: box_size=9, available=8"
    );
}

#[test]
fn wanted_boxes_are_found_in_a_file() {
    let mut file = boxed(b"free", &[0; 40]);
    let ftyp_offset = file.len() as u64;
    file.extend(boxed(b"ftyp", b"heic"));
    file.extend(boxed(b"ftyp", b"avif"));
    file.extend(boxed(b"meta", &[1, 2, 3]));
    file.extend(boxed(b"mdat", &[9; 100]));
    let read = |offset: u64, length: usize| {
        let start = offset as usize;
        Ok(file[start..start + length].to_vec())
    };
    let boxes = read_selected_top_level_boxes_from_source(
        file.len() as u64,
        &[*b"meta", *b"ftyp"],
        &read,
    )
    .expect("a whole file");
    assert_eq!(boxes.len(), 2);
    assert_eq!(boxes[0].offset, ftyp_offset);
    assert_eq!(boxes[0].bytes, boxed(b"ftyp", b"heic"));
    assert_eq!(boxes[1].bytes, boxed(b"meta", &[1, 2, 3]));
    assert_eq!(find_file_type_box(&boxes), Some(0));

    // What is kept of a file stands in the order of the file.
    let reversed: Vec<SourceTopLevelBox> = boxes.iter().rev().cloned().collect();
    let mut kept = boxed(b"ftyp", b"heic");
    kept.extend(boxed(b"meta", &[1, 2, 3]));
    assert_eq!(encode_source_selected_top_level_boxes(&reversed), kept);
    assert_eq!(encode_source_selected_top_level_boxes(&boxes), kept);

    // Nothing is read where nothing is wanted.
    let untouched = |_: u64, _: usize| -> Result<Vec<u8>, DecodeError> {
        panic!("nothing is to be read")
    };
    assert!(
        read_selected_top_level_boxes_from_source(10, &[], &untouched)
            .expect("nothing to find")
            .is_empty()
    );

    let failing = |_: u64, _: usize| -> Result<Vec<u8>, DecodeError> {
        Err(DecodeError::Io("gone".to_string()))
    };
    assert!(matches!(
        read_selected_top_level_boxes_from_source(10, &[*b"meta"], &failing),
        Err(DecodeError::Io(_))
    ));
}

/// A reader of a file that keeps a list of what it was asked for, and fails
/// where one range is asked for, or one behind the end.
fn reader<'a>(
    file: &'a [u8],
    asked: &'a RefCell<Vec<(u64, usize)>>,
    broken: Option<(u64, usize)>,
) -> impl Fn(u64, usize) -> Result<Vec<u8>, DecodeError> + 'a {
    move |offset, length| {
        asked.borrow_mut().push((offset, length));
        let start = offset as usize;
        match file.get(start..start + length) {
            Some(bytes) if broken != Some((offset, length)) => Ok(bytes.to_vec()),
            _ => Err(DecodeError::Io(format!("no {length} bytes at {offset}"))),
        }
    }
}

#[test]
fn a_search_reads_headers_and_wanted_boxes_only() {
    let mut file = boxed(b"free", &[0; 40]);
    file.extend(boxed(b"ftyp", &[1; 50]));
    file.extend(boxed(b"ftyp", &[2; 50]));
    file.extend(boxed(b"meta", &[3; 2]));
    let length = file.len() as u64;
    let wanted = [*b"meta", *b"ftyp"];
    let asked = RefCell::new(Vec::new());
    let boxes =
        read_selected_top_level_boxes_from_source(length, &wanted, &reader(&file, &asked, None))
            .expect("a whole file");
    assert_eq!(boxes.len(), 2);
    let ranges = vec![(0, 32), (48, 32), (48, 58), (106, 32), (164, 10), (164, 10)];
    assert_eq!(*asked.borrow(), ranges);

    // Whichever of these fails, the search fails with it; no other range counts.
    for range in ranges {
        let asked = RefCell::new(Vec::new());
        assert_eq!(
            read_selected_top_level_boxes_from_source(
                length,
                &wanted,
                &reader(&file, &asked, Some(range)),
            ),
            Err(DecodeError::Io(format!("no {} bytes at {}", range.1, range.0)))
        );
    }
    let asked = RefCell::new(Vec::new());
    assert_eq!(
        read_selected_top_level_boxes_from_source(
            length,
            &wanted,
            &reader(&file, &asked, Some((106, 58))),
        ),
        Ok(boxes)
    );

    // Nothing is read of an empty source.
    let asked = RefCell::new(Vec::new());
    assert_eq!(
        read_selected_top_level_boxes_from_source(0, &wanted, &reader(&[], &asked, None)),
        Ok(Vec::new())
    );
    assert!(asked.borrow().is_empty());
}

#[test]
fn pieces_are_asked_for_one_after_another() {
    let file: Vec<u8> = (0..20).collect();
    let pieces = location(1, 0, &[(3, 2), (0, 3), (7, 1)]);
    let asked = RefCell::new(Vec::new());
    assert_eq!(
        extract_heic_item_payload_from_source(&reader(&file, &asked, None), None, &pieces),
        extract_heic_item_payload(&file, None, &pieces)
    );
    assert_eq!(*asked.borrow(), vec![(5, 2), (2, 3), (9, 1)]);

    // Where one cannot be read, those before it stay, and none behind it is read.
    let asked = RefCell::new(Vec::new());
    let mut output = vec![77];
    assert!(append_heic_item_location_extents_from_source(
        &reader(&file, &asked, Some((2, 3))),
        &pieces,
        &mut output,
    )
    .is_none());
    assert_eq!(output, vec![77, 5, 6]);
    assert_eq!(*asked.borrow(), vec![(5, 2), (2, 3)]);

    // A piece behind the end, as in the bytes of the file.
    let beyond = location(1, 0, &[(3, 2), (17, 2)]);
    let asked = RefCell::new(Vec::new());
    assert_eq!(
        extract_heic_item_payload_from_source(&reader(&file, &asked, None), None, &beyond),
        None
    );
    assert_eq!(extract_heic_item_payload(&file, None, &beyond), None);

    // An item without pieces is empty, and nothing is read.
    let asked = RefCell::new(Vec::new());
    assert_eq!(
        extract_heic_item_payload_from_source(
            &reader(&file, &asked, None),
            None,
            &location(1, 0, &[]),
        ),
        Some(Vec::new())
    );
    assert!(asked.borrow().is_empty());
}

#[test]
fn brands_tell_the_families_apart() {
    let ftyp = |major: &[u8; 4], others: &[&[u8; 4]]| FileTypeBox {
        major_brand: *major,
        compatible_brands: others.iter().map(|brand| **brand).collect(),
    };
    assert_eq!(
        detect_input_family_from_ftyp(&ftyp(b"heic", &[b"mif1"])),
        Some(HeifInputFamily::Heif)
    );
    assert_eq!(
        detect_input_family_from_ftyp(&ftyp(b"mif1", &[b"heic", b"avif"])),
        Some(HeifInputFamily::Avif)
    );
    assert_eq!(detect_input_family_from_ftyp(&ftyp(b"isom", &[b"mp42"])), None);
    for brand in [
        b"mif1", b"msf1", b"miaf", b"heic", b"heix", b"hevc", b"hevx", b"heim", b"heis",
    ] {
        assert_eq!(
            detect_input_family_from_ftyp(&ftyp(b"isom", &[brand])),
            Some(HeifInputFamily::Heif)
        );
    }
    assert_eq!(
        detect_input_family_from_ftyp(&ftyp(b"avis", &[])),
        Some(HeifInputFamily::Avif)
    );
}

#[test]
fn extensions_hint_at_the_family() {
    assert!(path_extension_is_heif(Some(b"HeiC")));
    assert!(path_extension_is_heif(Some(b"heif")));
    assert!(path_extension_is_heif(Some(b"hif")));
    assert!(!path_extension_is_heif(Some(b"avif")));
    assert!(path_extension_is_heif_family(Some(b"AVIF")));
    assert!(!path_extension_is_heif_family(Some(b"png")));
    assert!(!path_extension_is_heif_family(None));
}

#[test]
fn the_family_is_resolved_within_limits() {
    let heic = FileTypeBox {
        major_brand: *b"heic",
        compatible_brands: Vec::new(),
    };
    let unlimited = DecodeGuardrails::default();
    assert_eq!(
        enforce_and_resolve_input_family(5, Some(&heic), Some(HeifInputFamily::Avif), &unlimited),
        Ok(HeifInputFamily::Heif)
    );
    assert_eq!(
        enforce_and_resolve_input_family(5, None, Some(HeifInputFamily::Avif), &unlimited),
        Ok(HeifInputFamily::Avif)
    );
    assert_eq!(
        enforce_and_resolve_input_family(5, None, None, &unlimited)
            .expect_err("no family")
            .message(),
        "Unsupported HEIF/AVIF file type: could not infer image family from ftyp brands"
    );
    let limited = DecodeGuardrails {
        max_input_bytes: Some(4),
        ..DecodeGuardrails::default()
    };
    assert_eq!(
        enforce_and_resolve_input_family(5, Some(&heic), None, &limited),
        Err(DecodeError::Guardrail(
            DecodeGuardrailError::InputTooLarge {
                actual_bytes: 5,
                max_input_bytes: 4
            }
        ))
    );
    assert!(enforce_and_resolve_input_family(4, Some(&heic), None, &limited).is_ok());
}

#[test]
fn limits_hold_up_to_their_value() {
    let guardrails = DecodeGuardrails {
        max_pixels: Some(6),
        max_temp_spool_bytes: Some(9),
        temp_spool_directory: Some("spool".to_string()),
        ..DecodeGuardrails::default()
    };
    assert!(guardrails.enforce_pixel_count(2, 3).is_ok());
    assert!(guardrails.enforce_pixel_count(7, 1).is_err());
    assert!(guardrails.enforce_pixel_count(u32::MAX, u32::MAX).is_err());
    assert!(guardrails.enforce_input_bytes(u64::MAX).is_ok());
    let options = guardrails.temp_spool_options();
    assert_eq!(options.max_spool_bytes, Some(9));
    assert_eq!(options.spool_directory, Some("spool".to_string()));
}

#[test]
fn failures_of_a_source_are_named() {
    assert!(matches!(
        decode_error_from_source_read_error(SourceReadError::Io("gone".to_string())),
        DecodeError::Io(_)
    ));
    assert_eq!(
        decode_error_from_source_read_error(SourceReadError::SpoolLimitExceeded {
            attempted: 8,
            max_allowed: 7
        })
        .message(),
        "non-seek input exceeds configured max_temp_spool_bytes while spooling: attempted 8 bytes, max is 7"
    );
    assert!(matches!(
        decode_error_from_source_read_error(SourceReadError::SpoolDirectoryCreateFailed {
            directory: "d".to_string(),
            io_error_kind: "k".to_string()
        }),
        DecodeError::Guardrail(DecodeGuardrailError::TempSpoolDirectoryCreateFailed { .. })
    ));
    assert!(matches!(
        decode_error_from_source_read_error(SourceReadError::SpoolDirectoryOpenFailed {
            directory: "d".to_string(),
            io_error_kind: "k".to_string()
        }),
        DecodeError::Guardrail(DecodeGuardrailError::TempSpoolDirectoryOpenFailed { .. })
    ));
    assert!(matches!(
        decode_error_from_source_read_error(SourceReadError::BadRange("far".to_string())),
        DecodeError::Unsupported(Wording::Text(_))
    ));
}

fn location(item_id: u32, method: u8, extents: &[(u64, u64)]) -> ItemLocation {
    ItemLocation {
        item_id,
        construction_method: method,
        data_reference_index: 0,
        base_offset: 2,
        extents: extents
            .iter()
            .map(|(offset, length)| ItemExtent {
                offset: *offset,
                length: *length,
            })
            .collect(),
    }
}

#[test]
fn payloads_are_put_together_from_pieces() {
    let input: Vec<u8> = (0..20).collect();
    let data: Vec<u8> = (100..120).collect();
    let pieces = [(3, 2), (0, 3)];
    assert_eq!(
        extract_heic_item_payload(&input, None, &location(1, 0, &pieces)),
        Some(vec![5, 6, 2, 3, 4])
    );
    assert_eq!(
        extract_heic_item_payload(&input, Some(&data), &location(1, 1, &pieces)),
        Some(vec![105, 106, 102, 103, 104])
    );
    assert_eq!(
        extract_heic_item_payload(&input, None, &location(1, 1, &pieces)),
        None
    );
    assert_eq!(
        extract_heic_item_payload(&input, Some(&data), &location(1, 2, &pieces)),
        None
    );
    assert_eq!(
        extract_heic_item_payload(&input, None, &location(1, 0, &[(3, 16)])),
        None
    );
    assert_eq!(
        extract_heic_item_payload(&input, None, &location(1, 0, &[(u64::MAX, 1)])),
        None
    );

    let read = |offset: u64, length: usize| {
        let start = offset as usize;
        Ok(input[start..start + length].to_vec())
    };
    let mut output = vec![9];
    assert!(
        append_heic_item_location_extents_from_source(
            &read,
            &location(1, 0, &pieces),
            &mut output
        )
        .is_some()
    );
    assert_eq!(output, vec![9, 5, 6, 2, 3, 4]);
    assert_eq!(
        extract_heic_item_payload_from_source(&read, None, &location(1, 0, &pieces)),
        Some(vec![5, 6, 2, 3, 4])
    );
    assert_eq!(
        extract_heic_item_payload_from_source(&read, Some(&data), &location(1, 1, &pieces)),
        Some(vec![105, 106, 102, 103, 104])
    );
    // The pieces before a missing one stay.
    let mut broken = Vec::new();
    assert!(
        append_heic_item_location_extents(&input, &location(1, 0, &[(0, 2), (90, 1)]), &mut broken)
            .is_none()
    );
    assert_eq!(broken, vec![2, 3]);
    assert!(
        append_heic_item_location_extents_from_source(
            &read,
            &location(1, 0, &[(u64::MAX, 1)]),
            &mut output
        )
        .is_none()
    );
}

/// TIFF data with one entry: the orientation.
fn tiff(orientation: u8) -> Vec<u8> {
    let mut bytes = b"MM\0*".to_vec();
    bytes.extend_from_slice(&[0, 0, 0, 8, 0, 1]);
    bytes.extend_from_slice(&[0x01, 0x12, 0, 3, 0, 0, 0, 1, 0, orientation, 0, 0]);
    bytes.extend_from_slice(&[0, 0, 0, 0]);
    bytes
}

fn info(item_id: u32, kind: &[u8; 4]) -> ItemInfoEntry {
    ItemInfoEntry {
        item_id,
        item_type: Some(*kind),
        item_name: Vec::new(),
        content_type: None,
    }
}

fn auxiliary_type(name: &[u8]) -> ItemProperty {
    let mut payload = vec![0, 0, 0, 0];
    payload.extend_from_slice(name);
    payload.push(0);
    ItemProperty {
        box_type: *b"auxC",
        payload,
    }
}

fn graph(exif_length: u64) -> ItemGraph {
    let reference = |kind: &[u8; 4], from: u32, to: u32| ItemReference {
        reference_type: *kind,
        from_item_id: from,
        to_item_ids: vec![to],
    };
    ItemGraph {
        primary_item_id: 1,
        references: vec![
            reference(b"cdsc", 2, 1),
            reference(b"cdsc", 3, 9),
            reference(b"auxl", 4, 1),
            reference(b"auxl", 5, 1),
            reference(b"auxl", 6, 1),
        ],
        infos: vec![
            info(1, b"hvc1"),
            info(2, b"Exif"),
            info(3, b"Exif"),
            info(4, b"hvc1"),
            info(5, b"hev1"),
            info(6, b"av01"),
        ],
        locations: vec![
            location(2, 0, &[(0, exif_length)]),
            location(3, 0, &[(0, 1)]),
            location(4, 0, &[(0, 1)]),
            location(5, 0, &[(0, 1)]),
            location(6, 0, &[(0, 1)]),
        ],
        properties: vec![
            ItemProperty {
                box_type: *b"hvcC",
                payload: Vec::new(),
            },
            auxiliary_type(b"urn:mpeg:hevc:2015:auxid:2"),
            auxiliary_type(b"urn:mpeg:hevc:2015:auxid:1"),
            ItemProperty {
                box_type: *b"av1C",
                payload: Vec::new(),
            },
            auxiliary_type(b"urn:mpeg:mpegB:cicp:systems:auxiliary:alpha"),
        ],
        associations: vec![
            ItemAssociations {
                item_id: 4,
                property_indices: vec![1, 2],
            },
            ItemAssociations {
                item_id: 5,
                property_indices: vec![0, 3],
            },
            ItemAssociations {
                item_id: 5,
                property_indices: vec![1],
            },
            ItemAssociations {
                item_id: 6,
                property_indices: vec![4, 5],
            },
        ],
    }
}

#[test]
fn metadata_that_describes_the_primary_item_is_found() {
    let mut payload = vec![0, 0, 0, 0];
    payload.extend(tiff(6));
    let mut input = vec![7, 7];
    input.extend(&payload);
    let graph = graph(payload.len() as u64);
    let payloads = primary_exif_item_payloads(&graph, &input, None);
    assert_eq!(payloads, vec![payload]);
    assert_eq!(primary_exif_orientation(&payloads), Some(6));
    assert_eq!(primary_exif_tiff_payload(&payloads), Some(tiff(6)));

    let turn = [PrimaryItemTransformProperty::Rotation(
        ImageRotationProperty {
            rotation_ccw_degrees: 90,
        },
    )];
    assert!(primary_item_has_orientation_transform(Some(&turn)));
    assert!(!primary_item_has_orientation_transform(Some(&[])));
    assert!(!primary_item_has_orientation_transform(None));
    let hint = exif_orientation_hint(&payloads, Some(&turn));
    assert_eq!(hint.exif_orientation, Some(6));
    assert!(hint.primary_item_has_orientation_transform);
}

#[test]
fn a_rotation_of_no_degrees_is_signalled_like_any_other() {
    let still = [PrimaryItemTransformProperty::Rotation(
        ImageRotationProperty {
            rotation_ccw_degrees: 0,
        },
    )];
    assert!(primary_item_has_orientation_transform(Some(&still)));
    let hint = exif_orientation_hint(&[], Some(&still));
    assert_eq!(hint.exif_orientation, None);
    assert!(hint.primary_item_has_orientation_transform);
}

#[test]
fn orientations_out_of_range_are_ignored() {
    for value in [0, 9] {
        let mut payload = vec![0, 0, 0, 0];
        payload.extend(tiff(value));
        assert_eq!(primary_exif_orientation(&[payload]), None);
    }
    assert_eq!(primary_exif_orientation(&[]), None);
    assert_eq!(primary_exif_orientation(&[vec![1, 2, 3]]), None);
}

#[test]
fn items_that_are_opacity_are_told_by_their_properties() {
    let graph = graph(1);
    // Item 4 is auxiliary, but of another type.
    assert_eq!(
        primary_auxiliary_alpha_candidates(AlphaCodec::Hevc, &graph),
        vec![AlphaCandidate {
            location: 3,
            configuration: 0
        }]
    );
    assert_eq!(
        primary_auxiliary_alpha_candidates(AlphaCodec::Av1, &graph),
        vec![AlphaCandidate {
            location: 4,
            configuration: 3
        }]
    );
    assert_eq!(
        graph.resolved_item_properties_for_item(5),
        Some(vec![2, 0])
    );
}

#[test]
fn a_missing_property_hides_an_item() {
    let mut graph = graph(1);
    graph.associations[2].property_indices.push(99);
    assert_eq!(graph.resolved_item_properties_for_item(5), None);
    assert!(primary_auxiliary_alpha_candidates(AlphaCodec::Hevc, &graph).is_empty());
}
