use heif_decode::alpha::{decode_auxiliary_alpha_item_candidate, decode_primary_auxiliary_alpha_plane};
use heif_decode::decode::{
    decode_primary_heic_to_image, decode_primary_heic_to_metadata, HeicPrimaryItem,
};
use heif_decode::errors::DecodeHeicError;
use heif_decode::hevc::coded::{
    decode_primary_heic_coded_item_to_image, HeicGridTileItemData,
    HeicPrimaryItemPreflightProperties,
};
use heif_decode::hevc::estimate::{
    estimate_heic_grid_sps_decode_bytes, estimate_heic_grid_tile_decode_bytes,
    HeicGridTileStreamMemoryEstimate, NalRecordSizes,
};
use heif_decode::hevc::frame::HeicFrame;
use heif_decode::hevc::nal::{
    parse_length_prefixed_hevc_nal_units, HevcNalClass, LengthPrefixedHevcNalUnit,
};
use heif_decode::hevc::sps::{
    decode_hevc_metadata_from_hvcc_or_payload, hevc_metadata_from_sps, hevc_sps_from_nal, HevcSps,
};
use heif_decode::hevc::stream::{
    append_nal_with_u32_length_prefix, assemble_heic_hevc_stream_from_components,
    HevcDecoderConfigurationBox, HevcNalArray,
};
use heif_decode::layout::HeicPrimaryItemData;
use heif_decode::types::{
    DecodedHeicImage, HeicAuxiliaryAlphaPlane, HeicPixelLayout, PrimaryItemColorProperties,
};

/// The sizes of the records that a decoder keeps of a unit.
const SIZES: NalRecordSizes = NalRecordSizes {
    backend: 56,
    parsed: 24,
};

/// Parses a sequence parameter set with the `scuffle_h265` crate.
fn parse_sps(nal: &[u8]) -> Result<HevcSps, String> {
    let parsed = scuffle_h265::SpsNALUnit::parse(nal).map_err(|err| err.to_string())?;
    let window = &parsed.rbsp.conformance_window;
    Ok(HevcSps {
        chroma_format_idc: parsed.rbsp.chroma_format_idc,
        separate_colour_plane_flag: parsed.rbsp.separate_colour_plane_flag,
        pic_width_in_luma_samples: parsed.rbsp.pic_width_in_luma_samples.get() as u32,
        pic_height_in_luma_samples: parsed.rbsp.pic_height_in_luma_samples.get() as u32,
        conf_win_offset: (
            window.conf_win_left_offset as u32,
            window.conf_win_right_offset as u32,
            window.conf_win_top_offset as u32,
            window.conf_win_bottom_offset as u32,
        ),
        bit_depth_y: parsed.rbsp.bit_depth_luma_minus8 + 8,
        bit_depth_c: parsed.rbsp.bit_depth_chroma_minus8 + 8,
    })
}

fn test_hvcc(nal_arrays: Vec<HevcNalArray>, nal_length_size: u8) -> HevcDecoderConfigurationBox {
    HevcDecoderConfigurationBox {
        nal_length_size,
        nal_arrays,
    }
}

fn no_colours() -> PrimaryItemColorProperties {
    PrimaryItemColorProperties {
        nclx: None,
        icc: None,
    }
}

#[test]
fn grid_parallel_estimate_uses_coded_sps_geometry_and_both_stream_copies() {
    let sps_nal = vec![
        0x42, 0x01, 0x01, 0x03, 0x70, 0x00, 0x00, 0x03, 0x00, 0x90, 0x00, 0x00, 0x03, 0x00, 0x00,
        0x03, 0x00, 0x1e, 0xa0, 0x10, 0x20, 0x20, 0x75, 0x59, 0x65, 0x66, 0x92, 0x4c, 0xae, 0x01,
        0x00, 0x00, 0x03, 0x03, 0xe8, 0x00, 0x00, 0x03, 0x03, 0xe8, 0x08,
    ];
    let tile = HeicGridTileItemData {
        hvcc: test_hvcc(
            vec![HevcNalArray {
                nal_units: vec![sps_nal.clone()],
            }],
            4,
        ),
        colr: no_colours(),
        transforms: Vec::new(),
        payload: Vec::new(),
    };

    let sps = hevc_sps_from_nal(&sps_nal, 0, &parse_sps).expect("SPS should parse");
    let metadata = hevc_metadata_from_sps(&sps).expect("SPS metadata should parse");
    assert_eq!((metadata.width, metadata.height), (126, 126));

    let decoded_bytes =
        estimate_heic_grid_sps_decode_bytes(&sps).expect("SPS allocation estimate should parse");
    let mut stream_memory = HeicGridTileStreamMemoryEstimate::default();
    stream_memory
        .add_nal(&sps_nal)
        .expect("SPS stream estimate should fit");
    assert_eq!(
        estimate_heic_grid_tile_decode_bytes(&tile, SIZES, &parse_sps)
            .expect("tile estimate should parse"),
        decoded_bytes + stream_memory.estimated_decoder_bytes(SIZES),
    );
    assert_eq!(decoded_bytes, 128 * 128 * 6);
}

#[test]
fn grid_parallel_estimate_uses_largest_sps_across_hvcc_and_payload() {
    let small_sps = vec![
        0x42, 0x01, 0x01, 0x03, 0x70, 0x00, 0x00, 0x03, 0x00, 0x90, 0x00, 0x00, 0x03, 0x00, 0x00,
        0x03, 0x00, 0x1e, 0xa0, 0x20, 0x81, 0x05, 0x96, 0xea, 0xae, 0x9a, 0xe6, 0xe0, 0x21, 0xa0,
        0xc0, 0x80, 0x00, 0x00, 0x0c, 0x80, 0x00, 0x00, 0x03, 0x00, 0x84,
    ];
    let large_sps = vec![
        0x42, 0x01, 0x01, 0x03, 0x70, 0x00, 0x00, 0x03, 0x00, 0x90, 0x00, 0x00, 0x03, 0x00, 0x00,
        0x03, 0x00, 0x78, 0xa0, 0x07, 0xd2, 0x00, 0x53, 0x9f, 0x59, 0x6e, 0xa4, 0x92, 0x9a, 0xe6,
        0xe0, 0x21, 0xa0, 0xc0, 0x80, 0x00, 0x00, 0x0c, 0x80, 0x00, 0x00, 0x03, 0x00, 0x84,
    ];
    let mut payload = Vec::new();
    payload.extend_from_slice(&(large_sps.len() as u32).to_be_bytes());
    payload.extend_from_slice(&large_sps);
    let tile = HeicGridTileItemData {
        hvcc: test_hvcc(
            vec![HevcNalArray {
                nal_units: vec![small_sps.clone()],
            }],
            4,
        ),
        colr: no_colours(),
        transforms: Vec::new(),
        payload,
    };

    let small = hevc_sps_from_nal(&small_sps, 0, &parse_sps).expect("small SPS should parse");
    let large = hevc_sps_from_nal(&large_sps, 0, &parse_sps).expect("large SPS should parse");
    let small_bytes =
        estimate_heic_grid_sps_decode_bytes(&small).expect("small SPS estimate should parse");
    let large_bytes =
        estimate_heic_grid_sps_decode_bytes(&large).expect("large SPS estimate should parse");
    assert!(large_bytes > small_bytes);

    let mut stream_memory = HeicGridTileStreamMemoryEstimate::default();
    stream_memory
        .add_nal(&small_sps)
        .expect("small SPS stream estimate should fit");
    stream_memory
        .add_nal(&large_sps)
        .expect("large SPS stream estimate should fit");
    assert_eq!(
        estimate_heic_grid_tile_decode_bytes(&tile, SIZES, &parse_sps)
            .expect("tile estimate should parse"),
        large_bytes + stream_memory.estimated_decoder_bytes(SIZES),
    );
}

#[test]
fn grid_parallel_stream_estimate_counts_epb_positions_and_nal_metadata() {
    let nal = [
        0x4e, 0x01, 0x00, 0x00, 0x03, 0x00, 0x00, 0x03, 0x01, 0x00, 0x00, 0x03, 0x02,
    ];
    let mut stream_memory = HeicGridTileStreamMemoryEstimate::default();
    stream_memory
        .add_nal(&nal)
        .expect("NAL stream estimate should fit");

    assert_eq!(stream_memory.normalized_stream_bytes, nal.len() as u64 + 4);
    assert_eq!(stream_memory.rbsp_bytes, nal.len() as u64 - 2);
    assert_eq!(stream_memory.emulation_prevention_position_bytes, 40);
    assert!(
        stream_memory.estimated_decoder_bytes(SIZES)
            > stream_memory.normalized_stream_bytes * 2 + stream_memory.rbsp_bytes,
        "parsed-NAL metadata and EPB positions must add memory beyond the stream and RBSP copies"
    );
}

#[test]
fn hevc_probe_metadata_scans_payload_when_hvcc_lacks_sps() {
    let vps_only = test_hvcc(
        vec![HevcNalArray {
            nal_units: vec![vec![0x40, 0x01]],
        }],
        4,
    );
    let payload_with_sps = [0, 0, 0, 2, 0x42, 0x01];
    assert!(matches!(
        decode_hevc_metadata_from_hvcc_or_payload(&vps_only, &payload_with_sps, &parse_sps),
        Err(DecodeHeicError::SpsParseFailed { offset: 4, .. })
    ));

    let payload_without_sps = [0, 0, 0, 2, 0x40, 0x01];
    assert!(matches!(
        decode_hevc_metadata_from_hvcc_or_payload(&vps_only, &payload_without_sps, &parse_sps),
        Err(DecodeHeicError::MissingSpsNalUnit)
    ));

    let sps_in_hvcc = test_hvcc(
        vec![HevcNalArray {
            nal_units: vec![vec![0x42, 0x01]],
        }],
        4,
    );
    assert!(matches!(
        decode_hevc_metadata_from_hvcc_or_payload(&sps_in_hvcc, &payload_with_sps, &parse_sps),
        Err(DecodeHeicError::SpsParseFailed { offset: 0, .. })
    ));

    assert!(matches!(
        decode_hevc_metadata_from_hvcc_or_payload(&vps_only, &[0, 0], &parse_sps),
        Err(DecodeHeicError::TruncatedNalLengthField { .. })
    ));
    assert!(matches!(
        decode_hevc_metadata_from_hvcc_or_payload(&vps_only, &[0, 0, 0, 9, 0x42], &parse_sps),
        Err(DecodeHeicError::TruncatedNalUnit { .. })
    ));

    let bad_length_size = test_hvcc(Vec::new(), 0);
    assert!(matches!(
        decode_hevc_metadata_from_hvcc_or_payload(&bad_length_size, &payload_with_sps, &parse_sps),
        Err(DecodeHeicError::InvalidNalLengthSize { nal_length_size: 0 })
    ));
}

#[test]
fn units_are_told_apart_by_their_types() {
    let unit = |bytes: &'static [u8]| LengthPrefixedHevcNalUnit { offset: 0, bytes };
    // The type is in the first byte: 33 for a sequence parameter set.
    assert!(unit(&[0x42, 0x01]).is_sequence_parameter_set());
    assert!(!unit(&[0x40, 0x01]).is_sequence_parameter_set());
    assert!(!unit(&[]).is_sequence_parameter_set());
    assert!(matches!(unit(&[0x26, 0x01]).class(), HevcNalClass::Vcl));
    assert!(!matches!(unit(&[0x42, 0x01]).class(), HevcNalClass::Vcl));
}

#[test]
fn a_stream_is_cut_where_its_lengths_say() {
    let stream = [0, 0, 0, 1, 7, 0, 0, 0, 2, 8, 9];
    let units = parse_length_prefixed_hevc_nal_units(&stream).expect("the stream is whole");
    assert_eq!(units.len(), 2);
    assert_eq!((units[0].offset, units[0].bytes), (4, &stream[4..5]));
    assert_eq!((units[1].offset, units[1].bytes), (9, &stream[9..11]));
    assert!(parse_length_prefixed_hevc_nal_units(&stream[..10]).is_err());
    assert!(parse_length_prefixed_hevc_nal_units(&stream[..3]).is_err());
}

#[test]
fn the_headers_come_before_the_payload() {
    let hvcc = test_hvcc(
        vec![
            HevcNalArray {
                nal_units: vec![vec![0x40], vec![0x42, 0x01]],
            },
            HevcNalArray {
                nal_units: vec![vec![0x44]],
            },
        ],
        2,
    );
    let stream = assemble_heic_hevc_stream_from_components(&hvcc, &[0, 1, 0x26])
        .expect("the payload is whole");
    assert_eq!(
        stream,
        vec![
            0, 0, 0, 1, 0x40, 0, 0, 0, 2, 0x42, 0x01, 0, 0, 0, 1, 0x44, 0, 0, 0, 1, 0x26
        ]
    );
    assert!(matches!(
        assemble_heic_hevc_stream_from_components(&hvcc, &[0, 2, 0x26]),
        Err(DecodeHeicError::TruncatedNalUnit { .. })
    ));
    let mut prefixed = vec![9];
    append_nal_with_u32_length_prefix(&[5, 6], &mut prefixed).expect("the unit is small");
    assert_eq!(prefixed, vec![9, 0, 0, 0, 2, 5, 6]);
}

#[test]
fn a_payload_comes_back_as_its_units() {
    let headers = [vec![0x40, 0x01], vec![0x42, 0x01, 0x02]];
    let units = [vec![0x26; 200], vec![], vec![0x28]];
    for size in 1..=4_u8 {
        let mut payload = Vec::new();
        for unit in &units {
            let length = (unit.len() as u32).to_be_bytes();
            payload.extend(&length[4 - size as usize..]);
            payload.extend(unit);
        }
        let hvcc = test_hvcc(
            vec![HevcNalArray {
                nal_units: headers.to_vec(),
            }],
            size,
        );
        let stream = assemble_heic_hevc_stream_from_components(&hvcc, &payload)
            .expect("the payload is whole");
        let split: Vec<Vec<u8>> = parse_length_prefixed_hevc_nal_units(&stream)
            .expect("the stream is whole")
            .iter()
            .map(|unit| unit.bytes.to_vec())
            .collect();
        let expected: Vec<Vec<u8>> = headers.iter().chain(&units).cloned().collect();
        assert_eq!(split, expected);
        assert_eq!(stream.len(), 5 * 4 + 5 + 201);
    }
    for size in [0, 5] {
        assert!(matches!(
            assemble_heic_hevc_stream_from_components(&test_hvcc(Vec::new(), size), &[]),
            Err(DecodeHeicError::InvalidNalLengthSize { nal_length_size }) if nal_length_size == size
        ));
    }
}

/// A coded item of two units, and what a decoder makes of it.
fn coded_item(ispe_width: u32) -> (HeicPrimaryItemPreflightProperties, HeicPrimaryItemData) {
    (
        HeicPrimaryItemPreflightProperties {
            item_id: 7,
            hvcc: test_hvcc(
                vec![HevcNalArray {
                    nal_units: vec![vec![0x42, 0x01]],
                }],
                4,
            ),
            ispe_width,
            ispe_height: 1,
            colr: no_colours(),
        },
        HeicPrimaryItemData {
            item_id: 7,
            payload: vec![0, 0, 0, 2, 0x26, 0x01],
        },
    )
}

fn stub_sps(nal: &[u8]) -> Result<HevcSps, String> {
    assert_eq!(nal, &[0x42, 0x01]);
    Ok(HevcSps {
        chroma_format_idc: 0,
        separate_colour_plane_flag: false,
        pic_width_in_luma_samples: 2,
        pic_height_in_luma_samples: 1,
        conf_win_offset: (0, 0, 0, 0),
        bit_depth_y: 8,
        bit_depth_c: 8,
    })
}

fn stub_frame(stream: &[u8]) -> Result<HeicFrame, String> {
    assert_eq!(stream, &[0, 0, 0, 2, 0x42, 0x01, 0, 0, 0, 2, 0x26, 0x01]);
    Ok(grey_frame(2, vec![3, 4]))
}

fn grey_frame(width: u32, samples: Vec<u16>) -> HeicFrame {
    HeicFrame {
        width,
        height: 1,
        cropped_width: width,
        cropped_height: 1,
        crop_left: 0,
        crop_right: 0,
        crop_top: 0,
        crop_bottom: 0,
        bit_depth: 8,
        chroma_format: 0,
        full_range: true,
        matrix_coeffs: 1,
        colour_primaries: 1,
        y_stride: width as usize,
        c_stride: 0,
        y_plane: samples,
        cb_plane: Vec::new(),
        cr_plane: Vec::new(),
    }
}

fn no_tile(_: usize) -> Result<DecodedHeicImage, DecodeHeicError> {
    Err(DecodeHeicError::MissingVclNalUnit)
}

#[test]
fn a_coded_item_is_decoded_and_checked_against_its_metadata() {
    let (properties, item) = coded_item(2);
    let image = decode_primary_heic_coded_item_to_image(
        &properties,
        item.item_id,
        &item.payload,
        &stub_sps,
        &stub_frame,
    )
    .expect("the item should decode");
    assert_eq!((image.width, image.height), (2, 1));
    assert_eq!(image.y_plane.samples, vec![3, 4]);

    // Another item than the one that the properties are of.
    assert!(matches!(
        decode_primary_heic_coded_item_to_image(
            &properties,
            8,
            &item.payload,
            &stub_sps,
            &stub_frame
        ),
        Err(DecodeHeicError::InvalidDecodedFrame { .. })
    ));
    // Another size than the one that is announced.
    let (wrong, _) = coded_item(3);
    assert!(matches!(
        decode_primary_heic_coded_item_to_image(
            &wrong,
            item.item_id,
            &item.payload,
            &stub_sps,
            &stub_frame
        ),
        Err(DecodeHeicError::DecodedGeometryMismatch {
            expected_width: 3,
            actual_width: 2,
            ..
        })
    ));
    // A frame of another size than the parameter set.
    let wide_frame = |_: &[u8]| Ok(grey_frame(3, vec![1, 2, 3]));
    assert!(matches!(
        decode_primary_heic_coded_item_to_image(
            &properties,
            item.item_id,
            &item.payload,
            &stub_sps,
            &wide_frame
        ),
        Err(DecodeHeicError::DecodedGeometryMismatch {
            expected_width: 2,
            actual_width: 3,
            ..
        })
    ));
    // A decoder that fails.
    let broken = |_: &[u8]| Err("no".to_string());
    assert!(matches!(
        decode_primary_heic_coded_item_to_image(
            &properties,
            item.item_id,
            &item.payload,
            &stub_sps,
            &broken
        ),
        Err(DecodeHeicError::BackendDecodeFailed { .. })
    ));
}

#[test]
fn the_primary_item_is_decoded_by_its_form() {
    let (properties, item) = coded_item(2);
    let primary = HeicPrimaryItem::Coded(properties, item);
    let image = decode_primary_heic_to_image(&primary, &no_tile, &stub_sps, &stub_frame)
        .expect("the item should decode");
    assert_eq!(image.y_plane.samples, vec![3, 4]);
    let metadata = decode_primary_heic_to_metadata(&primary, &no_tile, &stub_sps)
        .expect("the parameter set should parse");
    assert_eq!((metadata.width, metadata.height), (2, 1));
    assert_eq!(metadata.layout, HeicPixelLayout::Yuv400);
}

#[test]
fn the_luma_of_an_auxiliary_item_is_opacity() {
    let (properties, item) = coded_item(2);
    let plane = decode_auxiliary_alpha_item_candidate(&properties.hvcc, &item.payload, &stub_frame)
        .expect("the item should decode");
    assert_eq!((plane.width, plane.height, plane.bit_depth), (2, 1, 8));
    assert_eq!(plane.samples, vec![3, 4]);
    assert!(
        decode_auxiliary_alpha_item_candidate(&properties.hvcc, &[1], &stub_frame).is_none()
    );
}

#[test]
fn the_first_opacity_of_the_right_size_counts() {
    let plane = |width: u32, sample: u16| HeicAuxiliaryAlphaPlane {
        width,
        height: 1,
        bit_depth: 8,
        samples: vec![sample; width as usize],
    };
    let candidate = |k: usize| match k {
        0 => None,
        1 => Some(plane(3, 1)),
        2 => Some(plane(2, 2)),
        _ => Some(plane(2, 3)),
    };
    let chosen = decode_primary_auxiliary_alpha_plane(4, 2, 1, &candidate);
    assert_eq!(chosen.expect("one fits").samples, vec![2, 2]);
    assert!(decode_primary_auxiliary_alpha_plane(2, 2, 1, &candidate).is_none());
    assert!(decode_primary_auxiliary_alpha_plane(4, 5, 1, &candidate).is_none());
}
