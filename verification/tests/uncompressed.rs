use std::io::Write;

use heif_decode::errors::{
    ContainerError, DecodeError, DecodeGuardrailError, DecodeUncompressedError, InputFault,
};
use heif_decode::guardrails::DecodeGuardrails;
use heif_decode::layout::uncompressed_rgba_layout;
use heif_decode::rgba::DecodedRgbaPixels;
use heif_decode::transform::mapping::{ImageRotationProperty, PrimaryItemTransformProperty};
use heif_decode::types::PrimaryItemColorProperties;
use heif_decode::uncompressed::channels::{decode_primary_uncompressed_to_image, UncompressedItemData};
use heif_decode::uncompressed::components::{
    UncompressedChannelRole, UncompressedComponent, UncompressedComponentDecodeSpec,
    UncompressedFrameConfig, UncompressedPrimaryItemProperties,
};
use heif_decode::uncompressed::compression::{
    maybe_decode_primary_uncompressed_generic_compression_payload, RawProperty,
    UncompressedGenericCompressionProperties,
};
use heif_decode::uncompressed::interleave::{
    decode_uncompressed_pixel_interleave, decode_uncompressed_row_interleave,
};
use heif_decode::uncompressed::output::{
    decode_uncompressed_heif_to_rgba, decode_uncompressed_heif_to_rgba16_native_endian_bytes,
    decode_uncompressed_heif_to_rgba8_slice, uncompressed_primary_item,
};
use heif_decode::uncompressed::reader::UncompressedBitReader;
use heif_decode::uncompressed::stream::UncompressedDecodeTileRegion;
use heif_decode::uncompressed::tiles::{
    decode_uncompressed_tile_component_interleave, UncompressedTileDecodeLayout,
};
use heif_decode::ycbcr::PreparedYcbcrToRgb;

fn kernel(_: PreparedYcbcrToRgb, y: i32, cb: i32, cr: i32) -> (u16, u16, u16) {
    (cr as u16, y as u16, cb as u16)
}

fn no_compression() -> UncompressedGenericCompressionProperties {
    UncompressedGenericCompressionProperties {
        configurations: Vec::new(),
        unit_tables: Vec::new(),
    }
}

fn item(payload: Vec<u8>) -> UncompressedItemData {
    UncompressedItemData {
        item_id: 1,
        generic_compression_properties: no_compression(),
        payload,
    }
}

/// An image of two pixels in the `rgb3` profile, and its RGBA samples.
fn minimal_uncompressed_rgb3() -> (
    UncompressedPrimaryItemProperties,
    UncompressedItemData,
    Vec<u8>,
) {
    let properties = UncompressedPrimaryItemProperties {
        item_id: 1,
        width: 2,
        height: 1,
        unc_c: UncompressedFrameConfig {
            version: 1,
            profile: *b"rgb3",
            components: Vec::new(),
            sampling_type: 0,
            interleave_type: 1,
            block_size: 0,
            components_little_endian: false,
            block_pad_lsb: false,
            block_little_endian: false,
            block_reversed: false,
            pad_unknown: false,
            pixel_size: 0,
            row_align_size: 0,
            tile_align_size: 0,
            num_tile_cols: 1,
            num_tile_rows: 1,
        },
        component_types: None,
        colr: PrimaryItemColorProperties {
            nclx: None,
            icc: None,
        },
    };
    (
        properties,
        item(vec![10, 20, 30, 40, 50, 60]),
        vec![10, 20, 30, 255, 40, 50, 60, 255],
    )
}

/// Components of some types and bit depths, in an image of `width` columns
/// and one row.
fn components(
    width: u32,
    types: &[(u16, u16)],
    interleave_type: u8,
) -> UncompressedPrimaryItemProperties {
    let (mut properties, _, _) = minimal_uncompressed_rgb3();
    properties.width = width;
    properties.unc_c.version = 0;
    properties.unc_c.interleave_type = interleave_type;
    properties.unc_c.components = types
        .iter()
        .enumerate()
        .map(|(index, (_, bits))| UncompressedComponent {
            component_index: index as u16,
            component_bit_depth: *bits,
            component_format: 0,
            component_align_size: 0,
        })
        .collect();
    properties.component_types = Some(types.iter().map(|(kind, _)| *kind).collect());
    properties
}

#[test]
fn eager_decode_supports_minimal_uncompressed_heif() {
    let (properties, item, expected_rgba) = minimal_uncompressed_rgb3();
    let decoded = decode_uncompressed_heif_to_rgba(
        &properties,
        item,
        &DecodeGuardrails::default(),
        &[],
        &kernel,
    )
    .expect("eager decode should succeed");
    assert_eq!((decoded.width, decoded.height), (2, 1));
    assert_eq!(decoded.pixels, DecodedRgbaPixels::U8(expected_rgba));
}

#[test]
fn lazy_layout_probe_accepts_uncompressed_heif() {
    let (properties, _, _) = minimal_uncompressed_rgb3();
    let layout = uncompressed_rgba_layout(&properties, &DecodeGuardrails::default(), &[])
        .expect("layout probe must accept uncompressed HEIF");
    assert_eq!((layout.width, layout.height), (2, 1));
    assert_eq!(layout.source_bit_depth, 8);
    assert_eq!(layout.storage_bit_depth, 8);
}

#[test]
fn lazy_slice_decodes_uncompressed_heif() {
    let (properties, item, expected_rgba) = minimal_uncompressed_rgb3();
    let mut rgba8 = vec![0_u8; expected_rgba.len()];
    decode_uncompressed_heif_to_rgba8_slice(
        &properties,
        item,
        &DecodeGuardrails::default(),
        &[],
        &mut rgba8,
        &kernel,
    )
    .expect("RGBA8 slice decode must support uncompressed HEIF");
    assert_eq!(rgba8, expected_rgba);
}

#[test]
fn too_many_pixels_are_refused() {
    let (properties, item, _) = minimal_uncompressed_rgb3();
    let guardrails = DecodeGuardrails {
        max_pixels: Some(1),
        ..DecodeGuardrails::default()
    };
    assert!(matches!(
        uncompressed_rgba_layout(&properties, &guardrails, &[]),
        Err(DecodeError::Guardrail(
            DecodeGuardrailError::PixelCountExceeded {
                width: 2,
                height: 1,
                actual_pixels: 2,
                max_pixels: 1
            }
        ))
    ));
    assert!(matches!(
        decode_uncompressed_heif_to_rgba(&properties, item, &guardrails, &[], &kernel),
        Err(DecodeError::Guardrail(_))
    ));
}

#[test]
fn components_are_read_bit_by_bit() {
    // Grey samples of four bits: two to a byte, the high ones first.
    let properties = components(3, &[(0, 4)], 0);
    let image = decode_primary_uncompressed_to_image(&properties, item(vec![0x1F, 0x80]), &kernel)
        .expect("the payload is long enough");
    assert_eq!(image.bit_depth, 4);
    assert_eq!(
        image.rgba,
        vec![1, 1, 1, 15, 15, 15, 15, 15, 8, 8, 8, 15]
    );
    // The same samples in eight bits.
    let rgba = decode_uncompressed_heif_to_rgba(
        &properties,
        item(vec![0x1F, 0x80]),
        &DecodeGuardrails::default(),
        &[],
        &kernel,
    )
    .expect("the payload is long enough");
    assert_eq!(
        rgba.pixels,
        DecodedRgbaPixels::U8(vec![17, 17, 17, 255, 255, 255, 255, 255, 136, 136, 136, 255])
    );
    assert!(matches!(
        decode_primary_uncompressed_to_image(&properties, item(vec![0x1F]), &kernel),
        Err(DecodeUncompressedError::InvalidInput { .. })
    ));
}

#[test]
fn channels_come_one_after_another_or_pixel_by_pixel() {
    let kinds = [(4, 8), (5, 8), (6, 8), (7, 8)];
    let expected = vec![1, 2, 3, 4, 5, 6, 7, 8];
    let planar = decode_primary_uncompressed_to_image(
        &components(2, &kinds, 0),
        item(vec![1, 5, 2, 6, 3, 7, 4, 8]),
        &kernel,
    )
    .expect("the payload is long enough");
    assert_eq!(planar.rgba, expected);
    let interleaved = decode_primary_uncompressed_to_image(
        &components(2, &kinds, 1),
        item(vec![1, 2, 3, 4, 5, 6, 7, 8]),
        &kernel,
    )
    .expect("the payload is long enough");
    assert_eq!(interleaved.rgba, expected);
    let rows = decode_primary_uncompressed_to_image(
        &components(2, &kinds, 3),
        item(vec![1, 5, 2, 6, 3, 7, 4, 8]),
        &kernel,
    )
    .expect("the payload is long enough");
    assert_eq!(rows.rgba, expected);
}

/// Red and green components of eight bits.
fn red_and_green() -> [UncompressedComponentDecodeSpec; 2] {
    [UncompressedChannelRole::Red, UncompressedChannelRole::Green].map(|role| {
        UncompressedComponentDecodeSpec {
            role,
            bit_depth: 8,
            component_align_size: 0,
        }
    })
}

/// Channels of which red and green are there, with so many zeros each.
fn red_and_green_channels(red: usize, green: usize) -> [Option<Vec<u16>>; 8] {
    let mut channels: [Option<Vec<u16>>; 8] = [(); 8].map(|()| None);
    channels[4] = Some(vec![0; red]);
    channels[5] = Some(vec![0; green]);
    channels
}

#[test]
fn tiles_hold_their_components_one_after_another() {
    let payload: Vec<u8> = (1..=16).collect();
    let layout = UncompressedTileDecodeLayout {
        tile_rows: 1,
        tile_cols: 2,
        tile_width: 2,
        tile_height: 2,
        image_width: 4,
        row_align_size: 0,
        tile_align_size: 0,
    };
    let mut channels = red_and_green_channels(8, 8);
    decode_uncompressed_tile_component_interleave(
        &payload,
        &red_and_green(),
        layout,
        0,
        &mut channels,
    )
    .expect("the payload is long enough");
    assert_eq!(channels[4], Some(vec![1, 2, 5, 6, 3, 4, 7, 8]));
    assert_eq!(channels[5], Some(vec![9, 10, 13, 14, 11, 12, 15, 16]));

    // One byte is missing: nothing is written.
    let mut channels = red_and_green_channels(8, 8);
    assert!(matches!(
        decode_uncompressed_tile_component_interleave(
            &payload[..15],
            &red_and_green(),
            layout,
            0,
            &mut channels,
        ),
        Err(DecodeUncompressedError::InvalidInput { .. })
    ));
    assert_eq!(channels, red_and_green_channels(8, 8));
}

#[test]
fn channels_that_are_missing_or_too_short_are_refused() {
    let region = UncompressedDecodeTileRegion {
        image_width: 2,
        width: 2,
        height: 1,
        origin_x: 0,
        origin_y: 0,
    };
    let payload = [1, 2, 3, 4];
    // Green holds one pixel only: what came before the other one stays.
    let mut channels = red_and_green_channels(2, 1);
    assert!(matches!(
        decode_uncompressed_pixel_interleave(
            &mut UncompressedBitReader::new(&payload),
            &red_and_green(),
            region,
            0,
            0,
            &mut channels,
        ),
        Err(DecodeUncompressedError::InvalidInput { .. })
    ));
    assert_eq!(channels[4], Some(vec![1, 3]));
    assert_eq!(channels[5], Some(vec![2]));

    // Red is missing: nothing is written.
    let mut channels = red_and_green_channels(2, 2);
    channels[4] = None;
    let before = channels.clone();
    assert!(matches!(
        decode_uncompressed_row_interleave(
            &mut UncompressedBitReader::new(&payload),
            &red_and_green(),
            region,
            0,
            &mut channels,
        ),
        Err(DecodeUncompressedError::InvalidInput { .. })
    ));
    assert_eq!(channels, before);
}

#[test]
fn a_buffer_is_left_alone_where_an_item_does_not_decode() {
    let (properties, _, _) = minimal_uncompressed_rgb3();
    let mut out = vec![77_u8; 8];
    assert!(decode_uncompressed_heif_to_rgba8_slice(
        &properties,
        item(vec![10, 20]),
        &DecodeGuardrails::default(),
        &[],
        &mut out,
        &kernel,
    )
    .is_err());
    assert_eq!(out, vec![77_u8; 8]);
    let mut odd = vec![77_u8; 17];
    assert!(decode_uncompressed_heif_to_rgba16_native_endian_bytes(
        &properties,
        item(vec![10, 20, 30, 40, 50, 60]),
        &DecodeGuardrails::default(),
        &[],
        &mut odd,
        &kernel,
    )
    .is_err());
    assert_eq!(odd, vec![77_u8; 17]);
}

#[test]
fn deep_samples_go_into_sixteen_bits() {
    // Grey samples of ten bits: 1 and 1023.
    let properties = components(2, &[(0, 10)], 0);
    let payload = vec![0x00, 0x7F, 0xF0];
    let layout = uncompressed_rgba_layout(&properties, &DecodeGuardrails::default(), &[])
        .expect("the properties are valid");
    assert_eq!((layout.source_bit_depth, layout.storage_bit_depth), (10, 16));
    let mut out = vec![0_u8; 16];
    decode_uncompressed_heif_to_rgba16_native_endian_bytes(
        &properties,
        item(payload.clone()),
        &DecodeGuardrails::default(),
        &[],
        &mut out,
        &kernel,
    )
    .expect("the buffer fits");
    let samples: Vec<u16> = out
        .chunks_exact(2)
        .map(|pair| u16::from_ne_bytes([pair[0], pair[1]]))
        .collect();
    assert_eq!(
        samples,
        vec![64, 64, 64, 65535, 65535, 65535, 65535, 65535]
    );
    let mut small = vec![0_u8; 8];
    let error = decode_uncompressed_heif_to_rgba8_slice(
        &properties,
        item(payload),
        &DecodeGuardrails::default(),
        &[],
        &mut small,
        &kernel,
    )
    .expect_err("ten bits do not fit");
    assert_eq!(
        error.message(),
        "uncompressed HEIF storage is RGBA16, not RGBA8"
    );
}

fn compressed(kind: &[u8; 4], unit_type: u8) -> UncompressedGenericCompressionProperties {
    let mut payload = vec![0, 0, 0, 0];
    payload.extend_from_slice(kind);
    payload.push(unit_type);
    UncompressedGenericCompressionProperties {
        configurations: vec![RawProperty { offset: 0, payload }],
        unit_tables: Vec::new(),
    }
}

fn zlib(data: &[u8]) -> Vec<u8> {
    let mut encoder = flate2::write::ZlibEncoder::new(Vec::new(), flate2::Compression::default());
    encoder.write_all(data).expect("writing to memory");
    encoder.finish().expect("writing to memory")
}

#[test]
fn payloads_are_unpacked_by_their_method() {
    let data = b"some data, some data, some data".to_vec();

    let unpacked = maybe_decode_primary_uncompressed_generic_compression_payload(
        1,
        &compressed(b"zlib", 0),
        zlib(&data),
    );
    assert_eq!(unpacked.expect("valid zlib data"), data);

    let mut encoder =
        flate2::write::DeflateEncoder::new(Vec::new(), flate2::Compression::default());
    encoder.write_all(&data).expect("writing to memory");
    let unpacked = maybe_decode_primary_uncompressed_generic_compression_payload(
        1,
        &compressed(b"defl", 0),
        encoder.finish().expect("writing to memory"),
    );
    assert_eq!(unpacked.expect("valid deflate data"), data);

    let mut packed = Vec::new();
    {
        let mut writer = brotli::CompressorWriter::new(&mut packed, 4096, 5, 22);
        writer.write_all(&data).expect("writing to memory");
    }
    let unpacked = maybe_decode_primary_uncompressed_generic_compression_payload(
        1,
        &compressed(b"brot", 0),
        packed,
    );
    assert_eq!(unpacked.expect("valid brotli data"), data);

    // Without a `cmpC` property the payload is as it is.
    let kept = maybe_decode_primary_uncompressed_generic_compression_payload(
        1,
        &no_compression(),
        data.clone(),
    );
    assert_eq!(kept.expect("nothing to unpack"), data);
}

#[test]
fn broken_and_unknown_compression_is_refused() {
    for kind in [b"zlib", b"defl", b"brot"] {
        assert!(matches!(
            maybe_decode_primary_uncompressed_generic_compression_payload(
                1,
                &compressed(kind, 0),
                vec![0xFF, 0xFE, 0xFD, 0xFC],
            ),
            Err(DecodeUncompressedError::InvalidInput {
                detail: InputFault::Unpacking { unit_index: 0, .. }
            })
        ));
    }
    assert!(matches!(
        maybe_decode_primary_uncompressed_generic_compression_payload(
            1,
            &compressed(b"none", 0),
            vec![1],
        ),
        Err(DecodeUncompressedError::UnsupportedFeature { .. })
    ));
    // A tile needs a table of units.
    assert!(matches!(
        maybe_decode_primary_uncompressed_generic_compression_payload(
            1,
            &compressed(b"zlib", 2),
            zlib(b"x"),
        ),
        Err(DecodeUncompressedError::InvalidInput { .. })
    ));
}

#[test]
fn units_are_unpacked_one_by_one() {
    let first = zlib(b"first ");
    let second = zlib(b"second");
    let mut properties = compressed(b"zlib", 2);
    // Units that follow each other, with sizes of one byte.
    properties.unit_tables.push(RawProperty {
        offset: 0,
        payload: vec![
            0,
            0,
            0,
            0,
            0,
            0,
            0,
            0,
            2,
            first.len() as u8,
            second.len() as u8,
        ],
    });
    let mut payload = first;
    payload.extend_from_slice(&second);
    let unpacked =
        maybe_decode_primary_uncompressed_generic_compression_payload(1, &properties, payload);
    assert_eq!(unpacked.expect("valid units"), b"first second".to_vec());
}

#[test]
fn an_item_of_another_type_is_no_uncompressed_one() {
    assert_eq!(uncompressed_primary_item(Ok(5)), Ok(Some(5)));
    let other = ContainerError::UnexpectedPrimaryItemType {
        message: "hvc1".to_string(),
    };
    assert_eq!(uncompressed_primary_item::<u8>(Err(other)), Ok(None));
    let broken = ContainerError::Other {
        message: "broken".to_string(),
    };
    assert_eq!(
        uncompressed_primary_item::<u8>(Err(broken.clone())),
        Err(DecodeError::UncompressedDecode(
            DecodeUncompressedError::ParsePrimaryProperties(broken)
        ))
    );
}

#[test]
fn a_buffer_holds_the_pixels_of_the_image() {
    let properties = components(2, &[(4, 5), (5, 6), (6, 7), (7, 8)], 1);
    // Five, six, seven and eight bits, pixel by pixel.
    let payload = vec![0xFF, 0xF0, 0x0F, 0x01, 0x08, 0x10, 0x7F];
    let turn = [PrimaryItemTransformProperty::Rotation(
        ImageRotationProperty {
            rotation_ccw_degrees: 180,
        },
    )];
    let image = decode_uncompressed_heif_to_rgba(
        &properties,
        item(payload.clone()),
        &DecodeGuardrails::default(),
        &turn,
        &kernel,
    )
    .expect("the payload is long enough");
    let mut buffer = vec![0_u8; 8];
    decode_uncompressed_heif_to_rgba8_slice(
        &properties,
        item(payload),
        &DecodeGuardrails::default(),
        &turn,
        &mut buffer,
        &kernel,
    )
    .expect("the buffer fits");
    assert_eq!(image.pixels, DecodedRgbaPixels::U8(buffer));
}
