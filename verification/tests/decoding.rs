use heif_decode::alpha::{avif_alpha_from_decoded, decode_auxiliary_alpha_avif_item_candidate};
use heif_decode::av1::{
    after_picture_request, coded_bit_depth, decode_layout_from_dav1d, ensure_dav1d_ok,
    picture_rows_to_image, plan_picture, PictureHeader, PictureRows, PictureStep,
};
use heif_decode::avif::{
    decode_primary_avif_to_image, require_av1_item, AvifPrimaryItemPreflightProperties,
};
use heif_decode::decode::{
    decode_avif_to_rgba, decode_avif_to_rgba16_native_endian_bytes, decode_avif_to_rgba8_slice,
    decode_primary_heic_to_rgb8,
    decode_primary_heic_to_rgba, decode_primary_heic_to_rgba16_native_endian_bytes,
    decode_primary_heic_to_rgba8_slice, require_rgb8_family, require_whole_rgba16_samples,
    HeicPrimaryItem,
};
use heif_decode::errors::{
    ContainerError, DecodeAvifError, DecodeError, DecodeGuardrailError, DecodeHeicError,
};
use heif_decode::family::HeifInputFamily;
use heif_decode::guardrails::DecodeGuardrails;
use heif_decode::hevc::coded::HeicPrimaryItemPreflightProperties;
use heif_decode::hevc::frame::HeicFrame;
use heif_decode::hevc::sps::HevcSps;
use heif_decode::hevc::stream::{HevcDecoderConfigurationBox, HevcNalArray};
use heif_decode::layout::{
    avif_probe_source_bit_depth, avif_rgba_layout, heic_metadata_from_coded_item,
    heic_metadata_from_preflight, heic_rgba_layout_from_metadata, HeicPrimaryItemData,
};
use heif_decode::output::ByteOrder;
use heif_decode::png_file::{decoded_rgba_to_png, masked_samples, png_outcome, sample_bytes};
use heif_decode::rgba::{DecodedRgbaImage, DecodedRgbaPixels};
use heif_decode::scaling::{
    scale_heic_sample_to_image_rgb8, scale_sample_to_u16, scale_sample_to_u8,
};
use heif_decode::transform::mapping::{ImageRotationProperty, PrimaryItemTransformProperty};
use heif_decode::types::{
    AvifAuxiliaryAlphaPlane, AvifPixelLayout, AvifPlane, AvifPlaneSamples, DecodedAvifImage,
    DecodedHeicImage, HeicAuxiliaryAlphaPlane, PrimaryItemColorProperties, YCbCrMatrixCoefficients,
    YCbCrRange,
};
use heif_decode::ycbcr::PreparedYcbcrToRgb;

fn kernel(_: PreparedYcbcrToRgb, y: i32, _: i32, _: i32) -> (u16, u16, u16) {
    (y as u16, y as u16, y as u16)
}

fn no_colours() -> PrimaryItemColorProperties {
    PrimaryItemColorProperties {
        nclx: None,
        icc: None,
    }
}

fn turn() -> [PrimaryItemTransformProperty; 1] {
    [PrimaryItemTransformProperty::Rotation(
        ImageRotationProperty {
            rotation_ccw_degrees: 90,
        },
    )]
}

/// A grey image of two pixels and some bit depth.
fn coded(bit_depth: u8) -> (HeicPrimaryItem, HevcSps, HeicFrame) {
    let properties = HeicPrimaryItemPreflightProperties {
        item_id: 1,
        hvcc: HevcDecoderConfigurationBox {
            nal_length_size: 4,
            nal_arrays: vec![HevcNalArray {
                nal_units: vec![vec![0x42, 0x01]],
            }],
        },
        ispe_width: 2,
        ispe_height: 1,
        colr: no_colours(),
    };
    let item = HeicPrimaryItemData {
        item_id: 1,
        payload: vec![0, 0, 0, 2, 0x26, 0x01],
    };
    let sps = HevcSps {
        chroma_format_idc: 0,
        separate_colour_plane_flag: false,
        pic_width_in_luma_samples: 2,
        pic_height_in_luma_samples: 1,
        conf_win_offset: (0, 0, 0, 0),
        bit_depth_y: bit_depth,
        bit_depth_c: bit_depth,
    };
    let frame = HeicFrame {
        width: 2,
        height: 1,
        cropped_width: 2,
        cropped_height: 1,
        crop_left: 0,
        crop_right: 0,
        crop_top: 0,
        crop_bottom: 0,
        bit_depth,
        chroma_format: 0,
        full_range: true,
        matrix_coeffs: 1,
        colour_primaries: 1,
        y_stride: 2,
        c_stride: 0,
        y_plane: vec![3, 200],
        cb_plane: Vec::new(),
        cr_plane: Vec::new(),
    };
    (HeicPrimaryItem::Coded(properties, item), sps, frame)
}

fn no_tile(_: usize) -> Result<DecodedHeicImage, DecodeHeicError> {
    Err(DecodeHeicError::MissingVclNalUnit)
}

fn opacity(width: u32, height: u32) -> Option<HeicAuxiliaryAlphaPlane> {
    assert_eq!((width, height), (2, 1));
    Some(HeicAuxiliaryAlphaPlane {
        width,
        height,
        bit_depth: 8,
        samples: vec![10, 20],
    })
}

#[test]
fn a_coded_image_is_decoded_with_its_opacity() {
    let (primary, sps, frame) = coded(8);
    let parse = |_: &[u8]| Ok(sps);
    let decode = |_: &[u8]| Ok(frame.clone());
    let unlimited = DecodeGuardrails::default();
    let image = decode_primary_heic_to_rgba(
        &primary,
        &unlimited,
        &turn(),
        Some(vec![5]),
        &no_tile,
        &parse,
        &decode,
        &opacity,
        &kernel,
    )
    .expect("the item should decode");
    assert_eq!((image.width, image.height), (1, 2));
    assert_eq!(image.icc_profile, Some(vec![5]));
    let expected = vec![200, 200, 200, 20, 3, 3, 3, 10];
    assert_eq!(image.pixels, DecodedRgbaPixels::U8(expected.clone()));

    let mut out = vec![0; 8];
    decode_primary_heic_to_rgba8_slice(
        &primary, &unlimited, &turn(), &mut out, &no_tile, &parse, &decode, &opacity, &kernel,
    )
    .expect("the item should decode");
    assert_eq!(out, expected);

    let rgb = decode_primary_heic_to_rgb8(
        &primary, &unlimited, &turn(), None, &no_tile, &parse, &decode, &kernel,
    )
    .expect("the item should decode");
    assert_eq!(rgb.pixels, vec![200, 200, 200, 3, 3, 3]);

    let mut wide = vec![0; 16];
    assert!(
        decode_primary_heic_to_rgba16_native_endian_bytes(
            &primary, &unlimited, &turn(), &mut wide, &no_tile, &parse, &decode, &opacity, &kernel,
        )
        .is_err()
    );
}

#[test]
fn opacity_is_not_looked_for_beyond_the_limit() {
    let (primary, sps, frame) = coded(8);
    let guardrails = DecodeGuardrails {
        max_pixels: Some(1),
        ..DecodeGuardrails::default()
    };
    let untouched = |_: u32, _: u32| -> Option<HeicAuxiliaryAlphaPlane> {
        panic!("the image is too large")
    };
    let result = decode_primary_heic_to_rgba(
        &primary,
        &guardrails,
        &[],
        None,
        &no_tile,
        &|_: &[u8]| Ok(sps),
        &|_: &[u8]| Ok(frame.clone()),
        &untouched,
        &kernel,
    );
    assert!(matches!(
        result,
        Err(DecodeError::Guardrail(
            DecodeGuardrailError::PixelCountExceeded { .. }
        ))
    ));
}

#[test]
fn the_announced_layout_is_that_of_the_decoded_image() {
    let (primary, sps, frame) = coded(10);
    let parse = |_: &[u8]| Ok(sps);
    let HeicPrimaryItem::Coded(properties, item) = &primary else {
        panic!("a coded image");
    };
    let metadata =
        heic_metadata_from_preflight(properties, &parse).expect("the configuration has it all");
    assert_eq!(
        heic_metadata_from_coded_item(properties, item, &parse),
        Ok(metadata)
    );
    let unlimited = DecodeGuardrails::default();
    let layout = heic_rgba_layout_from_metadata(&metadata, &unlimited, &turn(), None)
        .expect("the metadata are valid");
    let image = decode_primary_heic_to_rgba(
        &primary,
        &unlimited,
        &turn(),
        None,
        &no_tile,
        &parse,
        &|_: &[u8]| Ok(frame.clone()),
        &|_: u32, _: u32| None,
        &kernel,
    )
    .expect("the item should decode");
    assert_eq!((layout.width, layout.height), (image.width, image.height));
    assert_eq!(layout.source_bit_depth, image.source_bit_depth);
    assert_eq!(layout.storage_bit_depth, image.storage_bit_depth());
    assert_eq!(layout.storage_bit_depth, 16);

    // Another size than the announced one needs the payload.
    let mut other = properties.clone();
    other.ispe_width = 3;
    assert_eq!(heic_metadata_from_preflight(&other, &parse), None);
    assert!(heic_metadata_from_coded_item(&other, item, &parse).is_err());
}

fn avif_properties() -> AvifPrimaryItemPreflightProperties {
    AvifPrimaryItemPreflightProperties {
        ispe_width: 2,
        ispe_height: 1,
        colr: no_colours(),
        config_obus: vec![1, 2],
    }
}

fn avif_stream(stream: &[u8]) -> Result<DecodedAvifImage, DecodeAvifError> {
    assert_eq!(stream, &[1, 2, 3, 4]);
    Ok(DecodedAvifImage {
        width: 2,
        height: 1,
        bit_depth: 8,
        layout: AvifPixelLayout::Yuv400,
        ycbcr_range: YCbCrRange::Limited,
        ycbcr_matrix: YCbCrMatrixCoefficients {
            matrix_coefficients: 9,
            colour_primaries: 9,
        },
        y_plane: AvifPlane {
            width: 2,
            height: 1,
            samples: AvifPlaneSamples::U8(vec![7, 9]),
        },
        u_plane: None,
        v_plane: None,
        alpha_plane: None,
    })
}

fn avif_opacity(_: u32, _: u32) -> Option<AvifAuxiliaryAlphaPlane> {
    Some(AvifAuxiliaryAlphaPlane {
        width: 2,
        height: 1,
        bit_depth: 8,
        samples: AvifPlaneSamples::U8(vec![1, 2]),
    })
}

#[test]
fn an_avif_image_is_decoded_from_configuration_and_payload() {
    let image = decode_primary_avif_to_image(
        &avif_properties(),
        &[3, 4],
        &avif_stream,
        &avif_opacity,
    )
    .expect("the item should decode");
    // Colours come from the properties, not from the stream.
    assert_eq!(image.ycbcr_range, YCbCrRange::Full);
    assert_eq!(image.ycbcr_matrix, YCbCrMatrixCoefficients::default());
    assert!(image.alpha_plane.is_some());

    let mut wrong = avif_properties();
    wrong.ispe_height = 2;
    assert!(matches!(
        decode_primary_avif_to_image(&wrong, &[3, 4], &avif_stream, &avif_opacity),
        Err(DecodeAvifError::DecodedGeometryMismatch {
            expected_height: 2,
            actual_height: 1,
            ..
        })
    ));
}

#[test]
fn avif_images_become_rgba() {
    let unlimited = DecodeGuardrails::default();
    let image = decode_avif_to_rgba(
        &avif_properties(),
        &[3, 4],
        &unlimited,
        &[],
        None,
        &avif_stream,
        &avif_opacity,
        &kernel,
    )
    .expect("the item should decode");
    let expected = vec![7, 7, 7, 1, 9, 9, 9, 2];
    assert_eq!(image.pixels, DecodedRgbaPixels::U8(expected.clone()));
    let mut out = vec![0; 8];
    decode_avif_to_rgba8_slice(
        &avif_properties(),
        &[3, 4],
        &unlimited,
        &[],
        &mut out,
        &avif_stream,
        &avif_opacity,
        &kernel,
    )
    .expect("the item should decode");
    assert_eq!(out, expected);
}

#[test]
fn a_buffer_is_left_alone_where_an_avif_item_does_not_decode() {
    let unlimited = DecodeGuardrails::default();
    let mut out = vec![77; 8];
    assert!(decode_avif_to_rgba8_slice(
        &avif_properties(),
        &[9],
        &unlimited,
        &[],
        &mut out,
        &|_: &[u8]| Err(DecodeAvifError::MissingSequenceHeader),
        &avif_opacity,
        &kernel,
    )
    .is_err());
    assert_eq!(out, vec![77; 8]);
    // Eight bits are not sixteen, and a byte is left over.
    let mut odd = vec![77; 17];
    assert!(decode_avif_to_rgba16_native_endian_bytes(
        &avif_properties(),
        &[3, 4],
        &unlimited,
        &[],
        &mut odd,
        &avif_stream,
        &avif_opacity,
        &kernel,
    )
    .is_err());
    assert_eq!(odd, vec![77; 17]);
}

#[test]
fn the_luma_of_an_avif_item_is_opacity() {
    let decoded = avif_stream(&[1, 2, 3, 4]).expect("a whole stream");
    let plane = avif_alpha_from_decoded(decoded.clone()).expect("the plane fits");
    assert_eq!(plane.samples, AvifPlaneSamples::U8(vec![7, 9]));
    let mut short = decoded;
    short.y_plane.samples = AvifPlaneSamples::U8(vec![7]);
    assert_eq!(avif_alpha_from_decoded(short), None);
}

#[test]
fn the_bit_depth_of_an_avif_item_is_in_its_header() {
    // A stand-in for a header parser: the first byte, where it is not zero.
    let header = |bytes: &[u8]| bytes.first().copied().filter(|bits| *bits != 0);
    let payload = || Ok(vec![12]);
    assert_eq!(avif_probe_source_bit_depth(&[10], &header, &payload), Ok(10));
    assert_eq!(avif_probe_source_bit_depth(&[], &header, &payload), Ok(12));
    assert_eq!(
        avif_probe_source_bit_depth(&[], &header, &|| Ok(vec![0])),
        Err(DecodeAvifError::MissingSequenceHeader)
    );
    let mut properties = avif_properties();
    properties.config_obus = vec![10];
    let layout = avif_rgba_layout(
        &properties,
        &DecodeGuardrails::default(),
        &turn(),
        None,
        &header,
        &payload,
    )
    .expect("the properties are valid");
    assert_eq!((layout.width, layout.height), (1, 2));
    assert_eq!((layout.source_bit_depth, layout.storage_bit_depth), (10, 16));
    assert_eq!(coded_bit_depth(0), 8);
    assert_eq!(coded_bit_depth(1), 10);
    assert_eq!(coded_bit_depth(2), 12);
}

#[test]
fn pictures_are_copied_row_by_row() {
    let header = PictureHeader {
        width: 2,
        height: 2,
        bit_depth: 10,
        layout: 0,
        has_y: true,
        has_u: false,
        has_v: false,
        luma_stride: 8,
        chroma_stride: 0,
    };
    let plan = plan_picture(header).expect("a valid picture");
    assert_eq!((plan.luma.row_bytes, plan.luma.stride), (4, 8));
    let rows = PictureRows {
        y: vec![&[1, 0, 0, 1], &[2, 0, 3, 0]],
        u: Vec::new(),
        v: Vec::new(),
    };
    let image = picture_rows_to_image(plan, &rows, ByteOrder::LittleEndian);
    assert_eq!(
        image.y_plane.samples,
        AvifPlaneSamples::U16(vec![1, 256, 2, 3])
    );
    assert_eq!(image.layout, AvifPixelLayout::Yuv400);

    let refused = |change: fn(&mut PictureHeader)| {
        let mut header = header;
        change(&mut header);
        plan_picture(header).expect_err("a broken picture")
    };
    assert!(matches!(
        refused(|header| header.width = 0),
        DecodeAvifError::InvalidImageGeometry { width: 0, height: 2 }
    ));
    assert!(matches!(
        refused(|header| header.bit_depth = 17),
        DecodeAvifError::UnsupportedBitDepth { bit_depth: 17 }
    ));
    assert!(matches!(
        refused(|header| header.layout = 9),
        DecodeAvifError::UnsupportedPixelLayout { layout: 9 }
    ));
    assert!(matches!(
        refused(|header| header.has_y = false),
        DecodeAvifError::MissingPlane { plane: "Y", .. }
    ));
    assert!(matches!(
        refused(|header| header.luma_stride = 3),
        DecodeAvifError::PlaneStrideTooSmall { .. }
    ));
    assert_eq!(decode_layout_from_dav1d(3), Ok(AvifPixelLayout::Yuv444));
}

#[test]
fn a_decoder_is_asked_again_a_few_times() {
    assert_eq!(after_picture_request(0, 0, -11), Ok(PictureStep::Take));
    assert_eq!(after_picture_request(0, -11, -11), Ok(PictureStep::AskAgain));
    assert_eq!(
        after_picture_request(15, -11, -11),
        Err(DecodeAvifError::DecoderNoFrameOutput)
    );
    assert_eq!(
        after_picture_request(0, -5, -11),
        Err(DecodeAvifError::DecoderApi {
            stage: "dav1d_get_picture",
            code: -5
        })
    );
    assert!(ensure_dav1d_ok("dav1d_open", 0).is_ok());
    assert!(ensure_dav1d_ok("dav1d_open", -1).is_err());
}

#[test]
fn samples_keep_the_ends_of_their_range() {
    for bit_depth in 1..=16 {
        let max = ((1_u32 << bit_depth) - 1) as u16;
        assert_eq!(scale_sample_to_u8(0, bit_depth), 0);
        assert_eq!(scale_sample_to_u8(max, bit_depth), 255);
        assert_eq!(scale_sample_to_u16(0, bit_depth), 0);
        assert_eq!(scale_sample_to_u16(max, bit_depth), 65535);
    }
    // The bits of the sample, over and over.
    assert_eq!(scale_sample_to_u16(0b1010, 4), 0xAAAA);
    assert_eq!(scale_sample_to_u16(0b10011, 5), 0b1001_1100_1110_0111);
    assert_eq!(scale_sample_to_u16(0x5C, 7), 0b1011_1001_0111_0010);
    // Beyond the bit depth, the largest sample.
    assert_eq!(scale_sample_to_u16(16, 4), 65535);
    assert_eq!(scale_sample_to_u16(1, 10), 64);
    assert_eq!(scale_sample_to_u16(512, 10), 32800);
    assert_eq!(scale_sample_to_u8(512, 10), 128);
    assert_eq!(scale_heic_sample_to_image_rgb8(512, 10), 128);
    assert_eq!(scale_heic_sample_to_image_rgb8(77, 8), 77);
}

fn rgba16(samples: Vec<u16>, source_bit_depth: u8) -> DecodedRgbaImage {
    DecodedRgbaImage {
        width: 1,
        height: 1,
        source_bit_depth,
        pixels: DecodedRgbaPixels::U16(samples),
        icc_profile: None,
    }
}

/// The samples of a PNG file, as bytes, and its profile.
fn read_png(file: &[u8]) -> (u32, u32, Vec<u8>, Option<Vec<u8>>) {
    let decoder = png::Decoder::new(std::io::Cursor::new(file));
    let mut reader = decoder.read_info().expect("a PNG file");
    let mut bytes = vec![0; reader.output_buffer_size().expect("a small image")];
    let info = reader.next_frame(&mut bytes).expect("a whole file");
    bytes.truncate(info.buffer_size());
    let profile = reader
        .info()
        .icc_profile
        .as_ref()
        .map(|profile| profile.to_vec());
    (info.width, info.height, bytes, profile)
}

#[test]
fn eight_bit_images_become_png_files() {
    let image = DecodedRgbaImage {
        width: 2,
        height: 1,
        source_bit_depth: 8,
        pixels: DecodedRgbaPixels::U8(vec![1, 2, 3, 4, 5, 6, 7, 8]),
        icc_profile: Some(vec![9, 9, 9]),
    };
    let file = decoded_rgba_to_png(&image).expect("a valid image");
    assert_eq!(
        read_png(&file),
        (2, 1, vec![1, 2, 3, 4, 5, 6, 7, 8], Some(vec![9, 9, 9]))
    );
}

#[test]
fn the_outcome_of_encoding_is_handed_on() {
    assert_eq!(png_outcome(Ok(vec![1, 2])), Ok(vec![1, 2]));
    assert_eq!(
        png_outcome(Err("Limits are exceeded.".to_string())),
        Err(DecodeError::PngEncoding("Limits are exceeded.".to_string()))
    );
}

#[test]
fn files_have_samples_without_repeated_bits() {
    // 513 in ten bits is 32864 in sixteen; in a file it is 513 * 64.
    let sample = scale_sample_to_u16(513, 10);
    assert_eq!(sample, 32864);
    assert_eq!(
        masked_samples(&[sample, 65535, 1, 65535], 10),
        vec![32832, 65472, 0, 65535]
    );
    assert_eq!(masked_samples(&[sample], 16), vec![sample]);
    assert_eq!(sample_bytes(&[0x1234, 5]), Ok(vec![0x12, 0x34, 0, 5]));
    let file =
        decoded_rgba_to_png(&rgba16(vec![sample, 65535, 1, 65535], 10)).expect("a valid image");
    assert_eq!(
        read_png(&file),
        (1, 1, vec![0x80, 0x40, 0xFF, 0xC0, 0, 0, 0xFF, 0xFF], None)
    );
}

#[test]
fn images_with_other_numbers_of_samples_become_no_file() {
    assert!(matches!(
        decoded_rgba_to_png(&rgba16(vec![1, 2, 3], 16)),
        Err(DecodeError::PngEncoding(_))
    ));
    let mut empty = rgba16(Vec::new(), 16);
    empty.width = 0;
    assert!(matches!(
        decoded_rgba_to_png(&empty),
        Err(DecodeError::PngEncoding(_))
    ));
}

#[test]
fn outputs_that_do_not_fit_are_refused() {
    assert!(require_whole_rgba16_samples(4).is_ok());
    assert_eq!(
        require_whole_rgba16_samples(5)
            .expect_err("an odd length")
            .message(),
        "RGBA16 image adapter output has an odd byte length"
    );
    assert!(require_rgb8_family(HeifInputFamily::Heif).is_ok());
    assert_eq!(
        require_rgb8_family(HeifInputFamily::Avif)
            .expect_err("another family")
            .message(),
        "direct RGB8 output currently supports coded HEIC/HEIF inputs"
    );
}

#[test]
fn the_primary_item_of_an_avif_file_is_an_av1_image() {
    assert!(require_av1_item(1, Some(*b"av01")).is_ok());
    let Err(DecodeAvifError::ExtractPrimaryPayload(ContainerError::UnexpectedPrimaryItemType {
        message,
    })) = require_av1_item(7, Some(*b"hvc1"))
    else {
        panic!("an item of another type");
    };
    assert_eq!(message, "primary item 7 has the type hvc1, not av01");
    assert!(matches!(
        require_av1_item(7, None),
        Err(DecodeAvifError::ExtractPrimaryPayload(
            ContainerError::Other { .. }
        ))
    ));
}

#[test]
fn an_item_is_decoded_as_opacity_from_configuration_and_payload() {
    let plane = decode_auxiliary_alpha_avif_item_candidate(&[1, 2], &[3, 4], &avif_stream)
        .expect("a whole stream");
    assert_eq!((plane.width, plane.height, plane.bit_depth), (2, 1, 8));
    assert_eq!(plane.samples, AvifPlaneSamples::U8(vec![7, 9]));
    let failing = |_: &[u8]| Err(DecodeAvifError::DecoderNoFrameOutput);
    assert_eq!(
        decode_auxiliary_alpha_avif_item_candidate(&[1, 2], &[3, 4], &failing),
        None
    );
}
