use heif_decode::errors::{DecodeHeicError, FrameFault};
use heif_decode::output::{ByteOrder, ScaleToRgb8};
use heif_decode::rgba::{DecodedRgbaImage, DecodedRgbaPixels, ExifOrientationHint};
use heif_decode::transform::aperture::ImageCleanApertureProperty;
use heif_decode::transform::mapping::{
    ImageMirrorDirection, ImageMirrorProperty, ImageRotationProperty, PrimaryItemTransformProperty,
};
use heif_decode::transform::pixels::apply_primary_item_transforms_rgba;
use heif_decode::transform::plan::RgbaTransformPlan;
use heif_decode::types::{
    AvifAuxiliaryAlphaPlane, AvifPixelLayout, AvifPlane, AvifPlaneSamples, DecodedAvifImage,
    DecodedHeicImage, HeicAuxiliaryAlphaPlane, HeicPixelLayout, HeicPlane, YCbCrMatrixCoefficients,
    YCbCrRange,
};
use heif_decode::ycbcr::{
    colour_primaries_from_index, ycbcr_coefficients_from_matrix, Chromaticity, PreparedYcbcrToRgb,
};
use heif_decode::yuv::avif::{
    decoded_avif_to_rgba16_native_endian_bytes, decoded_avif_to_rgba16_output,
    decoded_avif_to_rgba8_slice, decoded_avif_to_rgba_image,
};
use heif_decode::yuv::convert::{
    convert_heic_to_interleaved_rgb8_slice, convert_heic_to_rgba16, convert_heic_to_rgba16_slice,
    convert_heic_to_rgba8,
};
use heif_decode::yuv::crop::{
    crop_heic_by_clean_aperture, heic_clean_aperture_crop_preserves_chroma_phase,
};
use heif_decode::yuv::heic::heic_chroma_subsampling;
use heif_decode::yuv::output::{
    decoded_heic_to_rgba16_native_endian_bytes, decoded_heic_to_rgba8_slice,
};
use heif_decode::yuv::rgba::{
    apply_auxiliary_alpha_to_rgba16, apply_auxiliary_alpha_to_rgba8, decoded_heic_to_rgb8_image,
    decoded_heic_to_rgba_image,
};

/// The weights of BT.709 in full range, on floating-point numbers.
fn kernel(prepared: PreparedYcbcrToRgb, y: i32, cb: i32, cr: i32) -> (u16, u16, u16) {
    let middle = 1 << (prepared.bit_depth - 1);
    let max = (1 << prepared.bit_depth) - 1;
    let clip = |value: f32| ((value + 0.5) as i32).clamp(0, max) as u16;
    let (y, u, v) = (y as f32, (cb - middle) as f32, (cr - middle) as f32);
    (
        clip(y + 1.5748 * v),
        clip(y - 0.187_324_27 * u - 0.468_124_27 * v),
        clip(y + 1.8556 * u),
    )
}

fn synthetic_yuv_image(layout: HeicPixelLayout) -> DecodedHeicImage {
    let width = 8_u32;
    let height = 8_u32;
    let y_samples = (0..width * height)
        .map(|index| (64 + index) as u16)
        .collect();
    let (subsample_x, subsample_y) = heic_chroma_subsampling(layout);
    let chroma_width = width.div_ceil(subsample_x);
    let chroma_height = height.div_ceil(subsample_y);
    let mut u_samples = Vec::new();
    let mut v_samples = Vec::new();
    for chroma_y in 0..chroma_height {
        for chroma_x in 0..chroma_width {
            u_samples.push((100 + chroma_x * 12) as u16);
            v_samples.push((96 + chroma_y * 12) as u16);
        }
    }
    DecodedHeicImage {
        width,
        height,
        bit_depth_luma: 8,
        bit_depth_chroma: 8,
        layout,
        ycbcr_range: YCbCrRange::Full,
        ycbcr_matrix: YCbCrMatrixCoefficients {
            matrix_coefficients: 1,
            colour_primaries: 1,
        },
        y_plane: HeicPlane {
            width,
            height,
            samples: y_samples,
        },
        u_plane: Some(HeicPlane {
            width: chroma_width,
            height: chroma_height,
            samples: u_samples,
        }),
        v_plane: Some(HeicPlane {
            width: chroma_width,
            height: chroma_height,
            samples: v_samples,
        }),
    }
}

fn synthetic_clean_aperture(
    horizontal_offset: i32,
    vertical_offset: i32,
) -> ImageCleanApertureProperty {
    ImageCleanApertureProperty {
        clean_aperture_width_num: 4,
        clean_aperture_width_den: 1,
        clean_aperture_height_num: 4,
        clean_aperture_height_den: 1,
        horizontal_offset_num: horizontal_offset,
        horizontal_offset_den: 1,
        vertical_offset_num: vertical_offset,
        vertical_offset_den: 1,
    }
}

fn mirror(direction: ImageMirrorDirection) -> PrimaryItemTransformProperty {
    PrimaryItemTransformProperty::Mirror(ImageMirrorProperty { direction })
}

fn rotation(rotation_ccw_degrees: u16) -> PrimaryItemTransformProperty {
    PrimaryItemTransformProperty::Rotation(ImageRotationProperty {
        rotation_ccw_degrees,
    })
}

fn rgba8_reference_after_transforms(
    image: &DecodedHeicImage,
    transforms: &[PrimaryItemTransformProperty],
) -> (u32, u32, Vec<u8>) {
    let pixels =
        convert_heic_to_rgba8(image, &kernel).expect("full-frame conversion should succeed");
    apply_primary_item_transforms_rgba(image.width, image.height, pixels, transforms)
        .expect("reference RGBA transform should succeed")
}

fn rgba8_to_rgb8(pixels: &[u8]) -> Vec<u8> {
    pixels
        .chunks_exact(4)
        .flat_map(|pixel| pixel[..3].iter().copied())
        .collect()
}

#[test]
fn direct_rgb8_matches_final_rgba8_output_with_transforms() {
    let image = synthetic_yuv_image(HeicPixelLayout::Yuv420);
    let transforms = [
        PrimaryItemTransformProperty::CleanAperture(synthetic_clean_aperture(-1, -1)),
        mirror(ImageMirrorDirection::Horizontal),
        rotation(90),
    ];
    let rgba = decoded_heic_to_rgba_image(image.clone(), &transforms, None, None, &kernel)
        .expect("RGBA decode should succeed");
    let direct = decoded_heic_to_rgb8_image(image, &transforms, None, &kernel)
        .expect("direct RGB8 decode should succeed");
    let DecodedRgbaPixels::U8(rgba_pixels) = rgba.pixels else {
        panic!("eight-bit input should produce RGBA8");
    };

    assert_eq!((direct.width, direct.height), (rgba.width, rgba.height));
    assert_eq!(direct.pixels, rgba8_to_rgb8(&rgba_pixels));
}

#[test]
fn direct_rgb8_matches_rgba16_to_rgb8_rounding() {
    let mut image = synthetic_yuv_image(HeicPixelLayout::Yuv444);
    image.bit_depth_luma = 10;
    image.bit_depth_chroma = 10;
    for sample in &mut image.y_plane.samples {
        *sample *= 4;
    }
    for sample in image.u_plane.as_mut().expect("U plane").samples.iter_mut() {
        *sample *= 4;
    }
    for sample in image.v_plane.as_mut().expect("V plane").samples.iter_mut() {
        *sample *= 4;
    }
    let transforms = [rotation(270)];
    let rgba = decoded_heic_to_rgba_image(image.clone(), &transforms, None, None, &kernel)
        .expect("RGBA16 decode should succeed");
    let direct = decoded_heic_to_rgb8_image(image, &transforms, None, &kernel)
        .expect("direct RGB8 decode should succeed");
    let DecodedRgbaPixels::U16(rgba_pixels) = rgba.pixels else {
        panic!("ten-bit input should produce RGBA16");
    };
    let expected: Vec<u8> = rgba_pixels
        .chunks_exact(4)
        .flat_map(|pixel| {
            pixel[..3]
                .iter()
                .map(|sample| ((u32::from(*sample) + 128) / 257) as u8)
        })
        .collect();

    assert_eq!((direct.width, direct.height), (rgba.width, rgba.height));
    assert_eq!(direct.pixels, expected);
}

#[test]
fn odd_clean_aperture_crop_falls_back_to_rgba_transform_path() {
    let image = synthetic_yuv_image(HeicPixelLayout::Yuv420);
    let clean_aperture = synthetic_clean_aperture(-1, -1); // origin (1, 1)
    assert!(!heic_clean_aperture_crop_preserves_chroma_phase(
        &image,
        clean_aperture
    ));

    let transforms = [PrimaryItemTransformProperty::CleanAperture(clean_aperture)];
    let (reference_width, reference_height, reference_pixels) =
        rgba8_reference_after_transforms(&image, &transforms);
    assert_eq!((reference_width, reference_height), (4, 4));

    let yuv_cropped = crop_heic_by_clean_aperture(image.clone(), clean_aperture)
        .expect("YUV clap crop should succeed");
    let phase_shifted =
        convert_heic_to_rgba8(&yuv_cropped, &kernel).expect("cropped conversion should succeed");
    assert_ne!(
        phase_shifted, reference_pixels,
        "fixture must expose the chroma phase shift"
    );

    let decoded = decoded_heic_to_rgba_image(image, &transforms, None, None, &kernel)
        .expect("decode should succeed");
    assert_eq!((decoded.width, decoded.height), (4, 4));
    assert_eq!(decoded.pixels, DecodedRgbaPixels::U8(reference_pixels));
}

#[test]
fn chroma_aligned_clean_aperture_yuv_crop_matches_rgba_transform_path() {
    let image = synthetic_yuv_image(HeicPixelLayout::Yuv420);
    let clean_aperture = synthetic_clean_aperture(0, 0); // origin (2, 2)
    assert!(heic_clean_aperture_crop_preserves_chroma_phase(
        &image,
        clean_aperture
    ));

    let transforms = [PrimaryItemTransformProperty::CleanAperture(clean_aperture)];
    let (_, _, reference_pixels) = rgba8_reference_after_transforms(&image, &transforms);

    let decoded = decoded_heic_to_rgba_image(image, &transforms, None, None, &kernel)
        .expect("decode should succeed");
    assert_eq!((decoded.width, decoded.height), (4, 4));
    assert_eq!(decoded.pixels, DecodedRgbaPixels::U8(reference_pixels));
}

#[test]
fn clean_aperture_chroma_phase_guard_mirrors_libheif_conditions() {
    let odd_left = synthetic_clean_aperture(-1, 0); // origin (1, 2)
    let odd_top = synthetic_clean_aperture(0, -1); // origin (2, 1)
    let aligned = synthetic_clean_aperture(0, 0); // origin (2, 2)

    let yuv420 = synthetic_yuv_image(HeicPixelLayout::Yuv420);
    assert!(!heic_clean_aperture_crop_preserves_chroma_phase(
        &yuv420, odd_left
    ));
    assert!(!heic_clean_aperture_crop_preserves_chroma_phase(
        &yuv420, odd_top
    ));
    assert!(heic_clean_aperture_crop_preserves_chroma_phase(
        &yuv420, aligned
    ));

    let yuv422 = synthetic_yuv_image(HeicPixelLayout::Yuv422);
    assert!(!heic_clean_aperture_crop_preserves_chroma_phase(
        &yuv422, odd_left
    ));
    assert!(heic_clean_aperture_crop_preserves_chroma_phase(
        &yuv422, odd_top
    ));

    let yuv444 = synthetic_yuv_image(HeicPixelLayout::Yuv444);
    assert!(heic_clean_aperture_crop_preserves_chroma_phase(
        &yuv444, odd_left
    ));
    assert!(heic_clean_aperture_crop_preserves_chroma_phase(
        &yuv444, odd_top
    ));
}

#[test]
fn odd_clean_aperture_slice_decode_matches_rgba_transform_path() {
    let image = synthetic_yuv_image(HeicPixelLayout::Yuv420);
    let clean_aperture = synthetic_clean_aperture(-1, -1); // origin (1, 1)
    let transforms = [PrimaryItemTransformProperty::CleanAperture(clean_aperture)];
    let (_, _, reference_pixels) = rgba8_reference_after_transforms(&image, &transforms);

    let mut out = vec![0_u8; reference_pixels.len()];
    decoded_heic_to_rgba8_slice(&image, &transforms, None, &mut out, &kernel)
        .expect("slice decode should succeed");
    assert_eq!(out, reference_pixels);
}

#[test]
fn transformed_alpha_rgba16_byte_output_matches_owned_path_when_unaligned() {
    let mut image = synthetic_yuv_image(HeicPixelLayout::Yuv420);
    image.bit_depth_luma = 10;
    image.bit_depth_chroma = 10;
    let alpha = HeicAuxiliaryAlphaPlane {
        width: image.width,
        height: image.height,
        bit_depth: 10,
        samples: (0..image.width * image.height)
            .map(|index| ((index * 13) % 1024) as u16)
            .collect(),
    };
    let transforms = [
        PrimaryItemTransformProperty::CleanAperture(synthetic_clean_aperture(-1, -1)),
        mirror(ImageMirrorDirection::Horizontal),
        rotation(90),
    ];

    let owned = decoded_heic_to_rgba_image(image.clone(), &transforms, Some(&alpha), None, &kernel)
        .expect("owned transformed decode should succeed");
    let expected = match owned.pixels {
        DecodedRgbaPixels::U16(pixels) => pixels,
        other => panic!("expected RGBA16 pixels, got {other:?}"),
    };

    let mut storage = vec![0_u8; expected.len() * 2 + 1];
    let unaligned = &mut storage[1..];
    decoded_heic_to_rgba16_native_endian_bytes(
        &image,
        &transforms,
        Some(&alpha),
        unaligned,
        &kernel,
    )
    .expect("unaligned direct byte decode should succeed");
    let actual: Vec<u16> = unaligned
        .chunks_exact(2)
        .map(|chunk| u16::from_ne_bytes([chunk[0], chunk[1]]))
        .collect();
    assert_eq!(actual, expected);
}

fn avif_image() -> DecodedAvifImage {
    let width = 3;
    let height = 2;
    DecodedAvifImage {
        width,
        height,
        bit_depth: 10,
        layout: AvifPixelLayout::Yuv400,
        ycbcr_range: YCbCrRange::Full,
        ycbcr_matrix: YCbCrMatrixCoefficients {
            matrix_coefficients: 1,
            colour_primaries: 1,
        },
        y_plane: AvifPlane {
            width,
            height,
            samples: AvifPlaneSamples::U16(vec![64, 128, 256, 512, 768, 960]),
        },
        u_plane: None,
        v_plane: None,
        alpha_plane: Some(AvifAuxiliaryAlphaPlane {
            width,
            height,
            bit_depth: 10,
            samples: AvifPlaneSamples::U16(vec![0, 100, 200, 400, 800, 1023]),
        }),
    }
}

#[test]
fn transformed_avif_rgba16_byte_output_matches_owned_path() {
    let decoded = avif_image();
    let transforms = [mirror(ImageMirrorDirection::Vertical), rotation(270)];
    let owned = decoded_avif_to_rgba_image(&decoded, &transforms, None, &kernel)
        .expect("owned AVIF conversion should succeed");
    let expected = match owned.pixels {
        DecodedRgbaPixels::U16(pixels) => pixels,
        other => panic!("expected RGBA16 pixels, got {other:?}"),
    };

    let mut bytes = vec![0_u8; expected.len() * 2];
    decoded_avif_to_rgba16_native_endian_bytes(&decoded, &transforms, &mut bytes, &kernel)
        .expect("direct AVIF byte conversion should succeed");
    let actual: Vec<u16> = bytes
        .chunks_exact(2)
        .map(|chunk| u16::from_ne_bytes([chunk[0], chunk[1]]))
        .collect();
    assert_eq!(actual, expected);
}

#[test]
fn samples_are_written_in_the_byte_order_that_is_asked_for() {
    let decoded = avif_image();
    let mut little = vec![0_u8; 48];
    decoded_avif_to_rgba16_output(
        &decoded,
        &[],
        little.as_mut_slice(),
        ByteOrder::LittleEndian,
        &kernel,
    )
    .expect("the buffer fits");
    let mut big = vec![0_u8; 48];
    decoded_avif_to_rgba16_output(
        &decoded,
        &[],
        big.as_mut_slice(),
        ByteOrder::BigEndian,
        &kernel,
    )
    .expect("the buffer fits");
    assert_ne!(little, big);
    for pair in little.chunks_exact_mut(2) {
        pair.swap(0, 1);
    }
    assert_eq!(little, big);
}

#[test]
fn deep_avif_images_do_not_go_into_eight_bit_buffers() {
    let decoded = avif_image();
    let mut out = vec![7_u8; 24];
    let error = decoded_avif_to_rgba8_slice(&decoded, &[], &mut out, &kernel)
        .expect_err("ten bits do not fit");
    assert_eq!(error.message(), "AVIF storage is RGBA16, not RGBA8");
    assert_eq!(out, vec![7_u8; 24]);
}

#[test]
fn a_buffer_of_another_size_is_left_alone() {
    let image = synthetic_yuv_image(HeicPixelLayout::Yuv420);
    let mut out = vec![7_u8; 12];
    assert!(decoded_heic_to_rgba8_slice(&image, &[], None, &mut out, &kernel).is_err());
    assert_eq!(out, vec![7_u8; 12]);
}

#[test]
fn errors_leave_native_samples_and_a_byte_behind_them_alone() {
    let avif = avif_image();
    let mut out = vec![77_u8; 47];
    assert!(decoded_avif_to_rgba16_native_endian_bytes(&avif, &[], &mut out, &kernel).is_err());
    assert_eq!(out, vec![77_u8; 47]);
    let mut out = vec![77_u8; 49];
    decoded_avif_to_rgba16_native_endian_bytes(&avif, &[], &mut out, &kernel)
        .expect("the samples fit");
    assert_eq!(out[48], 77);

    let heic = synthetic_yuv_image(HeicPixelLayout::Yuv420);
    let mut out = vec![77_u8; 33];
    assert!(
        decoded_heic_to_rgba16_native_endian_bytes(&heic, &[], None, &mut out, &kernel).is_err()
    );
    assert_eq!(out, vec![77_u8; 33]);
}

#[test]
fn a_clean_aperture_outside_the_image_makes_the_frame_invalid() {
    let image = synthetic_yuv_image(HeicPixelLayout::Yuv420);
    assert!(matches!(
        crop_heic_by_clean_aperture(image, synthetic_clean_aperture(100, 0)),
        Err(DecodeHeicError::InvalidDecodedFrame {
            detail: FrameFault::TileCrop {
                width: 8,
                height: 8,
                ..
            }
        })
    ));
}

#[test]
fn coefficients_follow_from_the_primaries() {
    let derived = |primaries: u16| {
        let c = ycbcr_coefficients_from_matrix(12, primaries);
        (c.r_cr_fp8, c.g_cb_fp8, c.g_cr_fp8, c.b_cb_fp8)
    };
    assert_eq!(derived(1), (403, -48, -120, 475));
    assert_eq!(derived(9), (377, -42, -146, 482));
    assert_eq!(derived(11), (405, -46, -118, 477));
    assert_eq!(derived(22), (393, -66, -136, 463));
    // The weights, from the chromaticities in floating-point numbers.
    for code in [1_u16, 4, 5, 6, 7, 8, 9, 11, 12, 22] {
        let space = colour_primaries_from_index(code).expect("a known code");
        let xyz = |colour: Chromaticity| {
            let (x, y) = (f64::from(colour.x) / 1e6, f64::from(colour.y) / 1e6);
            [x, y, 1.0 - x - y]
        };
        let (r, g, b, w) = (
            xyz(space.red),
            xyz(space.green),
            xyz(space.blue),
            xyz(space.white),
        );
        let det = |a: [f64; 3], b: [f64; 3], c: [f64; 3]| {
            a[0] * (b[1] * c[2] - c[1] * b[2]) + b[0] * (c[1] * a[2] - a[1] * c[2])
                + c[0] * (a[1] * b[2] - b[1] * a[2])
        };
        let whole = w[1] * det(r, g, b);
        let kr = r[1] * det(w, g, b) / whole;
        let kb = b[1] * det(r, g, w) / whole;
        let rounded = |value: f64| (512.0 * value).round() as i32;
        assert_eq!(
            derived(code),
            (
                rounded(1.0 - kr),
                rounded(kb * (1.0 - kb) / (kr + kb - 1.0)),
                rounded(kr * (1.0 - kr) / (kr + kb - 1.0)),
                rounded(1.0 - kb),
            ),
            "primaries {code}"
        );
    }
    // Luma that has no red and no blue, and no primaries at all.
    assert_eq!(derived(10), (359, -88, -183, 454));
    assert_eq!(derived(2), (359, -88, -183, 454));
}

#[test]
fn full_range_eight_bit_420_is_converted_in_256ths() {
    // Grey: the chroma is in the middle, so that only luma counts.
    let mut image = synthetic_yuv_image(HeicPixelLayout::Yuv420);
    image.u_plane.as_mut().expect("U plane").samples.fill(128);
    image.v_plane.as_mut().expect("V plane").samples.fill(228);
    let pixels = convert_heic_to_rgba8(&image, &kernel).expect("the planes fit");
    // 1.5748 * 256 is 403; 64 + (403 * 100 + 128) / 256 is 221, and
    // 64 + (-120 * 100 + 128) / 256 is 17.
    assert_eq!(&pixels[..4], &[221, 17, 64, 255]);
}

#[test]
fn opacity_replaces_the_fourth_sample() {
    let alpha = HeicAuxiliaryAlphaPlane {
        width: 2,
        height: 1,
        bit_depth: 10,
        samples: vec![0, 1023],
    };
    let mut pixels = vec![1, 2, 3, 4, 5, 6, 7, 8];
    apply_auxiliary_alpha_to_rgba8(&mut pixels, 2, 1, &alpha).expect("the plane fits");
    assert_eq!(pixels, vec![1, 2, 3, 0, 5, 6, 7, 255]);
    assert!(apply_auxiliary_alpha_to_rgba8(&mut pixels, 1, 2, &alpha).is_err());
}

#[test]
fn four_quarter_turns_change_nothing() {
    let pixels: Vec<u8> = (0..24).collect();
    let turns = [rotation(90), rotation(90), rotation(90), rotation(90)];
    let (width, height, turned) =
        apply_primary_item_transforms_rgba(3, 2, pixels.clone(), &turns).expect("valid turns");
    assert_eq!((width, height), (3, 2));
    assert_eq!(turned, pixels);

    let twice = [
        mirror(ImageMirrorDirection::Vertical),
        mirror(ImageMirrorDirection::Vertical),
    ];
    let (_, _, mirrored) =
        apply_primary_item_transforms_rgba(3, 2, pixels.clone(), &twice).expect("valid mirrors");
    assert_eq!(mirrored, pixels);
}

#[test]
fn a_quarter_turn_is_counter_clockwise() {
    let pixels: Vec<u8> = vec![1, 1, 1, 1, 2, 2, 2, 2];
    let (width, height, turned) =
        apply_primary_item_transforms_rgba(2, 1, pixels, &[rotation(90)]).expect("valid turn");
    assert_eq!((width, height), (1, 2));
    assert_eq!(turned, vec![2, 2, 2, 2, 1, 1, 1, 1]);
}

#[test]
fn exif_orientations_turn_a_decoded_image() {
    let image = DecodedRgbaImage {
        width: 2,
        height: 1,
        source_bit_depth: 8,
        pixels: DecodedRgbaPixels::U8(vec![1, 1, 1, 1, 2, 2, 2, 2]),
        icc_profile: None,
    };
    // 2 mirrors, 3 turns by a half, 6 turns clockwise, 8 counter-clockwise.
    let shown = |orientation: u8| {
        let turned = image
            .clone()
            .apply_exif_orientation(orientation)
            .expect("the pixels fit");
        let DecodedRgbaPixels::U8(pixels) = turned.pixels else {
            panic!("the samples stay as they are");
        };
        (turned.width, turned.height, pixels[0])
    };
    assert_eq!(shown(1), (2, 1, 1));
    assert_eq!(shown(2), (2, 1, 2));
    assert_eq!(shown(3), (2, 1, 2));
    assert_eq!(shown(4), (2, 1, 1));
    assert_eq!(shown(6), (1, 2, 1));
    assert_eq!(shown(8), (1, 2, 2));
    assert_eq!(shown(9), (2, 1, 1));
}

#[test]
fn an_exif_orientation_is_taken_back_by_its_inverse() {
    let narrow = DecodedRgbaImage {
        width: 3,
        height: 2,
        source_bit_depth: 8,
        pixels: DecodedRgbaPixels::U8((0..24).collect()),
        icc_profile: Some(vec![1, 2, 3]),
    };
    let deep = DecodedRgbaImage {
        source_bit_depth: 10,
        pixels: DecodedRgbaPixels::U16((1000..1024).collect()),
        ..narrow.clone()
    };
    let pairs = [
        (1, 1),
        (2, 2),
        (3, 3),
        (4, 4),
        (5, 5),
        (7, 7),
        (6, 8),
        (8, 6),
        (0, 0),
        (9, 9),
    ];
    for image in [narrow, deep] {
        for (there, back) in pairs {
            let middle = image
                .clone()
                .apply_exif_orientation(there)
                .expect("the pixels fit");
            assert_eq!(middle == image, !(2..=8).contains(&there));
            assert_eq!(middle.apply_exif_orientation(back), Ok(image.clone()));
        }
        // A quarter turn does not take back itself.
        let twice = image
            .clone()
            .apply_exif_orientation(6)
            .and_then(|middle| middle.apply_exif_orientation(6));
        assert_ne!(twice, Ok(image));
    }
}

#[test]
fn an_orientation_is_applied_where_the_item_has_none_of_its_own() {
    let hint = |exif_orientation, primary_item_has_orientation_transform| ExifOrientationHint {
        exif_orientation,
        primary_item_has_orientation_transform,
    };
    assert_eq!(hint(Some(6), false).orientation_to_apply(), Some(6));
    assert_eq!(hint(Some(6), true).orientation_to_apply(), None);
    assert_eq!(hint(Some(1), false).orientation_to_apply(), None);
    assert_eq!(hint(Some(9), false).orientation_to_apply(), None);
    assert_eq!(hint(None, false).orientation_to_apply(), None);
    assert!(hint(Some(8), false).should_apply_exif_orientation());
}

#[test]
fn a_plan_finds_the_source_of_a_pixel_and_its_place() {
    let plan = RgbaTransformPlan::from_primary_transforms(3, 2, &[rotation(90)])
        .expect("a valid image");
    assert_eq!((plan.destination_width, plan.destination_height), (2, 3));
    for y in 0..3 {
        for x in 0..2 {
            let (source_x, source_y) = plan
                .map_destination_pixel(x, y)
                .expect("a place inside the result");
            assert_eq!(
                plan.map_source_pixel(source_x, source_y),
                Ok(Some((x, y)))
            );
        }
    }
    assert!(plan.map_destination_pixel(2, 0).is_err());
    assert!(!plan.is_identity());
}

#[test]
fn buffers_hold_what_owned_conversions_return() {
    let image = synthetic_yuv_image(HeicPixelLayout::Yuv422);
    let owned = convert_heic_to_rgba16(&image, &kernel).expect("a valid image");
    let mut out = vec![0_u16; owned.len()];
    convert_heic_to_rgba16_slice(&image, &mut out, &kernel).expect("the buffer fits");
    assert_eq!(out, owned);
    assert!(convert_heic_to_rgba16_slice(&image, &mut out[1..], &kernel).is_err());

    let rgba = convert_heic_to_rgba8(&image, &kernel).expect("a valid image");
    let mut rgb = vec![0_u8; 3 * 64];
    convert_heic_to_interleaved_rgb8_slice::<ScaleToRgb8, _>(&image, 3, &mut rgb, "RGB8", &kernel)
        .expect("the buffer fits");
    assert_eq!(rgb, rgba8_to_rgb8(&rgba));
}

#[test]
fn grey_of_eight_bits_is_copied_into_eight_bits_only() {
    let mut image = synthetic_yuv_image(HeicPixelLayout::Yuv400);
    image.ycbcr_range = YCbCrRange::Limited;
    image.y_plane.samples.fill(16);
    // Black in the limited range.
    let limited = |_: PreparedYcbcrToRgb, y: i32, cb: i32, cr: i32| {
        assert_eq!((cb, cr), (128, 128));
        ((y - 16) as u16, (y - 15) as u16, (y - 14) as u16)
    };
    let narrow = convert_heic_to_rgba8(&image, &limited).expect("a valid image");
    assert_eq!(&narrow[..4], &[16, 16, 16, 255]);
    let wide = convert_heic_to_rgba16(&image, &limited).expect("a valid image");
    assert_eq!(&wide[..4], &[0, 257, 514, 65535]);
    let mut out = vec![0_u16; wide.len()];
    convert_heic_to_rgba16_slice(&image, &mut out, &limited).expect("the buffer fits");
    assert_eq!(out, wide);
}

#[test]
fn opacity_of_some_depth_fills_sixteen_bits() {
    let alpha = HeicAuxiliaryAlphaPlane {
        width: 2,
        height: 1,
        bit_depth: 8,
        samples: vec![0, 255],
    };
    let mut rgba = vec![1_u16; 8];
    apply_auxiliary_alpha_to_rgba16(&mut rgba, 2, 1, &alpha).expect("the plane fits");
    assert_eq!(rgba, vec![1, 1, 1, 0, 1, 1, 1, 65535]);
    assert!(apply_auxiliary_alpha_to_rgba16(&mut rgba, 1, 2, &alpha).is_err());
}
