use heif_decode::errors::DecodeHeicError;
use heif_decode::grid::image::{
    decode_primary_heic_grid_to_rgb8_image, decode_primary_heic_grid_to_rgba8_slice,
    decode_primary_heic_grid_to_rgba_image, heic_grid_gap_pixel, HeicGrid,
};
use heif_decode::grid::layout::{
    heic_grid_tiles_cover_descriptor, validate_heic_grid_descriptor_and_tile_count,
    validate_heic_grid_tile_origin_alignment, HeicGridDescriptor, HeicGridTileReference,
};
use heif_decode::grid::planes::{
    decode_primary_heic_grid_to_image, paste_decoded_heic_grid_tile,
};
use heif_decode::grid::window::{
    heic_grid_tile_decode_window, heic_grid_tile_decode_window_from_estimates,
};
use heif_decode::output::ScaleToU8;
use heif_decode::rgba::DecodedRgbaPixels;
use heif_decode::transform::mapping::{
    ImageMirrorDirection, ImageMirrorProperty, ImageRotationProperty, PrimaryItemTransformProperty,
};
use heif_decode::transform::orientation::rgba_orientation_transform_from_primary_transforms;
use heif_decode::transform::paste::{
    paste_rgba_tile_with_clip, paste_transformed_rgba_tile_with_clip,
};
use heif_decode::transform::pixels::apply_primary_item_transforms_rgba;
use heif_decode::types::{
    DecodedHeicImage, HeicPixelLayout, HeicPlane, PrimaryItemColorProperties,
    YCbCrMatrixCoefficients, YCbCrRange,
};
use heif_decode::ycbcr::PreparedYcbcrToRgb;
use heif_decode::yuv::convert::convert_heic_to_rgba8;

/// A stand-in for the kernels on floating-point numbers.
fn kernel(_: PreparedYcbcrToRgb, y: i32, cb: i32, cr: i32) -> (u16, u16, u16) {
    let clip = |value: i32| value.clamp(0, 255) as u16;
    (clip(y + cr - 128), clip(y), clip(y + cb - 128))
}

fn test_rgba_pixels(width: u32, height: u32, base: u8) -> Vec<u8> {
    let mut pixels = Vec::new();
    for y in 0..height {
        for x in 0..width {
            let value = base.wrapping_add((y * width + x) as u8);
            pixels.extend_from_slice(&[
                value,
                value.wrapping_add(1),
                value.wrapping_add(2),
                value.wrapping_add(3),
            ]);
        }
    }
    pixels
}

#[test]
fn direct_grid_orientation_paste_matches_rgba_transform_path() {
    let transforms = [
        PrimaryItemTransformProperty::Mirror(ImageMirrorProperty {
            direction: ImageMirrorDirection::Horizontal,
        }),
        PrimaryItemTransformProperty::Rotation(ImageRotationProperty {
            rotation_ccw_degrees: 90,
        }),
    ];
    let orientation_transform =
        rgba_orientation_transform_from_primary_transforms(3, 2, &transforms)
            .expect("orientation transform should parse")
            .expect("orientation transform should be effective");

    let left_tile = test_rgba_pixels(2, 2, 10);
    let right_tile = test_rgba_pixels(2, 2, 40);
    let mut untransformed = vec![0_u8; 3 * 2 * 4];
    paste_rgba_tile_with_clip(
        &left_tile,
        2,
        2,
        &mut untransformed,
        3,
        2,
        0,
        0,
        "test RGBA",
    )
    .expect("left tile paste should succeed");
    paste_rgba_tile_with_clip(
        &right_tile,
        2,
        2,
        &mut untransformed,
        3,
        2,
        2,
        0,
        "test RGBA",
    )
    .expect("right tile paste should succeed");

    let mut direct = vec![
        0_u8;
        orientation_transform.destination_width as usize
            * orientation_transform.destination_height as usize
            * 4
    ];
    paste_transformed_rgba_tile_with_clip(
        &left_tile,
        2,
        2,
        &mut direct,
        &orientation_transform,
        0,
        0,
        "test RGBA",
    )
    .expect("left transformed paste should succeed");
    paste_transformed_rgba_tile_with_clip(
        &right_tile,
        2,
        2,
        &mut direct,
        &orientation_transform,
        2,
        0,
        "test RGBA",
    )
    .expect("right transformed paste should succeed");

    let (width, height, transformed) =
        apply_primary_item_transforms_rgba(3, 2, untransformed, &transforms)
            .expect("reference transform should succeed");
    assert_eq!(width, orientation_transform.destination_width);
    assert_eq!(height, orientation_transform.destination_height);
    assert_eq!(direct, transformed);
}

#[test]
fn grid_parallel_window_uses_each_candidate_tile_estimate() {
    const MIB: u64 = 1024 * 1024;

    assert_eq!(
        heic_grid_tile_decode_window_from_estimates(
            &[Some(4 * MIB), Some(80 * MIB), Some(4 * MIB)],
            8,
        ),
        1,
        "a later oversized tile must not inherit the first candidate's small estimate"
    );
    assert_eq!(
        heic_grid_tile_decode_window_from_estimates(
            &[Some(32 * MIB), Some(32 * MIB), Some(MIB)],
            8,
        ),
        2,
        "a window may fill the memory budget exactly"
    );
    assert_eq!(
        heic_grid_tile_decode_window_from_estimates(&[Some(4 * MIB), None, Some(4 * MIB)], 8),
        1,
        "a tile whose metadata cannot be preflighted must stay outside the parallel window"
    );
    assert_eq!(
        heic_grid_tile_decode_window_from_estimates(&[Some(MIB); 16], 8),
        8,
        "the thread cap must remain effective for small tiles"
    );
}

#[test]
fn grid_gap_pixel_matches_plane_canvas_conversion() {
    let reference = HeicGridTileReference {
        tile_width: 3,
        tile_height: 2,
        layout: HeicPixelLayout::Yuv420,
        bit_depth_luma: 8,
        bit_depth_chroma: 8,
        ycbcr_range: YCbCrRange::Limited,
        ycbcr_matrix: YCbCrMatrixCoefficients::default(),
        conversion_ycbcr_range: YCbCrRange::Limited,
        conversion_ycbcr_matrix: YCbCrMatrixCoefficients::default(),
    };
    let gap_pixel = heic_grid_gap_pixel::<u8, ScaleToU8, _>(&reference, 4, "RGBA", &kernel)
        .expect("gap pixel conversion should succeed");

    let zero_canvas = DecodedHeicImage {
        width: 2,
        height: 2,
        bit_depth_luma: 8,
        bit_depth_chroma: 8,
        layout: HeicPixelLayout::Yuv420,
        ycbcr_range: YCbCrRange::Limited,
        ycbcr_matrix: YCbCrMatrixCoefficients::default(),
        y_plane: HeicPlane {
            width: 2,
            height: 2,
            samples: vec![0; 4],
        },
        u_plane: Some(HeicPlane {
            width: 1,
            height: 1,
            samples: vec![0],
        }),
        v_plane: Some(HeicPlane {
            width: 1,
            height: 1,
            samples: vec![0],
        }),
    };
    let converted = convert_heic_to_rgba8(&zero_canvas, &kernel).expect("zero canvas should convert");
    assert_eq!(gap_pixel.as_slice(), &converted[..4]);
    assert_eq!(gap_pixel[3], u8::MAX);

    let descriptor = HeicGridDescriptor {
        rows: 1,
        columns: 3,
        output_width: 10,
        output_height: 2,
    };
    assert!(!heic_grid_tiles_cover_descriptor(&descriptor, &reference));
    let covering = HeicGridTileReference {
        tile_width: 4,
        ..reference
    };
    assert!(heic_grid_tiles_cover_descriptor(&descriptor, &covering));
}

#[test]
fn unaligned_grid_tile_origin_is_rejected() {
    assert!(validate_heic_grid_tile_origin_alignment(HeicPixelLayout::Yuv420, 99, 0).is_err());
    assert!(validate_heic_grid_tile_origin_alignment(HeicPixelLayout::Yuv420, 0, 99).is_err());
    assert!(validate_heic_grid_tile_origin_alignment(HeicPixelLayout::Yuv420, 98, 98).is_ok());

    assert!(validate_heic_grid_tile_origin_alignment(HeicPixelLayout::Yuv422, 99, 0).is_err());
    assert!(validate_heic_grid_tile_origin_alignment(HeicPixelLayout::Yuv422, 0, 99).is_ok());

    assert!(validate_heic_grid_tile_origin_alignment(HeicPixelLayout::Yuv444, 99, 99).is_ok());
    assert!(validate_heic_grid_tile_origin_alignment(HeicPixelLayout::Yuv400, 99, 99).is_ok());
}

fn tile(width: u32, height: u32, base: u16) -> DecodedHeicImage {
    DecodedHeicImage {
        width,
        height,
        bit_depth_luma: 8,
        bit_depth_chroma: 8,
        layout: HeicPixelLayout::Yuv444,
        ycbcr_range: YCbCrRange::Full,
        ycbcr_matrix: YCbCrMatrixCoefficients {
            matrix_coefficients: 0,
            colour_primaries: 1,
        },
        y_plane: HeicPlane {
            width,
            height,
            samples: (0..width * height).map(|k| base + k as u16).collect(),
        },
        u_plane: Some(HeicPlane {
            width,
            height,
            samples: (0..width * height).map(|k| base + 50 + k as u16).collect(),
        }),
        v_plane: Some(HeicPlane {
            width,
            height,
            samples: (0..width * height).map(|k| base + 100 + k as u16).collect(),
        }),
    }
}

fn two_tiles(output_width: u32) -> HeicGrid {
    HeicGrid {
        descriptor: HeicGridDescriptor {
            rows: 1,
            columns: 2,
            output_width,
            output_height: 1,
        },
        colr: PrimaryItemColorProperties {
            nclx: None,
            icc: None,
        },
        tile_count: 2,
    }
}

fn decode(k: usize) -> Result<DecodedHeicImage, DecodeHeicError> {
    Ok(tile(2, 2, 10 * k as u16))
}

#[test]
fn a_grid_shows_its_tiles_side_by_side() {
    let image =
        decode_primary_heic_grid_to_rgba_image(&two_tiles(3), &[], None, None, &decode, &kernel)
            .expect("the grid should decode");
    assert_eq!((image.width, image.height), (3, 1));
    // Red, green and blue stand in the place of Cr, Y and Cb.
    let expected = vec![100, 0, 50, 255, 101, 1, 51, 255, 110, 10, 60, 255];
    assert_eq!(image.pixels, DecodedRgbaPixels::U8(expected.clone()));

    let mut out = vec![0_u8; 12];
    decode_primary_heic_grid_to_rgba8_slice(
        &two_tiles(3),
        &[],
        None,
        &mut out,
        &decode,
        &kernel,
    )
    .expect("the grid should decode");
    assert_eq!(out, expected);

    let rgb = decode_primary_heic_grid_to_rgb8_image(&two_tiles(3), &[], None, &decode, &kernel)
        .expect("the grid should decode");
    assert_eq!(rgb.pixels, vec![100, 0, 50, 101, 1, 51, 110, 10, 60]);
}

#[test]
fn pixels_that_no_tile_covers_are_opaque() {
    let image =
        decode_primary_heic_grid_to_rgba_image(&two_tiles(5), &[], None, None, &decode, &kernel)
            .expect("the grid should decode");
    match image.pixels {
        DecodedRgbaPixels::U8(pixels) => assert_eq!(&pixels[16..], &[0, 0, 0, 255]),
        other => panic!("expected eight-bit pixels, got {other:?}"),
    }
}

#[test]
fn the_planes_of_a_grid_are_those_of_its_tiles() {
    let image = decode_primary_heic_grid_to_image(&two_tiles(3).descriptor, 2, &decode)
        .expect("the grid should decode");
    assert_eq!(image.y_plane.samples, vec![0, 1, 10]);
    assert_eq!(image.u_plane.expect("U plane").samples, vec![50, 51, 60]);
}

#[test]
fn a_tile_that_fails_fails_the_grid() {
    let failing = |k: usize| {
        if k == 1 {
            Err(DecodeHeicError::MissingSpsNalUnit)
        } else {
            decode(k)
        }
    };
    let result =
        decode_primary_heic_grid_to_rgba_image(&two_tiles(3), &[], None, None, &failing, &kernel);
    assert!(result.is_err());
}

#[test]
fn a_grid_whose_first_tile_fails_leaves_the_buffer_alone() {
    let failing = |_: usize| Err(DecodeHeicError::MissingSpsNalUnit);
    let mut out = vec![77_u8; 12];
    assert!(decode_primary_heic_grid_to_rgba8_slice(
        &two_tiles(3),
        &[],
        None,
        &mut out,
        &failing,
        &kernel,
    )
    .is_err());
    assert_eq!(out, vec![77_u8; 12]);
}

#[test]
fn planes_that_were_pasted_before_an_error_stay_pasted() {
    let blank = tile(4, 2, 0);
    let mut canvas = blank.clone();
    // The second chroma plane of the canvas is missing.
    canvas.v_plane = None;
    let piece = tile(2, 2, 200);
    let result = paste_decoded_heic_grid_tile(&piece, &mut canvas, 2, 2, 0, 1, 1);
    assert!(matches!(
        result,
        Err(DecodeHeicError::InvalidDecodedFrame { .. })
    ));
    assert_eq!(
        canvas.y_plane.samples,
        vec![0, 1, 200, 201, 4, 5, 202, 203]
    );
    assert_eq!(
        canvas.u_plane.expect("U plane").samples,
        vec![50, 51, 250, 251, 54, 55, 252, 253]
    );

    // A tile of another size: nothing is pasted.
    let mut canvas = blank.clone();
    let result = paste_decoded_heic_grid_tile(&tile(3, 2, 200), &mut canvas, 2, 2, 0, 1, 1);
    assert!(result.is_err());
    assert_eq!(canvas, blank);
}

#[test]
fn tiles_of_other_sizes_are_refused() {
    let uneven = |k: usize| Ok(tile(2 + k as u32, 2, 0));
    assert!(
        decode_primary_heic_grid_to_rgba_image(&two_tiles(3), &[], None, None, &uneven, &kernel)
            .is_err()
    );
}

#[test]
fn a_grid_with_too_few_tiles_is_refused() {
    let descriptor = two_tiles(3).descriptor;
    assert!(validate_heic_grid_descriptor_and_tile_count(&descriptor, 2).is_ok());
    assert!(validate_heic_grid_descriptor_and_tile_count(&descriptor, 1).is_err());
    let empty = HeicGridDescriptor {
        output_width: 0,
        ..descriptor
    };
    assert!(validate_heic_grid_descriptor_and_tile_count(&empty, 2).is_err());
}

#[test]
fn at_least_one_tile_is_decoded_at_a_time() {
    assert_eq!(heic_grid_tile_decode_window_from_estimates(&[None], 8), 1);
    assert_eq!(heic_grid_tile_decode_window_from_estimates(&[Some(1), Some(1)], 1), 1);
    assert_eq!(heic_grid_tile_decode_window(&[Some(1)], 4), 1);
    assert_eq!(heic_grid_tile_decode_window(&[Some(1); 64], 64), 8);
}

#[test]
fn tiles_are_decoded_in_batches_that_hold_each_of_them_once() {
    let small = Some(1_000_000);
    let large = Some(60_000_000);
    // A tile without an estimate stands alone, and so do two large ones.
    let estimates = [small, small, small, None, large, large, small];
    assert_eq!(
        heif_decode::grid::window::heic_grid_tile_batches(&estimates, 4),
        vec![3, 1, 1, 2]
    );
    assert_eq!(
        heif_decode::grid::window::heic_grid_tile_batches(&[small; 20], 64),
        vec![8, 8, 4]
    );
    assert!(heif_decode::grid::window::heic_grid_tile_batches(&[], 4).is_empty());
}
