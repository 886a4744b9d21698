use heif_decode::icc::{
    color_properties_from_colr_boxes, icc_profile_from_color_properties, nclx_to_icc_profile,
    ColorInformation,
};
use heif_decode::types::{NclxColorProfile, PrimaryItemColorProperties};
use moxcms::{
    CicpColorPrimaries, ColorProfile, DataColorSpace, MatrixCoefficients, TransferCharacteristics,
};

fn nclx(
    colour_primaries: u16,
    transfer_characteristics: u16,
    matrix_coefficients: u16,
    full_range_flag: bool,
) -> NclxColorProfile {
    NclxColorProfile {
        colour_primaries,
        transfer_characteristics,
        matrix_coefficients,
        full_range_flag,
        is_undefined: colour_primaries == 2
            && transfer_characteristics == 2
            && matrix_coefficients == 2,
    }
}

fn synthesize_nclx_icc(
    colour_primaries: u16,
    transfer_characteristics: u16,
    matrix_coefficients: u16,
) -> Option<Vec<u8>> {
    nclx_to_icc_profile(&nclx(
        colour_primaries,
        transfer_characteristics,
        matrix_coefficients,
        true,
    ))
}

fn qcms_through_to_srgb(icc: &[u8], rgb: [u8; 3]) -> [u8; 3] {
    let profile =
        qcms::Profile::new_from_slice(icc, false).expect("qcms should parse synthesized ICC");
    let srgb = qcms::Profile::new_sRGB();
    let transform = qcms::Transform::new(
        &profile,
        &srgb,
        qcms::DataType::RGB8,
        qcms::Intent::Perceptual,
    )
    .expect("qcms should build a transform from the synthesized ICC");
    let mut pixel = rgb.to_vec();
    transform.apply(&mut pixel);
    [pixel[0], pixel[1], pixel[2]]
}

#[test]
fn synthesizes_icc_profile_from_display_p3_nclx() {
    let icc = nclx_to_icc_profile(&nclx(12, 13, 1, true)).expect("expected synthesized ICC");
    assert_eq!(icc.len() % 4, 0);
    let parsed = ColorProfile::new_from_slice(&icc).expect("synthesized ICC should parse");

    assert_eq!(parsed.color_space, DataColorSpace::Rgb);
    let cicp = parsed.cicp.expect("synthesized ICC should carry CICP");
    assert_eq!(cicp.color_primaries, CicpColorPrimaries::Smpte432);
    assert_eq!(cicp.transfer_characteristics, TransferCharacteristics::Srgb);
    assert_eq!(cicp.matrix_coefficients, MatrixCoefficients::Identity);
    assert!(cicp.full_range);
    assert!(parsed.media_white_point.is_some());
    assert!(parsed.description.is_some());
    assert!(parsed.copyright.is_some());
}

#[test]
fn bt709_family_profiles_are_srgb_identity_in_qcms() {
    for transfer in [1u16, 6, 14, 15] {
        let icc = synthesize_nclx_icc(1, transfer, 1).expect("expected synthesized ICC");
        for v in [0u8, 32, 64, 128, 192, 224, 255] {
            let out = qcms_through_to_srgb(&icc, [v, v, v]);
            for channel in out {
                assert!(
                    channel.abs_diff(v) <= 1,
                    "transfer {transfer}: gray {v} rendered as {out:?}"
                );
            }
        }
    }
}

#[test]
fn display_p3_profile_expands_red_and_keeps_grays_neutral_in_qcms() {
    let icc = synthesize_nclx_icc(12, 13, 1).expect("expected synthesized ICC");

    let red = qcms_through_to_srgb(&icc, [200, 0, 0]);
    assert!(
        (210..=228).contains(&red[0]) && red[1] <= 3 && red[2] <= 3,
        "P3 (200,0,0) rendered as {red:?}"
    );

    let gray = qcms_through_to_srgb(&icc, [128, 128, 128]);
    for channel in gray {
        assert!(
            channel.abs_diff(128) <= 1,
            "P3 gray must stay neutral, got {gray:?}"
        );
    }
}

#[test]
fn pq_profile_is_not_an_srgb_identity_in_qcms() {
    let icc = synthesize_nclx_icc(9, 16, 9).expect("expected synthesized ICC");
    let out = qcms_through_to_srgb(&icc, [128, 128, 128]);
    assert!(
        out[0].abs_diff(128) > 50,
        "PQ gray 128 rendered as {out:?}; the PQ curve must be honoured, not aliased"
    );
}

#[test]
fn all_synthesized_profiles_parse_and_transform_in_qcms() {
    let mut checked = 0;
    for primaries in [1u16, 4, 5, 6, 7, 8, 9, 10, 11, 12, 22] {
        for transfer in [1u16, 4, 5, 6, 7, 8, 13, 14, 15, 16, 18] {
            let Some(icc) = synthesize_nclx_icc(primaries, transfer, 1) else {
                continue;
            };
            let profile = qcms::Profile::new_from_slice(&icc, false).unwrap_or_else(|| {
                panic!("qcms rejected synthesized ICC for primaries {primaries} transfer {transfer}")
            });
            assert!(
                qcms::Transform::new(
                    &profile,
                    &qcms::Profile::new_sRGB(),
                    qcms::DataType::RGB8,
                    qcms::Intent::Perceptual,
                )
                .is_some(),
                "qcms could not build a transform for primaries {primaries} transfer {transfer}"
            );
            checked += 1;
        }
    }
    assert!(checked >= 50, "sweep only produced {checked} profiles");
}

#[test]
fn remaps_bt709_family_transfers_to_srgb() {
    for transfer in [1u16, 6, 14, 15] {
        let icc =
            nclx_to_icc_profile(&nclx(1, transfer, 1, true)).expect("expected synthesized ICC");
        let parsed = ColorProfile::new_from_slice(&icc).expect("synthesized ICC should parse");
        let cicp = parsed.cicp.expect("synthesized ICC should carry CICP");
        assert_eq!(
            cicp.transfer_characteristics,
            TransferCharacteristics::Srgb,
            "transfer {transfer} should be aliased to sRGB"
        );
        assert_eq!(cicp.color_primaries, CicpColorPrimaries::Bt709);
    }
}

#[test]
fn preserves_genuinely_different_transfer_curves() {
    let icc = nclx_to_icc_profile(&nclx(9, 16, 9, true)).expect("expected synthesized ICC");
    let parsed = ColorProfile::new_from_slice(&icc).expect("synthesized ICC should parse");
    let cicp = parsed.cicp.expect("synthesized ICC should carry CICP");
    assert_eq!(
        cicp.transfer_characteristics,
        TransferCharacteristics::Smpte2084
    );
    assert_eq!(cicp.color_primaries, CicpColorPrimaries::Bt2020);
}

#[test]
fn synthesizes_icc_profile_despite_exotic_matrix_coefficients() {
    let icc = nclx_to_icc_profile(&nclx(1, 13, 255, false)).expect("expected synthesized ICC");
    let parsed = ColorProfile::new_from_slice(&icc).expect("synthesized ICC should parse");

    let cicp = parsed.cicp.expect("synthesized ICC should carry CICP");
    assert_eq!(cicp.color_primaries, CicpColorPrimaries::Bt709);
    assert_eq!(cicp.matrix_coefficients, MatrixCoefficients::Identity);
    assert!(cicp.full_range);
}

#[test]
fn skips_undefined_nclx_profile() {
    assert!(nclx_to_icc_profile(&nclx(2, 2, 2, true)).is_none());
}

#[test]
fn codes_without_primaries_or_curve_give_no_profile() {
    let known = |code: u16| code == 1 || (4..=12).contains(&code) || code == 22;
    let curved = |code: u16| code == 1 || (4..=18).contains(&code);
    for primaries in 0..=24 {
        for transfer in 0..=20 {
            assert_eq!(
                nclx_to_icc_profile(&nclx(primaries, transfer, 1, true)).is_some(),
                known(primaries) && curved(transfer),
                "primaries {primaries} transfer {transfer}"
            );
        }
    }
    assert!(nclx_to_icc_profile(&nclx(255, 13, 1, true)).is_none());
    assert!(nclx_to_icc_profile(&nclx(256 + 1, 13, 1, true)).is_none());
}

#[test]
fn synthesized_icc_creation_time_is_deterministic() {
    let first = synthesize_nclx_icc(1, 13, 1).expect("expected synthesized ICC");
    let second = synthesize_nclx_icc(1, 13, 1).expect("expected synthesized ICC");
    assert_eq!(first, second);
    assert_eq!(
        &first[24..36],
        &[0x07, 0xB2, 0, 1, 0, 1, 0, 0, 0, 0, 0, 0],
        "ICC dateTimeNumber must stay pinned to 1970-01-01T00:00:00"
    );
}

#[test]
fn an_icc_profile_comes_before_an_nclx_one() {
    let colr = PrimaryItemColorProperties {
        nclx: Some(nclx(1, 13, 1, true)),
        icc: Some(vec![1, 2, 3]),
    };
    assert_eq!(icc_profile_from_color_properties(&colr), Some(vec![1, 2, 3]));
    let colr = PrimaryItemColorProperties {
        nclx: Some(nclx(1, 13, 1, true)),
        icc: None,
    };
    assert_eq!(
        icc_profile_from_color_properties(&colr),
        synthesize_nclx_icc(1, 13, 1)
    );
    let colr = PrimaryItemColorProperties {
        nclx: None,
        icc: None,
    };
    assert_eq!(icc_profile_from_color_properties(&colr), None);
}

#[test]
fn the_last_readable_colour_box_of_each_form_counts() {
    let colr = color_properties_from_colr_boxes(&[
        Some(ColorInformation::Icc(vec![1])),
        Some(ColorInformation::Nclx(nclx(1, 13, 1, true))),
        None,
        Some(ColorInformation::Icc(vec![2])),
        Some(ColorInformation::Nclx(nclx(9, 16, 9, false))),
        None,
    ]);
    assert_eq!(colr.icc, Some(vec![2]));
    assert_eq!(colr.nclx, Some(nclx(9, 16, 9, false)));
}
