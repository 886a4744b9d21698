use heif_decode::errors::{
    DecodeAvifError, DecodeError, DecodeErrorCategory, DecodeGuardrailError, DecodeHeicError,
    DecodeUncompressedError, FrameFault, InputFault, TransformGuardError, Wording,
};
use heif_decode::text::{Arg, Detail};

#[test]
fn category_labels() {
    assert_eq!(DecodeErrorCategory::Io.as_str(), "io");
    assert_eq!(DecodeErrorCategory::Parse.as_str(), "parse");
    assert_eq!(
        DecodeErrorCategory::MalformedInput.as_str(),
        "malformed-input"
    );
    assert_eq!(
        DecodeErrorCategory::UnsupportedFeature.as_str(),
        "unsupported-feature"
    );
    assert_eq!(
        DecodeErrorCategory::ResourceLimit.as_str(),
        "resource-limit"
    );
    assert_eq!(
        DecodeErrorCategory::DecoderBackend.as_str(),
        "decoder-backend"
    );
    assert_eq!(
        DecodeErrorCategory::OutputEncoding.as_str(),
        "output-encoding"
    );
}

#[test]
fn messages_are_filled_in() {
    let detail = Detail::Three(
        "{} of {} in {}",
        Arg::Num(-12),
        Arg::Word("a"),
        Arg::FourCc(*b"meta"),
    );
    assert_eq!(detail.render(), "-12 of a in meta");
    assert_eq!(Detail::Plain("as it is").render(), "as it is");
    assert_eq!(
        Detail::One("{}", Arg::Num(i128::MIN)).render(),
        i128::MIN.to_string()
    );
    // Bytes that are no text are replaced.
    assert_eq!(
        Detail::One("<{}>", Arg::FourCc([0xFF, b'a', b'b', b'c'])).render(),
        "<\u{FFFD}abc>"
    );
}

#[test]
fn errors_have_messages_and_categories() {
    let error = DecodeError::Guardrail(DecodeGuardrailError::InputTooLarge {
        actual_bytes: 12,
        max_input_bytes: 10,
    });
    assert_eq!(
        error.message(),
        "input exceeds configured max_input_bytes: got 12 bytes, max is 10"
    );
    assert_eq!(error.category(), DecodeErrorCategory::ResourceLimit);

    let error = DecodeError::Io("gone".to_string());
    assert_eq!(error.message(), "I/O error: gone");
    assert_eq!(error.category(), DecodeErrorCategory::Io);

    let error = DecodeError::PngEncoding("full".to_string());
    assert_eq!(error.message(), "PNG encode error: full");
    assert_eq!(error.category(), DecodeErrorCategory::OutputEncoding);

    let error = DecodeError::Unsupported(Wording::Text("words".to_string()));
    assert_eq!(error.message(), "words");
    assert_eq!(error.category(), DecodeErrorCategory::UnsupportedFeature);

    let error = DecodeError::AvifDecode(DecodeAvifError::DecodedGeometryMismatch {
        expected_width: 1,
        expected_height: 2,
        actual_width: 3,
        actual_height: 4,
    });
    assert_eq!(
        error.message(),
        "decoded AV1 frame geometry mismatch: expected 1x2, got 3x4"
    );
    assert_eq!(error.category(), DecodeErrorCategory::MalformedInput);

    let error = DecodeError::HeicDecode(DecodeHeicError::InvalidDecodedFrame {
        detail: FrameFault::Template(Detail::Plain("empty")),
    });
    assert_eq!(error.message(), "decoded HEVC frame is invalid: empty");

    let source = TransformGuardError::EmptyImageGeometry {
        width: 0,
        height: 3,
    };
    let error = DecodeError::HeicDecode(DecodeHeicError::InvalidDecodedFrame {
        detail: FrameFault::TileCrop {
            width: 8,
            height: 9,
            source: source.clone(),
        },
    });
    assert_eq!(
        error.message(),
        format!(
            "decoded HEVC frame is invalid: grid tile clean-aperture crop is invalid for 8x9: {}",
            source.message()
        )
    );
    assert_eq!(error.category(), DecodeErrorCategory::MalformedInput);

    let error = DecodeUncompressedError::InvalidInput {
        detail: InputFault::Unpacking {
            method: "zlib",
            unit_index: 3,
            reason: "corrupt".to_string(),
        },
    };
    assert_eq!(
        error.message(),
        "failed to decompress zlib generic-compressed unit 3: corrupt"
    );
    assert_eq!(error.category(), DecodeErrorCategory::MalformedInput);

    let error = DecodeError::TransformGuard(TransformGuardError::EmptyImageGeometry {
        width: 0,
        height: 3,
    });
    assert!(error.message().contains("0x3"));
}
