use micro_platform::codec::{decode, encode, DecodeError, EncodeError};
use micro_platform::esp::{HostError, MicroErrorCode};
use micro_platform::ir::AppImage;

fn every_decode_error() -> Vec<DecodeError> {
    vec![
        DecodeError::Truncated,
        DecodeError::BadMagic,
        DecodeError::UnsupportedVersion(14),
        DecodeError::LengthMismatch,
        DecodeError::ChecksumMismatch,
        DecodeError::InvalidTag { section: "ui kind", tag: 99 },
        DecodeError::InvalidUtf8,
        DecodeError::InvalidImage("node 0 has a \"bad\" child\n".into()),
        DecodeError::TrailingBytes,
    ]
}

#[test]
fn decode_errors_display_in_debug_notation() {
    for error in every_decode_error() {
        assert_eq!(error.to_string(), format!("{error:?}"));
    }
    assert_eq!(
        DecodeError::InvalidTag { section: "ui kind", tag: 99 }.to_string(),
        "InvalidTag { section: \"ui kind\", tag: 99 }"
    );
    assert_eq!(DecodeError::UnsupportedVersion(14).to_string(), "UnsupportedVersion(14)");
}

#[test]
fn encode_errors_display_in_debug_notation() {
    let invalid = EncodeError::InvalidImage("root node 0 is missing".into());
    assert_eq!(invalid.to_string(), "InvalidImage(\"root node 0 is missing\")");
    assert_eq!(invalid.to_string(), format!("{invalid:?}"));
    assert_eq!(EncodeError::TooLarge.to_string(), "TooLarge");
}

#[test]
fn undecodable_images_become_mbc_host_errors() {
    for error in every_decode_error() {
        let expected = format!("invalid MBC: {error:?}");
        let host = HostError::from_decode_error(error);
        assert_eq!(host.code(), MicroErrorCode::Mbc);
        assert_eq!(host.code().code(), 1);
        assert_eq!(host.to_string(), expected);
    }
}

#[test]
fn a_short_image_is_reported_as_truncated() {
    let error = decode(&[0x4d, 0x42]).unwrap_err();
    assert_eq!(error, DecodeError::Truncated);
    let host = HostError::from_decode_error(error);
    assert_eq!(host.to_string(), "invalid MBC: Truncated");
}

#[test]
fn an_empty_image_cannot_be_encoded() {
    let image = AppImage {
        constants: vec![],
        states: vec![],
        functions: vec![],
        nodes: vec![],
        root: micro_platform::ir::NodeId(0),
    };
    let error = encode(&image).unwrap_err();
    assert_eq!(error, EncodeError::InvalidImage("UI tree is empty".into()));
    assert_eq!(error.to_string(), "InvalidImage(\"UI tree is empty\")");
}
