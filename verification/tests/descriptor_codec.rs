//! Signalling-string codec behaviour: descriptors round-trip through
//! base64-of-JSON, the JSON matches the conventional shape, and bad input
//! is classified.

use tile_sync::descriptor::{decode_descriptor, encode_descriptor, parse_descriptor_bytes};
use tile_sync::{ConnectionDescriptor, DescriptorDecodeError, DescriptorKind};

fn sample_sdp() -> String {
    "v=0\r\no=- 123 2 IN IP4 127.0.0.1\r\ns=-\r\nt=0 0\r\n".to_string()
}

#[test]
fn descriptor_round_trip_offer() {
    let d = ConnectionDescriptor {
        kind: DescriptorKind::Offer,
        sdp: sample_sdp(),
    };
    let s = encode_descriptor(&d);
    assert_eq!(decode_descriptor(&s), Ok(d));
}

#[test]
fn descriptor_round_trip_answer() {
    let d = ConnectionDescriptor {
        kind: DescriptorKind::Answer,
        sdp: sample_sdp(),
    };
    let s = encode_descriptor(&d);
    assert_eq!(decode_descriptor(&s), Ok(d));
}

#[test]
fn descriptor_round_trip_awkward_text() {
    let d = ConnectionDescriptor {
        kind: DescriptorKind::Pranswer,
        sdp: "quote \" backslash \\ tab \t newline \n bell \u{7} unicode é\u{1F9E9}".to_string(),
    };
    let s = encode_descriptor(&d);
    assert_eq!(decode_descriptor(&s), Ok(d));
}

#[test]
fn descriptor_round_trip_empty_sdp() {
    let d = ConnectionDescriptor {
        kind: DescriptorKind::Rollback,
        sdp: String::new(),
    };
    let s = encode_descriptor(&d);
    assert_eq!(decode_descriptor(&s), Ok(d));
}

#[test]
fn encoded_descriptor_is_base64_of_json() {
    let d = ConnectionDescriptor {
        kind: DescriptorKind::Offer,
        sdp: "v=0\r\n".to_string(),
    };
    let s = encode_descriptor(&d);
    // The text is real base64, and the bytes behind it are the JSON object
    // in its conventional shape.
    let json = base64::decode(&s).expect("encoded descriptor must be base64");
    assert_eq!(json, b"{\"type\":\"offer\",\"sdp\":\"v=0\\r\\n\"}".to_vec());
}

#[test]
fn decode_rejects_non_base64() {
    assert_eq!(
        decode_descriptor("not base64 !!!"),
        Err(DescriptorDecodeError::InvalidBase64)
    );
}

#[test]
fn decode_rejects_non_descriptor_json() {
    let s = base64::encode(b"{\"other\":true}");
    assert_eq!(
        decode_descriptor(&s),
        Err(DescriptorDecodeError::InvalidDescriptor)
    );
}

#[test]
fn parse_accepts_conventional_json() {
    let d = parse_descriptor_bytes(b"{\"type\":\"answer\",\"sdp\":\"a\\nb\"}")
        .expect("conventional descriptor JSON must parse");
    assert_eq!(d.kind, DescriptorKind::Answer);
    assert_eq!(d.sdp, "a\nb");
}

#[test]
fn parse_rejects_unknown_kind() {
    assert!(parse_descriptor_bytes(b"{\"type\":\"noise\",\"sdp\":\"x\"}").is_none());
}

#[test]
fn parse_rejects_trailing_garbage() {
    assert!(parse_descriptor_bytes(b"{\"type\":\"offer\",\"sdp\":\"x\"} ").is_none());
}
