//! Wire-codec behaviour: every message round-trips, malformed payloads
//! are rejected, and the byte layout is the documented one.

use tile_sync::message::{decode_message, encode_message};
use tile_sync::{MultiplayerGameMessage, PuzzleStatistics};

#[test]
fn round_trip_connection_string() {
    let m = MultiplayerGameMessage::ConnectionString("abc123//==".to_string());
    let bytes = encode_message(&m);
    assert_eq!(decode_message(&bytes), Some(m));
}

#[test]
fn round_trip_hello() {
    let m = MultiplayerGameMessage::Hello {
        username: "petra".to_string(),
    };
    let bytes = encode_message(&m);
    assert_eq!(decode_message(&bytes), Some(m));
}

#[test]
fn round_trip_hello_unicode() {
    let m = MultiplayerGameMessage::Hello {
        username: "pét\u{1F9E9}ra".to_string(),
    };
    let bytes = encode_message(&m);
    assert_eq!(decode_message(&bytes), Some(m));
}

#[test]
fn round_trip_close_connection() {
    let m = MultiplayerGameMessage::CloseConnection;
    let bytes = encode_message(&m);
    assert_eq!(bytes, vec![2u8]);
    assert_eq!(decode_message(&bytes), Some(m));
}

#[test]
fn round_trip_delete_random_tile() {
    let m = MultiplayerGameMessage::DeleteRandomTile((1, 2));
    let bytes = encode_message(&m);
    let mut expected = vec![3u8];
    expected.extend_from_slice(&1u64.to_le_bytes());
    expected.extend_from_slice(&2u64.to_le_bytes());
    assert_eq!(bytes, expected);
    assert_eq!(decode_message(&bytes), Some(m));
}

#[test]
fn round_trip_start_game() {
    let m = MultiplayerGameMessage::StartGame {
        img_num: 7,
        num_rows_cols: 4,
        host_username: "host".to_string(),
    };
    let bytes = encode_message(&m);
    assert_eq!(decode_message(&bytes), Some(m));
}

#[test]
fn round_trip_swap_tiles() {
    let m = MultiplayerGameMessage::SwapTiles {
        i1j1: (1, 1),
        i2j2: (1, 2),
        duration_millis: 300,
    };
    let bytes = encode_message(&m);
    assert_eq!(bytes.len(), 1 + 4 * 8 + 4);
    assert_eq!(decode_message(&bytes), Some(m));
}

#[test]
fn round_trip_scrambling_finished() {
    let m = MultiplayerGameMessage::ScramblingFinished;
    let bytes = encode_message(&m);
    assert_eq!(bytes, vec![6u8]);
    assert_eq!(decode_message(&bytes), Some(m));
}

#[test]
fn round_trip_game_completed() {
    let m = MultiplayerGameMessage::GameCompleted(PuzzleStatistics {
        finish_time: 100,
        duration: 30,
        move_count: 5,
    });
    let bytes = encode_message(&m);
    assert_eq!(decode_message(&bytes), Some(m));
}

#[test]
fn round_trip_game_completed_negative_time() {
    let m = MultiplayerGameMessage::GameCompleted(PuzzleStatistics {
        finish_time: -12345,
        duration: 0,
        move_count: 0,
    });
    let bytes = encode_message(&m);
    assert_eq!(decode_message(&bytes), Some(m));
}

#[test]
fn decode_rejects_empty_payload() {
    assert_eq!(decode_message(&[]), None);
}

#[test]
fn decode_rejects_unknown_tag() {
    assert_eq!(decode_message(&[9u8]), None);
    assert_eq!(decode_message(&[255u8, 0, 0]), None);
}

#[test]
fn decode_rejects_truncated_swap() {
    let m = MultiplayerGameMessage::SwapTiles {
        i1j1: (0, 0),
        i2j2: (0, 1),
        duration_millis: 300,
    };
    let bytes = encode_message(&m);
    assert_eq!(decode_message(&bytes[..bytes.len() - 1]), None);
}

#[test]
fn decode_rejects_trailing_bytes() {
    let mut bytes = encode_message(&MultiplayerGameMessage::CloseConnection);
    bytes.push(0);
    assert_eq!(decode_message(&bytes), None);
}

#[test]
fn decode_rejects_bad_utf8_username() {
    let mut bytes = vec![1u8];
    bytes.extend_from_slice(&2u64.to_le_bytes());
    bytes.extend_from_slice(&[0xff, 0xfe]);
    assert_eq!(decode_message(&bytes), None);
}

#[test]
fn decode_rejects_wrong_string_length() {
    let mut bytes = vec![0u8];
    bytes.extend_from_slice(&5u64.to_le_bytes());
    bytes.extend_from_slice(b"ab");
    assert_eq!(decode_message(&bytes), None);
}
