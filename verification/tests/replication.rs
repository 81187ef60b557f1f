//! Board replication over the bridge: the mirrored side replays what the
//! authoritative side emits, malformed payloads are dropped without
//! harming later ones, and the hole bookkeeping stays exact.

use std::sync::Arc;

use tile_sync::board::{GameStage, TileState};
use tile_sync::message::{decode_message, encode_message};
use tile_sync::{MultiplayerGameMessage, MultiplayerTransport, PuzzleStatistics, TileMultiplayerTransport};

fn peer_board_with_feed(n: usize) -> (TileState, flume::Sender<Vec<u8>>) {
    let (net_tx, inbound_rx) = flume::unbounded::<Vec<u8>>();
    let (outbound_tx, _outbound_rx) = flume::unbounded::<Vec<u8>>();
    let transport = MultiplayerTransport::new(inbound_rx, outbound_tx);
    let tmt = TileMultiplayerTransport::new(Some(Arc::new(transport)));
    let board = TileState::new(n, tmt, true).expect("peer board construction cannot fail");
    (board, net_tx)
}

#[test]
fn joiner_replays_delete_swap_complete() {
    // The scenario: the creator deletes (1,1), slides (1,1)->(1,2), then
    // reports completion; the joiner applies all three in order.
    let (mut board, net_tx) = peer_board_with_feed(4);
    let msgs = vec![
        MultiplayerGameMessage::DeleteRandomTile((1, 1)),
        MultiplayerGameMessage::SwapTiles {
            i1j1: (1, 1),
            i2j2: (1, 2),
            duration_millis: 300,
        },
        MultiplayerGameMessage::GameCompleted(PuzzleStatistics {
            finish_time: 100,
            duration: 30,
            move_count: 5,
        }),
    ];
    for m in &msgs {
        net_tx.send(encode_message(m)).unwrap();
    }
    board.update();
    board.update();
    board.update();

    // The hole moved from (1,1) to (1,2); the tile that was at (1,2) now
    // sits at (1,1).
    assert_eq!(board.blank_cell, (1, 2));
    assert!(board.ref_board[1][2].is_none());
    assert_eq!(board.ref_board[1][1], Some((1, 2)));
    // The peer's statistics are recorded as received.
    assert_eq!(
        board.puzzle_statistics,
        Some(PuzzleStatistics {
            finish_time: 100,
            duration: 30,
            move_count: 5,
        })
    );
    assert_eq!(board.game_stage, GameStage::FinishingAnimation);
}

#[test]
fn mirror_equals_authority_after_replay() {
    // The authoritative construction emits one deletion and the fixed
    // number of scramble swaps; replaying them on a fresh mirror must
    // reproduce the authoritative board exactly.
    let (outbound_tx, outbound_rx) = flume::unbounded::<Vec<u8>>();
    let (_net_tx, inbound_rx) = flume::unbounded::<Vec<u8>>();
    let transport = MultiplayerTransport::new(inbound_rx, outbound_tx);
    let tmt = TileMultiplayerTransport::new(Some(Arc::new(transport)));
    let auth = TileState::new(4, tmt, false).expect("creator board construction");

    let mut mirror = TileState::new(4, TileMultiplayerTransport::new(None), true)
        .expect("mirror board construction");
    let mut applied = 0;
    while let Ok(payload) = outbound_rx.try_recv() {
        let msg = decode_message(&payload).expect("authoritative payloads decode");
        mirror.apply_peer_message(&msg);
        applied += 1;
    }
    assert_eq!(applied, 51);
    assert_eq!(mirror.ref_board, auth.ref_board);
    assert_eq!(mirror.blank_cell, auth.blank_cell);
}

#[test]
fn creator_emits_delete_then_fixed_swaps() {
    // What the creator's construction sends is exactly one deletion
    // followed by fifty swaps — never anything else, in that order.
    let (outbound_tx, outbound_rx) = flume::unbounded::<Vec<u8>>();
    let (_net_tx, inbound_rx) = flume::unbounded::<Vec<u8>>();
    let transport = MultiplayerTransport::new(inbound_rx, outbound_tx);
    let tmt = TileMultiplayerTransport::new(Some(Arc::new(transport)));
    let _auth = TileState::new(4, tmt, false).expect("creator board construction");

    let mut emitted = vec![];
    while let Ok(payload) = outbound_rx.try_recv() {
        emitted.push(decode_message(&payload).expect("authoritative payloads decode"));
    }
    assert_eq!(emitted.len(), 51);
    assert!(matches!(emitted[0], MultiplayerGameMessage::DeleteRandomTile(_)));
    for m in &emitted[1..] {
        assert!(matches!(m, MultiplayerGameMessage::SwapTiles { .. }));
    }
}

#[test]
fn replayed_board_has_exactly_one_hole() {
    let (outbound_tx, outbound_rx) = flume::unbounded::<Vec<u8>>();
    let (_net_tx, inbound_rx) = flume::unbounded::<Vec<u8>>();
    let transport = MultiplayerTransport::new(inbound_rx, outbound_tx);
    let tmt = TileMultiplayerTransport::new(Some(Arc::new(transport)));
    let _auth = TileState::new(3, tmt, false).expect("creator board construction");

    let mut mirror = TileState::new(3, TileMultiplayerTransport::new(None), true)
        .expect("mirror board construction");
    while let Ok(payload) = outbound_rx.try_recv() {
        let msg = decode_message(&payload).expect("authoritative payloads decode");
        mirror.apply_peer_message(&msg);
    }
    let mut holes = vec![];
    for i in 0..3 {
        for j in 0..3 {
            if mirror.ref_board[i][j].is_none() {
                holes.push((i, j));
            }
        }
    }
    // The cell recorded as the hole is the hole, and nothing else is.
    assert_eq!(holes, vec![mirror.blank_cell]);
}

#[test]
fn malformed_payload_is_dropped_not_fatal() {
    let (mut board, net_tx) = peer_board_with_feed(4);
    net_tx.send(vec![0xff, 0xff, 0xff]).unwrap();
    net_tx
        .send(encode_message(&MultiplayerGameMessage::DeleteRandomTile((2, 2))))
        .unwrap();
    board.update(); // the malformed payload is dropped
    assert!(board.ref_board[2][2].is_some());
    board.update(); // the valid one behind it still applies
    assert!(board.ref_board[2][2].is_none());
    assert_eq!(board.blank_cell, (2, 2));
}

#[test]
fn try_receive_skips_malformed_and_keeps_valid() {
    let (net_tx, inbound_rx) = flume::unbounded::<Vec<u8>>();
    let (outbound_tx, _outbound_rx) = flume::unbounded::<Vec<u8>>();
    let transport = MultiplayerTransport::new(inbound_rx, outbound_tx);
    net_tx.send(vec![0xde, 0xad]).unwrap();
    net_tx
        .send(encode_message(&MultiplayerGameMessage::ScramblingFinished))
        .unwrap();
    assert_eq!(transport.try_receive(), None);
    assert_eq!(
        transport.try_receive(),
        Some(MultiplayerGameMessage::ScramblingFinished)
    );
    assert_eq!(transport.try_receive(), None);
}

#[test]
fn bridge_preserves_send_order() {
    let (tx_in, rx_in) = flume::unbounded::<Vec<u8>>();
    let (tx_out, rx_out) = flume::unbounded::<Vec<u8>>();
    let sender_side = MultiplayerTransport::new(rx_in, tx_out);
    let receiver_side = MultiplayerTransport::new(rx_out, tx_in);
    for k in 0..5usize {
        sender_side
            .send(&MultiplayerGameMessage::DeleteRandomTile((k, k)))
            .unwrap();
    }
    for k in 0..5usize {
        assert_eq!(
            receiver_side.try_receive(),
            Some(MultiplayerGameMessage::DeleteRandomTile((k, k)))
        );
    }
}

#[test]
fn ignored_messages_leave_board_alone() {
    let (mut board, net_tx) = peer_board_with_feed(4);
    // A swap that moves the hole itself, before any hole exists: ignored.
    net_tx
        .send(encode_message(&MultiplayerGameMessage::SwapTiles {
            i1j1: (90, 0),
            i2j2: (0, 0),
            duration_millis: 300,
        }))
        .unwrap();
    board.update();
    for i in 0..4 {
        for j in 0..4 {
            assert_eq!(board.ref_board[i][j], Some((i, j)));
        }
    }
}

#[test]
fn scrambling_finished_opens_the_board() {
    let (mut board, net_tx) = peer_board_with_feed(4);
    assert_eq!(board.game_stage, GameStage::StartingAnimation);
    net_tx
        .send(encode_message(&MultiplayerGameMessage::ScramblingFinished))
        .unwrap();
    board.update();
    assert_eq!(board.game_stage, GameStage::Started);
}

#[test]
fn animation_end_advances_the_stage() {
    let mut board = TileState::new(2, TileMultiplayerTransport::new(None), true)
        .expect("board construction");
    assert!(!board.finished());
    board.on_animation_finished();
    assert_eq!(board.game_stage, GameStage::Started);
    board.set_finishing_animation();
    board.on_animation_finished();
    assert!(board.finished());
}
