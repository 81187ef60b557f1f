//! Signalling decisions, input mapping, the scramble's randomness, and
//! the statistics arithmetic.

use tile_sync::board::TileState;
use tile_sync::descriptor::encode_descriptor;
use tile_sync::player::duration_millis;
use tile_sync::signaling::{
    negotiation_plan, parse_remote_descriptor, SignalingAction, SignalingSession, TransportCmd,
};
use tile_sync::{
    ConnectionDescriptor, DescriptorKind, InputAction, KeyCode, KeyboardInput,
    MultiplayerGameMessage, PlayerSettings, TileMultiplayerTransport, TileRandom,
};

fn creator_session() -> SignalingSession {
    SignalingSession::new(7, true, "host".to_string(), PlayerSettings { num_rows_cols: 4 })
}

#[test]
fn hello_makes_creator_answer_with_start_game() {
    let mut s = creator_session();
    let acts = s.handle_message(&MultiplayerGameMessage::Hello {
        username: "guest".to_string(),
    });
    assert_eq!(acts.len(), 1);
    let expected = MultiplayerGameMessage::StartGame {
        img_num: 7,
        num_rows_cols: 4,
        host_username: "host".to_string(),
    };
    match &acts[0] {
        SignalingAction::SendToPeer(m) => assert_eq!(m, &expected),
        other => panic!("unexpected action {:?}", action_name(other)),
    }
    assert_eq!(s.peer_username.as_deref(), Some("guest"));
    assert_eq!(s.ready_to_start(), Some((7, 4, "guest".to_string())));
}

#[test]
fn connection_string_goes_to_clipboard() {
    let mut s = creator_session();
    assert!(!s.connecting);
    let acts = s.handle_message(&MultiplayerGameMessage::ConnectionString("blob".to_string()));
    assert_eq!(acts.len(), 1);
    match &acts[0] {
        SignalingAction::CopyToClipboard(c) => assert_eq!(c, "blob"),
        other => panic!("unexpected action {:?}", action_name(other)),
    }
    assert!(s.connecting);
}

#[test]
fn joiner_records_inbound_start_game() {
    let mut s = SignalingSession::new(
        3,
        false,
        "guest".to_string(),
        PlayerSettings { num_rows_cols: 5 },
    );
    let start = MultiplayerGameMessage::StartGame {
        img_num: 9,
        num_rows_cols: 3,
        host_username: "host".to_string(),
    };
    let acts = s.handle_message(&start);
    assert!(acts.is_empty());
    // The joiner plays the host's parameters and shows the host's name.
    assert_eq!(s.ready_to_start(), Some((9, 3, "host".to_string())));
}

#[test]
fn creator_paste_forwards_the_answer() {
    let mut s = creator_session();
    let acts = s.submit_clipboard("pasted-answer".to_string());
    assert_eq!(acts.len(), 1);
    match &acts[0] {
        SignalingAction::SendToPeer(MultiplayerGameMessage::ConnectionString(c)) => {
            assert_eq!(c, "pasted-answer")
        }
        other => panic!("unexpected action {:?}", action_name(other)),
    }
}

#[test]
fn joiner_paste_starts_transport_and_greets() {
    let mut s = SignalingSession::new(
        2,
        false,
        "guest".to_string(),
        PlayerSettings { num_rows_cols: 4 },
    );
    let acts = s.submit_clipboard("pasted-offer".to_string());
    assert_eq!(acts.len(), 2);
    match &acts[0] {
        SignalingAction::CreateTransport(Some(c)) => assert_eq!(c, "pasted-offer"),
        other => panic!("unexpected action {:?}", action_name(other)),
    }
    match &acts[1] {
        SignalingAction::SendToPeer(MultiplayerGameMessage::Hello { username }) => {
            assert_eq!(username, "guest")
        }
        other => panic!("unexpected action {:?}", action_name(other)),
    }
}

#[test]
fn cancel_is_local_only() {
    let mut s = creator_session();
    s.cancel();
    assert!(s.game_cancelled);
    assert!(s.ready_to_start().is_none());
}

fn action_name(a: &SignalingAction) -> &'static str {
    match a {
        SignalingAction::CopyToClipboard(_) => "CopyToClipboard",
        SignalingAction::SendToPeer(_) => "SendToPeer",
        SignalingAction::CreateTransport(_) => "CreateTransport",
    }
}

#[test]
fn negotiation_plan_for_creator() {
    let cmds = negotiation_plan(true, None);
    assert_eq!(cmds.len(), 4);
    assert!(matches!(cmds[0], TransportCmd::CreateDataChannel));
    assert!(matches!(cmds[1], TransportCmd::CreateOffer));
    assert!(matches!(cmds[2], TransportCmd::AwaitGatheringComplete));
    assert!(matches!(cmds[3], TransportCmd::PublishLocalDescriptor));
}

#[test]
fn negotiation_plan_for_joiner() {
    let offer = ConnectionDescriptor {
        kind: DescriptorKind::Offer,
        sdp: "v=0\r\n".to_string(),
    };
    let cmds = negotiation_plan(false, Some(offer.clone()));
    assert_eq!(cmds.len(), 5);
    assert!(matches!(cmds[0], TransportCmd::ListenForDataChannel));
    match &cmds[1] {
        TransportCmd::ApplyRemoteDescriptor(d) => assert_eq!(d, &offer),
        _ => panic!("second step must apply the remote offer"),
    }
    assert!(matches!(cmds[2], TransportCmd::CreateAnswer));
    assert!(matches!(cmds[3], TransportCmd::AwaitGatheringComplete));
    assert!(matches!(cmds[4], TransportCmd::PublishLocalDescriptor));
}

#[test]
fn remote_descriptor_parses_back() {
    let d = ConnectionDescriptor {
        kind: DescriptorKind::Offer,
        sdp: "v=0\r\na=setup:actpass\r\n".to_string(),
    };
    let s = encode_descriptor(&d);
    assert_eq!(parse_remote_descriptor(&s), Ok(d));
}

#[test]
fn bad_remote_descriptor_is_a_setup_error() {
    let e = parse_remote_descriptor("???").expect_err("garbage must be refused");
    assert!(!e.cause.is_empty());
}

#[test]
fn keyboard_mapping_matches_keys() {
    assert_eq!(
        KeyboardInput::process_key_input(Some(KeyCode::Escape), false),
        Some(InputAction::Cancel)
    );
    assert_eq!(
        KeyboardInput::process_key_input(Some(KeyCode::Left), false),
        Some(InputAction::Left)
    );
    assert_eq!(
        KeyboardInput::process_key_input(Some(KeyCode::Return), false),
        Some(InputAction::Select)
    );
    assert_eq!(KeyboardInput::process_key_input(Some(KeyCode::Other), false), None);
    assert_eq!(KeyboardInput::process_key_input(None, false), None);
    // Repeats are swallowed.
    assert_eq!(KeyboardInput::process_key_input(Some(KeyCode::Up), true), None);
}

#[test]
fn random_adjacent_tile_stays_adjacent_and_in_bounds() {
    let n = 4usize;
    for i in 0..n {
        for j in 0..n {
            for _ in 0..50 {
                let (ti, tj) = TileRandom::random_adjacent_tile((i, j), n, n);
                assert!(ti < n && tj < n);
                let vertical = ti == i + 1 || ti + 1 == i;
                let horizontal = tj == j + 1 || tj + 1 == j;
                assert!(
                    (ti == i && horizontal) || (tj == j && vertical),
                    "({},{}) is not adjacent to ({},{})",
                    ti,
                    tj,
                    i,
                    j
                );
            }
        }
    }
}

#[test]
fn scramble_never_undoes_the_previous_swap() {
    // The move a scramble step makes is visible as the hole's path; the
    // path never returns to where it just was.
    let mut board = TileState::new_singleplayer(4).expect("board construction");
    let mut prev = None;
    for _ in 0..30 {
        let here = board.blank_cell;
        board.swap_random_tile_blank().unwrap();
        assert_ne!(Some(board.blank_cell), prev, "scramble undid the previous swap");
        prev = Some(here);
    }
}

#[test]
fn player_move_slides_the_hole() {
    let mut board = TileState::new_singleplayer(4).expect("board construction");
    board.on_animation_finished();
    let (i, j) = board.blank_cell;
    // Pick a direction that is legal for wherever the hole landed.
    let (action, expected) = if i + 1 < 4 {
        (InputAction::Up, (i + 1, j))
    } else {
        (InputAction::Down, (i - 1, j))
    };
    board.handle_input_event(action).unwrap();
    assert_eq!(board.total_moves, 1);
    assert_eq!(board.blank_cell, expected);
}

#[test]
fn blocked_player_move_does_nothing() {
    let mut board = TileState::new(2, TileMultiplayerTransport::new(None), true)
        .expect("board construction");
    // Give the mirrored board a hole at the top-left corner.
    board.apply_peer_message(&MultiplayerGameMessage::DeleteRandomTile((0, 0)));
    board.apply_peer_message(&MultiplayerGameMessage::ScramblingFinished);
    // Down would slide the tile above the hole; there is none at row 0.
    board.handle_input_event(InputAction::Down).unwrap();
    assert_eq!(board.total_moves, 0);
    assert_eq!(board.blank_cell, (0, 0));
}

#[test]
fn duration_is_clamped_at_zero() {
    assert_eq!(duration_millis(40, 100), 60);
    assert_eq!(duration_millis(100, 40), 0);
    assert_eq!(duration_millis(5, 5), 0);
}
