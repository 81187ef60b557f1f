//! Peer-to-peer synchronization core for a two-player sliding-tile puzzle.
//!
//! One peer (the creator) owns the randomness and the move history; the other
//! (the joiner) mirrors the creator's board by replaying the messages it
//! receives, in order. This crate holds the protocol vocabulary, the wire
//! codec, the signalling-string codec, the board replicas and the
//! winner-reconciliation rule, each with a machine-checked contract.

pub mod board;
pub mod bridge;
pub mod descriptor;
pub mod input;
pub mod message;
pub mod player;
pub mod random;
pub mod signaling;
pub mod tile_multiplayer;
pub mod winner;

pub use board::{GameStage, TileState};
pub use bridge::{ChannelClosed, MultiplayerTransport};
pub use descriptor::{ConnectionDescriptor, DescriptorDecodeError, DescriptorKind};
pub use input::{InputAction, KeyCode, KeyboardInput};
pub use message::{MessageModel, MultiplayerGameMessage};
pub use player::{PlayerSettings, PuzzleStatistics};
pub use random::TileRandom;
pub use signaling::{SignalingAction, SignalingSession};
pub use tile_multiplayer::TileMultiplayerTransport;
pub use winner::Winner;
