//! The signalling exchange: the decisions behind session setup.
//!
//! There is no rendezvous server; the two sides move their descriptors by
//! hand, over the clipboard. This module holds the decision core of that
//! exchange — what to do with each inbound message, each pasted string and
//! each key — and the fixed plan the background network task follows. The
//! surroundings (clipboard, network, queues) perform the returned actions
//! and feed back what happened.

use vstd::prelude::*;

use crate::descriptor::{
    decode_descriptor, encode_descriptor, spec_encode_descriptor, ConnectionDescriptor,
    DescriptorDecodeError, DescriptorModel,
};
use crate::message::{MessageModel, MultiplayerGameMessage};
use crate::player::PlayerSettings;

verus! {

/// Something the caller must do on the session's behalf.
pub enum SignalingAction {
    /// Show this connection string and put it on the clipboard.
    CopyToClipboard(String),
    /// Queue this message for the peer.
    SendToPeer(MultiplayerGameMessage),
    /// Start the session transport; a joiner hands it the pasted offer.
    CreateTransport(Option<String>),
}

/// The manual signalling exchange, as one side sees it.
///
/// Holds the session context explicitly — the local player's name and
/// settings enter through the constructor rather than through a global.
pub struct SignalingSession {
    /// True on the side that creates the session and offers first.
    pub creator: bool,
    /// True once this side is waiting on the out-of-band exchange.
    pub connecting: bool,
    /// Which puzzle the session will play.
    pub puzzle_num: usize,
    /// Set when the player backed out.
    pub game_cancelled: bool,
    /// The agreed start, once known: always a `StartGame` message.
    pub game_started: Option<MultiplayerGameMessage>,
    /// The peer's name, once its greeting arrived.
    pub peer_username: Option<String>,
    /// The local player's name.
    pub local_username: String,
    /// The local player's settings; the creator's board size rules.
    pub local_settings: PlayerSettings,
}

impl SignalingSession {
    /// Opens the exchange for one side.
    pub fn new(
        puzzle_num: usize,
        creator: bool,
        local_username: String,
        local_settings: PlayerSettings,
    ) -> (s: SignalingSession)
        ensures
            s.creator == creator,
            s.connecting == !creator,
            s.puzzle_num == puzzle_num,
            !s.game_cancelled,
            s.game_started is None,
            s.peer_username is None,
            s.local_username@ == local_username@,
            s.local_settings == local_settings,
    {
        SignalingSession {
            creator,
            connecting: !creator,
            puzzle_num,
            game_cancelled: false,
            game_started: None,
            peer_username: None,
            local_username,
            local_settings,
        }
    }

    /// Reacts to one inbound message during signalling: a connection
    /// string goes to the clipboard; a greeting makes the creator fix the
    /// game parameters and answer with `StartGame`; an inbound
    /// `StartGame` records the agreed start; anything else is ignored.
    pub fn handle_message(&mut self, msg: &MultiplayerGameMessage) -> (acts: Vec<SignalingAction>)
        ensures
            (match msg@ {
                MessageModel::ConnectionString { conn } => {
                    &&& acts@.len() == 1
                    &&& (acts@[0] matches SignalingAction::CopyToClipboard(c) && c@ == conn)
                    &&& final(self).connecting
                    &&& final(self).game_started == old(self).game_started
                    &&& final(self).peer_username == old(self).peer_username
                },
                MessageModel::Hello { username } => {
                    &&& acts@.len() == 1
                    &&& (acts@[0] matches SignalingAction::SendToPeer(m) && m@
                        == start_game_model(*old(self)))
                    &&& (final(self).game_started matches Some(g) && g@ == start_game_model(
                        *old(self),
                    ))
                    &&& (final(self).peer_username matches Some(u) && u@ == username)
                    &&& final(self).connecting == old(self).connecting
                },
                MessageModel::StartGame { .. } => {
                    &&& acts@.len() == 0
                    &&& (final(self).game_started matches Some(g) && g@ == msg@)
                    &&& final(self).peer_username == old(self).peer_username
                    &&& final(self).connecting == old(self).connecting
                },
                _ => acts@.len() == 0 && *final(self) == *old(self),
            }),
            final(self).creator == old(self).creator,
            final(self).puzzle_num == old(self).puzzle_num,
            final(self).game_cancelled == old(self).game_cancelled,
            final(self).local_username == old(self).local_username,
            final(self).local_settings == old(self).local_settings,
    {
        let mut acts: Vec<SignalingAction> = Vec::new();
        match msg {
            MultiplayerGameMessage::ConnectionString(s) => {
                acts.push(SignalingAction::CopyToClipboard(s.clone()));
                self.connecting = true;
            },
            MultiplayerGameMessage::Hello { username } => {
                self.peer_username = Some(username.clone());
                let start = MultiplayerGameMessage::StartGame {
                    img_num: self.puzzle_num,
                    num_rows_cols: self.local_settings.num_rows_cols,
                    host_username: self.local_username.clone(),
                };
                self.game_started = Some(start.clone());
                acts.push(SignalingAction::SendToPeer(start));
            },
            MultiplayerGameMessage::StartGame { .. } => {
                self.game_started = Some(msg.clone());
            },
            _ => {},
        }
        acts
    }

    /// The player confirmed a pasted connection string: the creator
    /// forwards it as the peer's answer; a joiner starts its transport
    /// from the offer and greets the creator.
    pub fn submit_clipboard(&mut self, conn_str: String) -> (acts: Vec<SignalingAction>)
        ensures
            *final(self) == *old(self),
            old(self).creator ==> ({
                &&& acts@.len() == 1
                &&& (acts@[0] matches SignalingAction::SendToPeer(m) && m@
                    == (MessageModel::ConnectionString { conn: conn_str@ }))
            }),
            !old(self).creator ==> ({
                &&& acts@.len() == 2
                &&& (acts@[0] matches SignalingAction::CreateTransport(o) && (o matches Some(c)
                    && c@ == conn_str@))
                &&& (acts@[1] matches SignalingAction::SendToPeer(m) && m@
                    == (MessageModel::Hello { username: old(self).local_username@ }))
            }),
    {
        let mut acts: Vec<SignalingAction> = Vec::new();
        if self.creator {
            acts.push(
                SignalingAction::SendToPeer(MultiplayerGameMessage::ConnectionString(conn_str)),
            );
        } else {
            acts.push(SignalingAction::CreateTransport(Some(conn_str)));
            acts.push(
                SignalingAction::SendToPeer(
                    MultiplayerGameMessage::Hello { username: self.local_username.clone() },
                ),
            );
        }
        acts
    }

    /// The player backed out: a local decision only — the peer is not
    /// told.
    pub fn cancel(&mut self)
        ensures
            *final(self) == (SignalingSession { game_cancelled: true, ..*old(self) }),
    {
        self.game_cancelled = true;
    }

    /// The parameters for the shared game, once the start is agreed: the
    /// puzzle, the board size, and the name to show for the peer — the
    /// joiner shows the host's name from the message, the creator the name
    /// from the greeting. `None` until then, or while the creator still
    /// waits for a greeting.
    pub fn ready_to_start(&self) -> (r: Option<(usize, usize, String)>)
        ensures
            (match self.game_started {
                Some(g) => (match g@ {
                    MessageModel::StartGame { img_num, num_rows_cols, host_username } => {
                        if self.creator {
                            match self.peer_username {
                                Some(p) => (r matches Some(t) && t.0 == img_num && t.1
                                    == num_rows_cols && t.2@ == p@),
                                None => r is None,
                            }
                        } else {
                            r matches Some(t) && t.0 == img_num && t.1 == num_rows_cols && t.2@
                                == host_username
                        }
                    },
                    _ => r is None,
                }),
                None => r is None,
            }),
    {
        match &self.game_started {
            Some(MultiplayerGameMessage::StartGame { img_num, num_rows_cols, host_username }) => {
                if self.creator {
                    match &self.peer_username {
                        Some(p) => Some((*img_num, *num_rows_cols, p.clone())),
                        None => None,
                    }
                } else {
                    Some((*img_num, *num_rows_cols, host_username.clone()))
                }
            },
            _ => None,
        }
    }
}

/// A transport-setup failure: fatal to the session, with its cause.
#[derive(Debug, Clone, PartialEq)]
pub struct TransportSetupError {
    /// What went wrong, for the player.
    pub cause: String,
}

/// One step of the negotiation the background network task performs in
/// order. The steps themselves are network work; which steps run, and
/// with which descriptor, is decided here.
pub enum TransportCmd {
    /// Creator: open the data channel before offering.
    CreateDataChannel,
    /// Joiner: accept the channel the creator announces.
    ListenForDataChannel,
    /// Apply the peer's descriptor as the remote description.
    ApplyRemoteDescriptor(ConnectionDescriptor),
    /// Joiner: produce the local answer.
    CreateAnswer,
    /// Creator: produce the local offer.
    CreateOffer,
    /// Wait until candidate gathering finishes.
    AwaitGatheringComplete,
    /// Hand the finalized local descriptor to the signalling exchange.
    PublishLocalDescriptor,
}

/// Decodes a remote descriptor pasted during signalling, mapping each
/// failure to the session-fatal setup error with its cause. Decoding a
/// string that [`encode_descriptor`] produced always succeeds with that
/// descriptor.
pub fn parse_remote_descriptor(s: &str) -> (r: Result<ConnectionDescriptor, TransportSetupError>)
    ensures
        forall|dm: DescriptorModel|
            s@ == #[trigger] spec_encode_descriptor(dm) ==> (r matches Ok(d) && d@ == dm),
{
    match decode_descriptor(s) {
        Ok(d) => Ok(d),
        Err(DescriptorDecodeError::InvalidBase64) => Err(
            TransportSetupError { cause: "Failed to decode base64 conn string".to_string() },
        ),
        Err(DescriptorDecodeError::InvalidDescriptor) => Err(
            TransportSetupError {
                cause: "Failed to convert connection string to a session description".to_string(),
            },
        ),
    }
}

/// The fixed negotiation plan for one side. The creator opens a channel,
/// offers, gathers, and publishes; a joiner listens for the channel,
/// applies the pasted offer, answers, gathers, and publishes.
pub fn negotiation_plan(creator: bool, remote: Option<ConnectionDescriptor>) -> (cmds: Vec<
    TransportCmd,
>)
    requires
        creator <==> remote is None,
    ensures
        creator ==> ({
            &&& cmds@.len() == 4
            &&& cmds@[0] is CreateDataChannel
            &&& cmds@[1] is CreateOffer
            &&& cmds@[2] is AwaitGatheringComplete
            &&& cmds@[3] is PublishLocalDescriptor
        }),
        !creator ==> ({
            &&& cmds@.len() == 5
            &&& cmds@[0] is ListenForDataChannel
            &&& (cmds@[1] matches TransportCmd::ApplyRemoteDescriptor(d) && d@ == remote->0@)
            &&& cmds@[2] is CreateAnswer
            &&& cmds@[3] is AwaitGatheringComplete
            &&& cmds@[4] is PublishLocalDescriptor
        }),
{
    let mut cmds: Vec<TransportCmd> = Vec::new();
    match remote {
        None => {
            cmds.push(TransportCmd::CreateDataChannel);
            cmds.push(TransportCmd::CreateOffer);
        },
        Some(d) => {
            cmds.push(TransportCmd::ListenForDataChannel);
            cmds.push(TransportCmd::ApplyRemoteDescriptor(d));
            cmds.push(TransportCmd::CreateAnswer);
        },
    }
    cmds.push(TransportCmd::AwaitGatheringComplete);
    cmds.push(TransportCmd::PublishLocalDescriptor);
    cmds
}

/// The message that carries the finalized local descriptor to the
/// signalling exchange, for the player to copy out.
pub fn local_descriptor_message(d: &ConnectionDescriptor) -> (m: MultiplayerGameMessage)
    ensures
        m@ == (MessageModel::ConnectionString { conn: spec_encode_descriptor(d@) }),
{
    MultiplayerGameMessage::ConnectionString(encode_descriptor(d))
}

/// The `StartGame` message a creator answers a greeting with: its own
/// puzzle, its configured board size, its own name.
pub open spec fn start_game_model(s: SignalingSession) -> MessageModel {
    MessageModel::StartGame {
        img_num: s.puzzle_num,
        num_rows_cols: s.local_settings.num_rows_cols,
        host_username: s.local_username@,
    }
}

} // verus!
