//! A board's handle on the session bridge.
//!
//! Both replicas hold one of these. In a single-player session it is empty
//! and every operation is a no-op; in a multiplayer session it shares the
//! bridge with the other replica and turns board events into protocol
//! messages.

use std::sync::Arc;

use vstd::prelude::*;

use crate::bridge::{ChannelClosed, MultiplayerTransport};
use crate::message::MultiplayerGameMessage;
use crate::player::PuzzleStatistics;

verus! {

/// The transport a replica speaks through, when there is one.
pub struct TileMultiplayerTransport {
    transport: Option<Arc<MultiplayerTransport>>,
}

impl TileMultiplayerTransport {
    /// True when a bridge is attached: a single-player handle never sends
    /// and never receives.
    pub closed spec fn is_attached(&self) -> bool {
        self.transport is Some
    }

    /// Wraps a shared bridge, or nothing for single-player play.
    pub fn new(transport: Option<Arc<MultiplayerTransport>>) -> (t: TileMultiplayerTransport)
        ensures
            t.is_attached() == (transport is Some),
    {
        TileMultiplayerTransport { transport }
    }

    /// Tells the peer which cell became the hole. Errs exactly when a
    /// bridge is attached and its outbound queue is disconnected.
    pub fn delete_random_tile(&mut self, tile: (usize, usize)) -> (r: Result<(), ChannelClosed>)
        ensures
            *final(self) == *old(self),
            !old(self).is_attached() ==> r is Ok,
    {
        match &self.transport {
            Some(t) => t.send(&MultiplayerGameMessage::DeleteRandomTile(tile)),
            None => Ok(()),
        }
    }

    /// Tells the peer to slide the tile at `i2j2` into `i1j1`.
    pub fn swap_tiles(
        &mut self,
        i1j1: (usize, usize),
        i2j2: (usize, usize),
        duration_millis: u32,
    ) -> (r: Result<(), ChannelClosed>)
        ensures
            *final(self) == *old(self),
            !old(self).is_attached() ==> r is Ok,
    {
        match &self.transport {
            Some(t) => t.send(&MultiplayerGameMessage::SwapTiles { i1j1, i2j2, duration_millis }),
            None => Ok(()),
        }
    }

    /// Pulls the next inbound message, if a bridge is attached and one is
    /// queued. Never blocks; a detached handle never yields anything.
    pub fn recv_message(&mut self) -> (r: Option<MultiplayerGameMessage>)
        ensures
            *final(self) == *old(self),
            !old(self).is_attached() ==> r is None,
    {
        match &self.transport {
            Some(t) => t.try_receive(),
            None => None,
        }
    }

    /// Reports this side's completion statistics to the peer.
    pub fn end_game(&mut self, stats: PuzzleStatistics) -> (r: Result<(), ChannelClosed>)
        ensures
            *final(self) == *old(self),
            !old(self).is_attached() ==> r is Ok,
    {
        match &self.transport {
            Some(t) => t.send(&MultiplayerGameMessage::GameCompleted(stats)),
            None => Ok(()),
        }
    }
}

} // verus!
