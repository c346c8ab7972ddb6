//! A relocation of a player decided by the server.
use vstd::prelude::*;

use crate::client::{Location, Player};
use crate::listener::Cancellable;

verus! {

/// The server proposes to put a player at `to`.
#[derive(Debug, Clone, Copy, PartialEq, Eq, Structural)]
pub struct TeleportEvent {
    pub cancelled: bool,
    /// Id of the acting player.
    pub player: u128,
    pub to: Location,
}

impl Cancellable for TeleportEvent {
    open spec fn cancelled_flag(&self) -> bool {
        self.cancelled
    }

    open spec fn with_cancelled(&self, cancelled: bool) -> TeleportEvent {
        TeleportEvent { cancelled, ..*self }
    }

    fn set_cancelled(&mut self, cancelled: bool) {
        self.cancelled = cancelled;
    }

    fn is_cancelled(&self) -> (r: bool) {
        self.cancelled
    }
}

impl TeleportEvent {
    /// A proposal, not cancelled, that `player` be put at `to`.
    pub fn new(player: &Player, to: Location) -> (r: TeleportEvent)
        ensures
            r == (TeleportEvent { cancelled: false, player: player.id, to }),
    {
        TeleportEvent { cancelled: false, player: player.id, to }
    }

    pub fn player(&self) -> (r: u128)
        ensures
            r == self.player,
    {
        self.player
    }

    pub fn to(&self) -> (r: Location)
        ensures
            r == self.to,
    {
        self.to
    }

    pub fn set_to(&mut self, to: Location)
        ensures
            *final(self) == (TeleportEvent { to, ..*old(self) }),
    {
        self.to = to;
    }
}

} // verus!
