//! A proposed step of a player.
use vstd::prelude::*;

use crate::client::{Location, Player};
use crate::listener::Cancellable;

verus! {

/// A player proposes to go from `from` to `to`.
#[derive(Debug, Clone, Copy, PartialEq, Eq, Structural)]
pub struct MoveEvent {
    pub cancelled: bool,
    /// Id of the acting player.
    pub player: u128,
    pub from: Location,
    pub to: Location,
}

impl Cancellable for MoveEvent {
    open spec fn cancelled_flag(&self) -> bool {
        self.cancelled
    }

    open spec fn with_cancelled(&self, cancelled: bool) -> MoveEvent {
        MoveEvent { cancelled, ..*self }
    }

    fn set_cancelled(&mut self, cancelled: bool) {
        self.cancelled = cancelled;
    }

    fn is_cancelled(&self) -> (r: bool) {
        self.cancelled
    }
}

impl MoveEvent {
    /// A proposal, not cancelled, that `player` go from where it stands to `to`.
    pub fn new(player: &Player, to: Location) -> (r: MoveEvent)
        ensures
            r == (MoveEvent { cancelled: false, player: player.id, from: player.location, to }),
    {
        MoveEvent { cancelled: false, player: player.id, from: player.get_location(), to }
    }

    pub fn player(&self) -> (r: u128)
        ensures
            r == self.player,
    {
        self.player
    }

    pub fn from(&self) -> (r: Location)
        ensures
            r == self.from,
    {
        self.from
    }

    pub fn to(&self) -> (r: Location)
        ensures
            r == self.to,
    {
        self.to
    }

    pub fn set_to(&mut self, to: Location)
        ensures
            *final(self) == (MoveEvent { to, ..*old(self) }),
    {
        self.to = to;
    }
}

} // verus!
