//! Player sessions and their authoritative location.
use vstd::prelude::*;

use crate::listener::movement::MoveEvent;
use crate::listener::teleport::TeleportEvent;
use crate::listener::{
    dispatch_move, dispatch_teleport, handed_in_turn_move, handed_in_turn_teleport, left_moves,
    left_teleports, merged_move, merged_teleport, Dispatch, EventHandler,
};
use crate::networking::packets::{Packet, Teleport};

verus! {

/// A point of the plane. Each coordinate is the bit pattern of an IEEE-754
/// single-precision number, as it travels on the wire; `0` is `+0.0`.
#[derive(Debug, Clone, Copy, PartialEq, Eq, Structural, Default)]
pub struct Location {
    pub x: u32,
    pub y: u32,
}

impl Location {
    /// The origin, `(+0.0, +0.0)`.
    pub fn origin() -> (r: Location)
        ensures
            r == (Location { x: 0, y: 0 }),
    {
        Location { x: 0, y: 0 }
    }
}

/// Relies on `uuid::Uuid::new_v4` and `Uuid::as_u128`: a random version-4
/// id, read most significant byte first, so that its version nibble is 4 and
/// its variant bits are `0b10`.
#[verifier::external_body]
fn new_session_id() -> (r: u128)
    ensures
        (r >> 76u128) & 0xfu128 == 4,
        (r >> 62u128) & 3u128 == 2,
{
    uuid::Uuid::new_v4().as_u128()
}

/// The server's state for one connected player: its id, its authoritative
/// location, and the packets queued for its connection, oldest first.
pub struct Player {
    pub id: u128,
    pub location: Location,
    /// The packets queued for the connection and not yet sent, oldest first.
    pub outbox: Vec<Packet>,
}

impl Player {
    /// The packets queued for sending and not yet taken, oldest first.
    pub open spec fn outbound(&self) -> Seq<Packet> {
        self.outbox@
    }

    /// A new player at the origin under a fresh random id.
    pub fn new() -> (r: Player)
        ensures
            r.location == (Location { x: 0, y: 0 }),
            r.outbound() == Seq::<Packet>::empty(),
            (r.id >> 76u128) & 0xfu128 == 4,
            (r.id >> 62u128) & 3u128 == 2,
    {
        Player::with_id(new_session_id())
    }

    /// A new player at the origin under `id`, with nothing queued.
    pub fn with_id(id: u128) -> (r: Player)
        ensures
            r.id == id,
            r.location == (Location { x: 0, y: 0 }),
            r.outbound() == Seq::<Packet>::empty(),
    {
        Player { id, location: Location::origin(), outbox: Vec::new() }
    }

    pub fn get_location(&self) -> (r: Location)
        ensures
            r == self.location,
    {
        self.location
    }

    /// Queues `packet` behind those already queued for this connection.
    pub fn send_packet(&mut self, packet: Packet)
        ensures
            final(self).outbound() == old(self).outbound().push(packet),
            final(self).id == old(self).id,
            final(self).location == old(self).location,
    {
        self.outbox.push(packet);
    }

    /// Takes every queued packet, oldest first, and leaves the queue empty.
    pub fn take_outbound(&mut self) -> (r: Vec<Packet>)
        ensures
            r@ == old(self).outbound(),
            final(self).outbound() == Seq::<Packet>::empty(),
            final(self).id == old(self).id,
            final(self).location == old(self).location,
    {
        let mut taken: Vec<Packet> = Vec::new();
        std::mem::swap(&mut taken, &mut self.outbox);
        taken
    }

    /// The displacement that an inbound packet asks for: a `Move` carries
    /// one; every other packet is acknowledged with no change of state.
    pub fn process_packet(&self, packet: Packet) -> (r: Option<Location>)
        ensures
            r == match packet {
                Packet::Move(m) => Some(Location { x: m.x, y: m.y }),
                _ => None,
            },
    {
        match packet {
            Packet::Move(m) => Some(Location { x: m.x, y: m.y }),
            _ => None,
        }
    }

    /// Commits a dispatched move: unless it was cancelled, the player is now
    /// where the event's target says.
    pub fn apply_move(&mut self, event: &MoveEvent)
        ensures
            final(self).location == (if event.cancelled { old(self).location } else { event.to }),
            final(self).id == old(self).id,
            final(self).outbound() == old(self).outbound(),
    {
        if !event.cancelled {
            self.location = event.to;
        }
    }

    /// Proposes that the player go to `to`: a move event from where it
    /// stands, not cancelled, is handed to every listener in order, then
    /// committed unless it ended cancelled. Returns the event as the
    /// listeners left it, and each listener's turn.
    pub fn walk<H: EventHandler>(&mut self, to: Location, listeners: &Vec<H>) -> (r: Dispatch<MoveEvent>)
        ensures
            ({
                let start = MoveEvent { cancelled: false, player: old(self).id, from: old(self).location, to };
                &&& r.handoffs@.len() == listeners@.len()
                &&& handed_in_turn_move(start, r.handoffs@)
                &&& r.event == merged_move(start, left_moves(r.handoffs@))
            }),
            listeners@.len() == 0 ==> !r.event.cancelled && r.event.to == to,
            final(self).location == (if r.event.cancelled { old(self).location } else { r.event.to }),
            final(self).id == old(self).id,
            final(self).outbound() == old(self).outbound(),
    {
        let mut event = MoveEvent::new(self, to);
        let handoffs = dispatch_move(listeners, &mut event);
        self.apply_move(&event);
        Dispatch { event, handoffs }
    }

    /// Commits a dispatched relocation: unless it was cancelled, the player is
    /// put at the event's target and told so by a `Teleport` packet.
    pub fn apply_teleport(&mut self, event: &TeleportEvent)
        ensures
            final(self).id == old(self).id,
            final(self).location == (if event.cancelled { old(self).location } else { event.to }),
            final(self).outbound() == (if event.cancelled {
                old(self).outbound()
            } else {
                old(self).outbound().push(Packet::Teleport(Teleport { x: event.to.x, y: event.to.y }))
            }),
    {
        if !event.cancelled {
            self.location = event.to;
            self.send_packet(Packet::Teleport(Teleport::from(event.to)));
        }
    }

    /// Proposes to put the player at `location`: a relocation event, not
    /// cancelled, is handed to every listener in order, then committed unless
    /// it ended cancelled. Returns the event as the listeners left it, and
    /// each listener's turn.
    pub fn teleport<H: EventHandler>(&mut self, location: Location, listeners: &Vec<H>) -> (r: Dispatch<TeleportEvent>)
        ensures
            ({
                let start = TeleportEvent { cancelled: false, player: old(self).id, to: location };
                &&& r.handoffs@.len() == listeners@.len()
                &&& handed_in_turn_teleport(start, r.handoffs@)
                &&& r.event == merged_teleport(start, left_teleports(r.handoffs@))
            }),
            listeners@.len() == 0 ==> !r.event.cancelled && r.event.to == location,
            final(self).id == old(self).id,
            final(self).location == (if r.event.cancelled { old(self).location } else { r.event.to }),
            final(self).outbound() == (if r.event.cancelled {
                old(self).outbound()
            } else {
                old(self).outbound().push(Packet::Teleport(Teleport { x: r.event.to.x, y: r.event.to.y }))
            }),
    {
        let mut event = TeleportEvent::new(self, location);
        let handoffs = dispatch_teleport(listeners, &mut event);
        self.apply_teleport(&event);
        Dispatch { event, handoffs }
    }
}

} // verus!
