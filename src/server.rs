//! The registry of connected players and listeners, and the pacing of the
//! fixed-rate tick loop.
use vstd::prelude::*;

use std::collections::HashMap;

use crate::client::{Location, Player};
use crate::listener::movement::MoveEvent;
use crate::listener::teleport::TeleportEvent;
use crate::listener::{
    dispatch_move, dispatch_teleport, handed_in_turn_move, handed_in_turn_teleport, left_moves,
    left_teleports, merged_move, merged_teleport, Dispatch, Dispatched, Event, EventHandler,
};
use crate::networking::packets::{Packet, Teleport};

verus! {

broadcast use vstd::std_specs::hash::group_hash_axioms;

/// Length of one tick in nanoseconds: twenty ticks per second.
pub const TICK_PERIOD_NANOS: u64 = 50_000_000;

/// Owns every player session, keyed by id, and the listeners in the order in
/// which they were registered.
pub struct Server<H> {
    pub clients: HashMap<u128, Player>,
    pub listeners: Vec<H>,
}

impl<H: EventHandler> Server<H> {
    /// A server with no players and no listeners.
    pub fn new() -> (r: Server<H>)
        ensures
            r.clients@ == Map::<u128, Player>::empty(),
            r.listeners@ == Seq::<H>::empty(),
    {
        Server { clients: HashMap::new(), listeners: Vec::new() }
    }

    /// Nothing needs to happen before the first tick.
    pub fn start() {
    }

    /// Registers `client` under its id; a session already under that id is
    /// replaced.
    pub fn add_client(&mut self, client: Player)
        ensures
            final(self).clients@ == old(self).clients@.insert(client.id, client),
            final(self).listeners@ == old(self).listeners@,
    {
        let id = client.id;
        self.clients.insert(id, client);
    }

    /// Appends `listener`; it is called after every listener registered
    /// before it.
    pub fn add_listener(&mut self, listener: H)
        ensures
            final(self).listeners@ == old(self).listeners@.push(listener),
            final(self).clients@ == old(self).clients@,
    {
        self.listeners.push(listener);
    }

    /// Removes the session under `client_id`. Returns whether there was one:
    /// of two calls for one id, at most one removes anything.
    pub fn disconnect_client(&mut self, client_id: &u128) -> (r: bool)
        ensures
            final(self).clients@ == old(self).clients@.remove(*client_id),
            r == old(self).clients@.contains_key(*client_id),
            final(self).listeners@ == old(self).listeners@,
    {
        self.clients.remove(client_id).is_some()
    }

    /// Number of registered sessions.
    pub fn client_count(&self) -> (r: usize)
        ensures
            r == self.clients@.len(),
    {
        self.clients.len()
    }

    /// Hands `event` to every listener in registration order, through
    /// `on_move` for a move and `on_teleport` for a relocation (see
    /// `dispatch_move` and `dispatch_teleport`). Returns the event as the
    /// listeners left it, of the same kind, and each listener's turn.
    pub fn dispatch_event(&self, event: Event) -> (r: Dispatched)
        ensures
            match (event, r) {
                (Event::Move(a), Dispatched::Move(d)) => {
                    &&& d.handoffs@.len() == self.listeners@.len()
                    &&& handed_in_turn_move(a, d.handoffs@)
                    &&& d.event == merged_move(a, left_moves(d.handoffs@))
                },
                (Event::Teleport(a), Dispatched::Teleport(d)) => {
                    &&& d.handoffs@.len() == self.listeners@.len()
                    &&& handed_in_turn_teleport(a, d.handoffs@)
                    &&& d.event == merged_teleport(a, left_teleports(d.handoffs@))
                },
                _ => false,
            },
    {
        match event {
            Event::Move(e) => {
                let mut e = e;
                let handoffs = dispatch_move(&self.listeners, &mut e);
                Dispatched::Move(Dispatch { event: e, handoffs })
            },
            Event::Teleport(e) => {
                let mut e = e;
                let handoffs = dispatch_teleport(&self.listeners, &mut e);
                Dispatched::Teleport(Dispatch { event: e, handoffs })
            },
        }
    }

    /// Lets the player under `id` propose to go to `to` (see `Player::walk`).
    /// Returns `None`, changing nothing, when no such player is registered.
    pub fn walk_client(&mut self, id: &u128, to: Location) -> (r: Option<Dispatch<MoveEvent>>)
        ensures
            final(self).listeners@ == old(self).listeners@,
            final(self).clients@.dom() == old(self).clients@.dom(),
            r is None <==> !old(self).clients@.contains_key(*id),
            r is None ==> final(self).clients@ == old(self).clients@,
            r matches Some(d) ==> {
                let p = old(self).clients@[*id];
                let q = final(self).clients@[*id];
                let start = MoveEvent { cancelled: false, player: p.id, from: p.location, to };
                let e = d.event;
                &&& d.handoffs@.len() == old(self).listeners@.len()
                &&& handed_in_turn_move(start, d.handoffs@)
                &&& e == merged_move(start, left_moves(d.handoffs@))
                &&& (old(self).listeners@.len() == 0 ==> !e.cancelled && e.to == to)
                &&& q.location == (if e.cancelled { p.location } else { e.to })
                &&& q.id == p.id
                &&& q.outbox@ == p.outbox@
                &&& final(self).clients@ == old(self).clients@.insert(*id, q)
            },
    {
        match self.clients.remove(id) {
            None => None,
            Some(mut player) => {
                let event = player.walk(to, &self.listeners);
                self.clients.insert(*id, player);
                Some(event)
            },
        }
    }

    /// Proposes to put the player under `id` at `location` (see
    /// `Player::teleport`). Returns `None`, changing nothing, when no such
    /// player is registered.
    pub fn teleport_client(&mut self, id: &u128, location: Location) -> (r: Option<Dispatch<TeleportEvent>>)
        ensures
            final(self).listeners@ == old(self).listeners@,
            final(self).clients@.dom() == old(self).clients@.dom(),
            r is None <==> !old(self).clients@.contains_key(*id),
            r is None ==> final(self).clients@ == old(self).clients@,
            r matches Some(d) ==> {
                let p = old(self).clients@[*id];
                let q = final(self).clients@[*id];
                let start = TeleportEvent { cancelled: false, player: p.id, to: location };
                let e = d.event;
                &&& d.handoffs@.len() == old(self).listeners@.len()
                &&& handed_in_turn_teleport(start, d.handoffs@)
                &&& e == merged_teleport(start, left_teleports(d.handoffs@))
                &&& (old(self).listeners@.len() == 0 ==> !e.cancelled && e.to == location)
                &&& q.location == (if e.cancelled { p.location } else { e.to })
                &&& q.id == p.id
                &&& q.outbox@ == (if e.cancelled {
                    p.outbox@
                } else {
                    p.outbox@.push(Packet::Teleport(Teleport { x: e.to.x, y: e.to.y }))
                })
                &&& final(self).clients@ == old(self).clients@.insert(*id, q)
            },
    {
        match self.clients.remove(id) {
            None => None,
            Some(mut player) => {
                let event = player.teleport(location, &self.listeners);
                self.clients.insert(*id, player);
                Some(event)
            },
        }
    }

    /// Takes the packets queued for the player under `id`, oldest first;
    /// `None` when no such player is registered.
    pub fn take_outbound(&mut self, id: &u128) -> (r: Option<Vec<Packet>>)
        ensures
            final(self).listeners@ == old(self).listeners@,
            final(self).clients@.dom() == old(self).clients@.dom(),
            r is None <==> !old(self).clients@.contains_key(*id),
            r is None ==> final(self).clients@ == old(self).clients@,
            r matches Some(v) ==> {
                let p = old(self).clients@[*id];
                &&& v@ == p.outbox@
                &&& final(self).clients@ == old(self).clients@.insert(
                    *id,
                    Player { id: p.id, location: p.location, outbox: final(self).clients@[*id].outbox },
                )
                &&& final(self).clients@[*id].outbox@ == Seq::<Packet>::empty()
            },
    {
        match self.clients.remove(id) {
            None => None,
            Some(mut player) => {
                let queued = player.take_outbound();
                self.clients.insert(*id, player);
                Some(queued)
            },
        }
    }

    /// One step of the simulation. No gameplay rule runs here yet, so the
    /// sessions and listeners are left as they are.
    pub fn tick(&mut self)
        ensures
            final(self).clients@ == old(self).clients@,
            final(self).listeners@ == old(self).listeners@,
    {
    }
}

impl<H: EventHandler> Default for Server<H> {
    fn default() -> (r: Server<H>)
        ensures
            r.clients@ == Map::<u128, Player>::empty(),
            r.listeners@ == Seq::<H>::empty(),
    {
        Server::new()
    }
}

/// How long the loop sleeps after a tick whose work took `elapsed`.
pub open spec fn pacing(period: nat, elapsed: nat) -> nat {
    if elapsed < period {
        (period - elapsed) as nat
    } else {
        0
    }
}

/// How long to sleep after a tick whose work took `elapsed` nanoseconds so
/// that ticks start `period` nanoseconds apart; nothing when the work overran.
pub fn tick_delay(period: u64, elapsed: u64) -> (r: u64)
    ensures
        r == pacing(period as nat, elapsed as nat),
{
    if elapsed < period {
        period - elapsed
    } else {
        0
    }
}

/// A tick that began at `start` and whose work took `elapsed` is followed by
/// the next one at `start + period` when the work fitted in the period, and
/// at once when it did not: an overrun delays only the tick after it and is
/// never made up for later.
pub proof fn lemma_tick_pacing(start: nat, period: nat, elapsed: nat)
    ensures
        elapsed < period ==> start + elapsed + pacing(period, elapsed) == start + period,
        elapsed >= period ==> pacing(period, elapsed) == 0,
        start + elapsed + pacing(period, elapsed) == if elapsed < period {
            start + period
        } else {
            start + elapsed
        },
{
}

/// Disconnecting one session twice removes it exactly once: the first
/// removal reports it and takes it out, the second reports nothing and leaves
/// the registry as it is.
pub proof fn lemma_disconnect_idempotent(clients: Map<u128, Player>, id: u128)
    requires
        clients.dom().finite(),
        clients.contains_key(id),
    ensures
        clients.remove(id).len() + 1 == clients.len(),
        !clients.remove(id).contains_key(id),
        clients.remove(id).remove(id) == clients.remove(id),
{
    assert(clients.remove(id).remove(id) =~= clients.remove(id));
}

} // verus!
