use std::cell::RefCell;

use client_server_rs::client::{Location, Player};
use client_server_rs::listener::movement::MoveEvent;
use client_server_rs::listener::teleport::TeleportEvent;
use client_server_rs::listener::{
    absorb_move, absorb_teleport, dispatch_move, dispatch_teleport, Cancellable, Dispatched, Event,
    EventHandler,
};
use client_server_rs::networking::packets::{KeepAlive, Move, Packet, Teleport};
use client_server_rs::server::{tick_delay, Server, TICK_PERIOD_NANOS};

fn at(x: f32, y: f32) -> Location {
    Location { x: x.to_bits(), y: y.to_bits() }
}

/// Cancels a move longer than `limit`.
struct StepLimit {
    limit: f32,
}

impl EventHandler for StepLimit {
    fn on_move(&self, event: &mut MoveEvent) {
        let from = event.from();
        let to = event.to();
        let dx = f32::from_bits(from.x) - f32::from_bits(to.x);
        let dy = f32::from_bits(from.y) - f32::from_bits(to.y);
        if (dx * dx + dy * dy).sqrt() > self.limit {
            event.set_cancelled(true);
        }
    }
}

struct NoRules;

impl EventHandler for NoRules {}

#[test]
fn long_step_is_cancelled_and_player_stays() {
    let listeners = vec![StepLimit { limit: 10.0 }];
    let mut player = Player::with_id(1);
    let event = player.walk(at(20.0, 0.0), &listeners).event;
    assert!(event.is_cancelled());
    assert_eq!(event.from(), at(0.0, 0.0));
    assert_eq!(player.get_location(), at(0.0, 0.0));
}

#[test]
fn short_step_is_committed() {
    let listeners = vec![StepLimit { limit: 10.0 }];
    let mut player = Player::with_id(1);
    let event = player.walk(at(5.0, 0.0), &listeners).event;
    assert!(!event.is_cancelled());
    assert_eq!(event.to(), at(5.0, 0.0));
    assert_eq!(player.get_location(), at(5.0, 0.0));
    assert_eq!(event.player(), 1);
}

/// Records the order of calls and moves the target one unit along x.
struct Nudge<'a> {
    name: &'static str,
    log: &'a RefCell<Vec<(&'static str, f32)>>,
}

impl EventHandler for Nudge<'_> {
    fn on_move(&self, event: &mut MoveEvent) {
        let to = event.to();
        let x = f32::from_bits(to.x);
        self.log.borrow_mut().push((self.name, x));
        event.set_to(Location { x: (x + 1.0).to_bits(), y: to.y });
    }
}

#[test]
fn listeners_run_in_order_and_see_earlier_changes() {
    let log = RefCell::new(Vec::new());
    let listeners = vec![Nudge { name: "first", log: &log }, Nudge { name: "second", log: &log }];
    let mut event = MoveEvent {
        cancelled: false,
        player: 9,
        from: at(0.0, 0.0),
        to: at(3.0, 0.0),
    };
    let turns = dispatch_move(&listeners, &mut event);
    assert_eq!(*log.borrow(), vec![("first", 3.0), ("second", 4.0)]);
    assert_eq!(turns.len(), 2);
    assert_eq!(turns[0].handed.to(), at(3.0, 0.0));
    assert_eq!(turns[0].left.to(), at(4.0, 0.0));
    assert_eq!(turns[1].handed.to(), at(4.0, 0.0));
    assert_eq!(turns[1].left.to(), at(5.0, 0.0));
    assert_eq!(event.to(), at(5.0, 0.0));
    assert!(!event.is_cancelled());
}

/// Tries to clear the flag that an earlier listener set.
struct Uncancel;

impl EventHandler for Uncancel {
    fn on_move(&self, event: &mut MoveEvent) {
        event.set_cancelled(false);
    }
}

struct CancelAll;

impl EventHandler for CancelAll {
    fn on_move(&self, event: &mut MoveEvent) {
        event.set_cancelled(true);
    }

    fn on_teleport(&self, event: &mut TeleportEvent) {
        event.set_cancelled(true);
    }
}

enum Rule {
    Cancel(CancelAll),
    Clear(Uncancel),
}

impl EventHandler for Rule {
    fn on_move(&self, event: &mut MoveEvent) {
        match self {
            Rule::Cancel(r) => r.on_move(event),
            Rule::Clear(r) => r.on_move(event),
        }
    }
}

#[test]
fn cancellation_cannot_be_undone() {
    let listeners = vec![Rule::Cancel(CancelAll), Rule::Clear(Uncancel)];
    let mut player = Player::with_id(4);
    let d = player.walk(at(1.0, 1.0), &listeners);
    let event = d.event;
    assert!(d.handoffs[0].left.is_cancelled());
    assert!(!d.handoffs[1].left.is_cancelled());
    assert!(d.handoffs[1].handed.is_cancelled());
    assert!(event.is_cancelled());
    assert_eq!(player.get_location(), at(0.0, 0.0));
}

#[test]
fn set_cancelled_changes_only_the_flag() {
    let mut e = MoveEvent { cancelled: false, player: 2, from: at(1.0, 2.0), to: at(3.0, 4.0) };
    e.set_cancelled(true);
    assert_eq!(e, MoveEvent { cancelled: true, player: 2, from: at(1.0, 2.0), to: at(3.0, 4.0) });
    let mut t = TeleportEvent { cancelled: true, player: 2, to: at(3.0, 4.0) };
    t.set_cancelled(false);
    assert!(!t.is_cancelled());
}

#[test]
fn teleport_commits_and_queues_packet() {
    let listeners: Vec<NoRules> = Vec::new();
    let mut player = Player::with_id(3);
    let event = player.teleport(at(7.0, -1.0), &listeners).event;
    assert!(!event.is_cancelled());
    assert_eq!(player.get_location(), at(7.0, -1.0));
    assert_eq!(
        player.take_outbound(),
        vec![Packet::Teleport(Teleport { x: 7.0f32.to_bits(), y: (-1.0f32).to_bits() })]
    );
    assert!(player.take_outbound().is_empty());
}

#[test]
fn cancelled_teleport_changes_nothing() {
    let listeners = vec![CancelAll];
    let mut player = Player::with_id(3);
    let event = player.teleport(at(7.0, -1.0), &listeners).event;
    assert!(event.is_cancelled());
    assert_eq!(player.get_location(), at(0.0, 0.0));
    assert!(player.take_outbound().is_empty());
}

#[test]
fn outbound_queue_keeps_order() {
    let mut player = Player::with_id(5);
    let a = Packet::KeepAlive(KeepAlive {});
    let b = Packet::Move(Move { x: 1, y: 2 });
    let c = Packet::Teleport(Teleport { x: 3, y: 4 });
    player.send_packet(a);
    player.send_packet(b);
    player.send_packet(c);
    assert_eq!(player.take_outbound(), vec![a, b, c]);
}

#[test]
fn inbound_move_asks_for_its_displacement() {
    let player = Player::with_id(5);
    assert_eq!(player.process_packet(Packet::Move(Move { x: 11, y: 12 })), Some(Location { x: 11, y: 12 }));
    assert_eq!(player.process_packet(Packet::KeepAlive(KeepAlive {})), None);
    assert_eq!(player.process_packet(Packet::Teleport(Teleport { x: 1, y: 1 })), None);
}

#[test]
fn fresh_players_get_random_version_four_ids() {
    let a = Player::new();
    let b = Player::new();
    assert_eq!((a.id >> 76) & 0xf, 4);
    assert_eq!((a.id >> 62) & 0x3, 2);
    assert_ne!(a.id, b.id);
    assert_eq!(a.get_location(), Location::origin());
}

#[test]
fn registry_adds_and_removes_once() {
    let mut server: Server<NoRules> = Server::new();
    server.add_client(Player::with_id(1));
    server.add_client(Player::with_id(2));
    assert_eq!(server.client_count(), 2);
    assert!(server.disconnect_client(&1));
    assert!(!server.disconnect_client(&1));
    assert_eq!(server.client_count(), 1);
    server.add_client(Player::with_id(2));
    assert_eq!(server.client_count(), 1);
}

#[test]
fn server_routes_moves_through_its_listeners() {
    let mut server: Server<StepLimit> = Server::default();
    server.add_listener(StepLimit { limit: 10.0 });
    server.add_client(Player::with_id(8));
    let far = server.walk_client(&8, at(20.0, 0.0)).unwrap().event;
    assert!(far.is_cancelled());
    let near = server.walk_client(&8, at(5.0, 0.0)).unwrap().event;
    assert!(!near.is_cancelled());
    assert_eq!(server.clients[&8].get_location(), at(5.0, 0.0));
    assert!(server.walk_client(&9, at(1.0, 0.0)).is_none());
    server.tick();
    assert_eq!(server.client_count(), 1);
}

#[test]
fn server_teleports_and_hands_out_packets() {
    let mut server: Server<NoRules> = Server::new();
    Server::<NoRules>::start();
    server.add_client(Player::with_id(8));
    let e = server.teleport_client(&8, at(2.0, 2.0)).unwrap().event;
    assert!(!e.is_cancelled());
    assert_eq!(
        server.take_outbound(&8),
        Some(vec![Packet::Teleport(Teleport { x: 2.0f32.to_bits(), y: 2.0f32.to_bits() })])
    );
    assert_eq!(server.take_outbound(&8), Some(vec![]));
    assert_eq!(server.take_outbound(&1), None);
    assert!(server.teleport_client(&1, at(0.0, 0.0)).is_none());
}

#[test]
fn dispatch_event_keeps_kind_and_flag() {
    let mut server: Server<StepLimit> = Server::new();
    server.add_listener(StepLimit { limit: 10.0 });
    let e = MoveEvent { cancelled: false, player: 1, from: at(0.0, 0.0), to: at(20.0, 0.0) };
    match server.dispatch_event(Event::Move(e)) {
        Dispatched::Move(d) => {
            assert!(d.event.is_cancelled());
            assert_eq!(d.handoffs.len(), 1);
            assert_eq!(d.handoffs[0].handed, e);
        }
        Dispatched::Teleport(_) => panic!("kind changed"),
    }
    let t = TeleportEvent { cancelled: false, player: 1, to: at(50.0, 0.0) };
    match server.dispatch_event(Event::Teleport(t)) {
        Dispatched::Teleport(d) => {
            assert_eq!(d.event, t);
            assert_eq!(d.handoffs.len(), 1);
            assert_eq!(d.handoffs[0].left, t);
        }
        Dispatched::Move(_) => panic!("kind changed"),
    }
}

#[test]
fn a_later_listener_cannot_clear_a_teleport_cancel() {
    let mut event = TeleportEvent { cancelled: false, player: 1, to: at(1.0, 1.0) };
    let listeners = vec![CancelAll, CancelAll];
    let turns = dispatch_teleport(&listeners, &mut event);
    assert!(event.is_cancelled());
    assert_eq!(turns.len(), 2);
    let mut cur = MoveEvent { cancelled: true, player: 1, from: at(0.0, 0.0), to: at(1.0, 0.0) };
    let seen = MoveEvent { cancelled: false, player: 7, from: at(9.0, 9.0), to: at(2.0, 0.0) };
    absorb_move(&mut cur, &seen);
    assert_eq!(cur, MoveEvent { cancelled: true, player: 1, from: at(0.0, 0.0), to: at(2.0, 0.0) });
    let mut tcur = TeleportEvent { cancelled: false, player: 1, to: at(1.0, 0.0) };
    absorb_teleport(&mut tcur, &TeleportEvent { cancelled: true, player: 3, to: at(4.0, 0.0) });
    assert_eq!(tcur, TeleportEvent { cancelled: true, player: 1, to: at(4.0, 0.0) });
}

#[test]
fn tick_sleeps_the_rest_of_the_period() {
    assert_eq!(TICK_PERIOD_NANOS, 50_000_000);
    assert_eq!(tick_delay(TICK_PERIOD_NANOS, 20_000_000), 30_000_000);
    assert_eq!(tick_delay(TICK_PERIOD_NANOS, 0), 50_000_000);
    assert_eq!(tick_delay(TICK_PERIOD_NANOS, 50_000_000), 0);
    assert_eq!(tick_delay(TICK_PERIOD_NANOS, 80_000_000), 0);
}
