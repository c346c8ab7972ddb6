//! Events proposed to listeners before a change of state is committed, and
//! their dispatch in registration order.
use vstd::prelude::*;


pub mod movement;
pub mod teleport;

use self::movement::MoveEvent;
use self::teleport::TeleportEvent;

verus! {

/// A proposal that is handed to every listener before it is committed.
#[derive(Debug, Clone, Copy, PartialEq, Eq, Structural)]
pub enum Event {
    Move(MoveEvent),
    Teleport(TeleportEvent),
}

impl Event {
    pub open spec fn spec_is_cancelled(&self) -> bool {
        match self {
            Event::Move(e) => e.cancelled,
            Event::Teleport(e) => e.cancelled,
        }
    }
}

/// An event that listeners may veto.
pub trait Cancellable: Sized {
    /// Whether the event has been vetoed.
    spec fn cancelled_flag(&self) -> bool;

    /// The same event with its flag set to `cancelled`.
    spec fn with_cancelled(&self, cancelled: bool) -> Self;

    fn set_cancelled(&mut self, cancelled: bool)
        ensures
            *final(self) == old(self).with_cancelled(cancelled),
            final(self).cancelled_flag() == cancelled,
    ;

    fn is_cancelled(&self) -> (r: bool)
        ensures
            r == self.cancelled_flag(),
    ;
}

/// A gameplay rule, called for each proposed change. A listener may change
/// the proposed target and may cancel the event; both methods do nothing
/// unless overridden.
pub trait EventHandler {
    fn on_move(&self, event: &mut MoveEvent) {
    }

    fn on_teleport(&self, event: &mut TeleportEvent) {
    }
}

/// One listener's turn in a dispatch: the event it was handed and the event
/// as it left it.
#[derive(Debug, Clone, Copy)]
pub struct Handoff<E> {
    pub handed: E,
    pub left: E,
}

/// The outcome of a dispatch: the event after every listener ran, and each
/// listener's turn, in registration order.
#[derive(Debug)]
pub struct Dispatch<E> {
    pub event: E,
    pub handoffs: Vec<Handoff<E>>,
}

/// The result of `Server::dispatch_event`, of the same kind as the event.
#[derive(Debug)]
pub enum Dispatched {
    Move(Dispatch<MoveEvent>),
    Teleport(Dispatch<TeleportEvent>),
}

/// What the current event becomes after a listener that was handed it left
/// `seen`: the listener's target counts, the acting player and the starting point stay,
/// and a cancelled event stays cancelled.
pub open spec fn merge_move(cur: MoveEvent, seen: MoveEvent) -> MoveEvent {
    MoveEvent { to: seen.to, cancelled: cur.cancelled || seen.cancelled, ..cur }
}

/// `start` after listeners that left, in turn, the events of `left`.
pub open spec fn merged_move(start: MoveEvent, left: Seq<MoveEvent>) -> MoveEvent
    decreases left.len(),
{
    if left.len() == 0 {
        start
    } else {
        merge_move(merged_move(start, left.drop_last()), left.last())
    }
}

/// The events that the listeners left, in order.
pub open spec fn left_moves(turns: Seq<Handoff<MoveEvent>>) -> Seq<MoveEvent> {
    turns.map_values(|h: Handoff<MoveEvent>| h.left)
}

/// Each listener was handed `start` as merged with what the listeners before
/// it left.
pub open spec fn handed_in_turn_move(start: MoveEvent, turns: Seq<Handoff<MoveEvent>>) -> bool {
    forall|i: int|
        0 <= i < turns.len() ==> (#[trigger] turns[i]).handed == merged_move(
            start,
            left_moves(turns).take(i),
        )
}

/// Folds what one listener left into the current event.
pub fn absorb_move(cur: &mut MoveEvent, seen: &MoveEvent)
    ensures
        *final(cur) == merge_move(*old(cur), *seen),
{
    cur.to = seen.to;
    cur.cancelled = cur.cancelled || seen.cancelled;
}

/// What a merged event keeps: the acting player and starting point it began with,
/// the target of the last listener, and a flag that is set exactly when it
/// was set at the start or some listener set it.
pub proof fn lemma_merged_move(start: MoveEvent, left: Seq<MoveEvent>)
    ensures
        merged_move(start, left).player == start.player,
        merged_move(start, left).from == start.from,
        left.len() == 0 ==> merged_move(start, left) == start,
        left.len() > 0 ==> merged_move(start, left).to == left.last().to,
        merged_move(start, left).cancelled <==> (start.cancelled || exists|i: int|
            0 <= i < left.len() && (#[trigger] left[i]).cancelled),
    decreases left.len(),
{
    if left.len() > 0 {
        let init = left.drop_last();
        lemma_merged_move(start, init);
        if merged_move(start, left).cancelled {
            if !start.cancelled && !left.last().cancelled {
                let i = choose|i: int| 0 <= i < init.len() && (#[trigger] init[i]).cancelled;
                assert(left[i] == init[i]);
            }
        } else {
            assert forall|i: int| 0 <= i < left.len() implies !(#[trigger] left[i]).cancelled by {
                if i < init.len() {
                    assert(left[i] == init[i]);
                }
            }
        }
    }
}

proof fn lemma_turn_move(start: MoveEvent, turns: Seq<Handoff<MoveEvent>>, h: Handoff<MoveEvent>)
    requires
        handed_in_turn_move(start, turns),
        h.handed == merged_move(start, left_moves(turns)),
    ensures
        handed_in_turn_move(start, turns.push(h)),
        left_moves(turns.push(h)) == left_moves(turns).push(h.left),
        merged_move(start, left_moves(turns.push(h))) == merge_move(h.handed, h.left),
{
    let l = left_moves(turns);
    let l2 = left_moves(turns.push(h));
    assert(l2 =~= l.push(h.left));
    assert(l2.drop_last() =~= l);
    assert forall|i: int| 0 <= i < turns.len() + 1 implies (#[trigger] turns.push(h)[i]).handed
        == merged_move(start, l2.take(i)) by {
        if i < turns.len() {
            assert(turns.push(h)[i] == turns[i]);
            assert(l2.take(i) =~= l.take(i));
        } else {
            assert(l2.take(i) =~= l);
        }
    }
}

/// Hands `event` to every listener, in registration order, through their
/// `on_move`. Each listener is handed the event as the ones before it left
/// it; afterwards the event holds the last listener's target, and it is
/// cancelled when it was before or any listener cancelled it. Returns each
/// listener's turn.
pub fn dispatch_move<H: EventHandler>(listeners: &Vec<H>, event: &mut MoveEvent) -> (r: Vec<Handoff<MoveEvent>>)
    ensures
        r@.len() == listeners@.len(),
        handed_in_turn_move(*old(event), r@),
        *final(event) == merged_move(*old(event), left_moves(r@)),
        final(event).player == old(event).player,
        final(event).from == old(event).from,
        final(event).cancelled <==> (old(event).cancelled || exists|i: int|
            0 <= i < r@.len() && (#[trigger] r@[i]).left.cancelled),
        r@.len() > 0 ==> final(event).to == r@.last().left.to,
        listeners@.len() == 0 ==> *final(event) == *old(event),
{
    let ghost start = *event;
    let n = listeners.len();
    let mut turns: Vec<Handoff<MoveEvent>> = Vec::new();
    let mut i: usize = 0;
    while i < n
        invariant
            n == listeners@.len(),
            i <= n,
            turns@.len() == i,
            handed_in_turn_move(start, turns@),
            *event == merged_move(start, left_moves(turns@)),
        decreases n - i,
    {
        let handed = *event;
        let mut seen = *event;
        listeners[i].on_move(&mut seen);
        absorb_move(event, &seen);
        proof {
            lemma_turn_move(start, turns@, Handoff { handed, left: seen });
        }
        turns.push(Handoff { handed, left: seen });
        i = i + 1;
    }
    proof {
        let l = left_moves(turns@);
        lemma_merged_move(start, l);
        if exists|k: int| 0 <= k < l.len() && (#[trigger] l[k]).cancelled {
            let k = choose|k: int| 0 <= k < l.len() && (#[trigger] l[k]).cancelled;
            assert(turns@[k].left.cancelled);
        }
        if exists|k: int| 0 <= k < turns@.len() && (#[trigger] turns@[k]).left.cancelled {
            let k = choose|k: int| 0 <= k < turns@.len() && (#[trigger] turns@[k]).left.cancelled;
            assert(l[k].cancelled);
        }
        if n > 0 {
            assert(l.last() == turns@.last().left);
        }
    }
    turns
}

/// What the current event becomes after a listener that was handed it left
/// `seen`: the listener's target counts, the acting player stays,
/// and a cancelled event stays cancelled.
pub open spec fn merge_teleport(cur: TeleportEvent, seen: TeleportEvent) -> TeleportEvent {
    TeleportEvent { to: seen.to, cancelled: cur.cancelled || seen.cancelled, ..cur }
}

/// `start` after listeners that left, in turn, the events of `left`.
pub open spec fn merged_teleport(start: TeleportEvent, left: Seq<TeleportEvent>) -> TeleportEvent
    decreases left.len(),
{
    if left.len() == 0 {
        start
    } else {
        merge_teleport(merged_teleport(start, left.drop_last()), left.last())
    }
}

/// The events that the listeners left, in order.
pub open spec fn left_teleports(turns: Seq<Handoff<TeleportEvent>>) -> Seq<TeleportEvent> {
    turns.map_values(|h: Handoff<TeleportEvent>| h.left)
}

/// Each listener was handed `start` as merged with what the listeners before
/// it left.
pub open spec fn handed_in_turn_teleport(start: TeleportEvent, turns: Seq<Handoff<TeleportEvent>>) -> bool {
    forall|i: int|
        0 <= i < turns.len() ==> (#[trigger] turns[i]).handed == merged_teleport(
            start,
            left_teleports(turns).take(i),
        )
}

/// Folds what one listener left into the current event.
pub fn absorb_teleport(cur: &mut TeleportEvent, seen: &TeleportEvent)
    ensures
        *final(cur) == merge_teleport(*old(cur), *seen),
{
    cur.to = seen.to;
    cur.cancelled = cur.cancelled || seen.cancelled;
}

/// What a merged event keeps: the acting player it began with,
/// the target of the last listener, and a flag that is set exactly when it
/// was set at the start or some listener set it.
pub proof fn lemma_merged_teleport(start: TeleportEvent, left: Seq<TeleportEvent>)
    ensures
        merged_teleport(start, left).player == start.player,
        left.len() == 0 ==> merged_teleport(start, left) == start,
        left.len() > 0 ==> merged_teleport(start, left).to == left.last().to,
        merged_teleport(start, left).cancelled <==> (start.cancelled || exists|i: int|
            0 <= i < left.len() && (#[trigger] left[i]).cancelled),
    decreases left.len(),
{
    if left.len() > 0 {
        let init = left.drop_last();
        lemma_merged_teleport(start, init);
        if merged_teleport(start, left).cancelled {
            if !start.cancelled && !left.last().cancelled {
                let i = choose|i: int| 0 <= i < init.len() && (#[trigger] init[i]).cancelled;
                assert(left[i] == init[i]);
            }
        } else {
            assert forall|i: int| 0 <= i < left.len() implies !(#[trigger] left[i]).cancelled by {
                if i < init.len() {
                    assert(left[i] == init[i]);
                }
            }
        }
    }
}

proof fn lemma_turn_teleport(start: TeleportEvent, turns: Seq<Handoff<TeleportEvent>>, h: Handoff<TeleportEvent>)
    requires
        handed_in_turn_teleport(start, turns),
        h.handed == merged_teleport(start, left_teleports(turns)),
    ensures
        handed_in_turn_teleport(start, turns.push(h)),
        left_teleports(turns.push(h)) == left_teleports(turns).push(h.left),
        merged_teleport(start, left_teleports(turns.push(h))) == merge_teleport(h.handed, h.left),
{
    let l = left_teleports(turns);
    let l2 = left_teleports(turns.push(h));
    assert(l2 =~= l.push(h.left));
    assert(l2.drop_last() =~= l);
    assert forall|i: int| 0 <= i < turns.len() + 1 implies (#[trigger] turns.push(h)[i]).handed
        == merged_teleport(start, l2.take(i)) by {
        if i < turns.len() {
            assert(turns.push(h)[i] == turns[i]);
            assert(l2.take(i) =~= l.take(i));
        } else {
            assert(l2.take(i) =~= l);
        }
    }
}

/// Hands `event` to every listener, in registration order, through their
/// `on_teleport`. Each listener is handed the event as the ones before it left
/// it; afterwards the event holds the last listener's target, and it is
/// cancelled when it was before or any listener cancelled it. Returns each
/// listener's turn.
pub fn dispatch_teleport<H: EventHandler>(listeners: &Vec<H>, event: &mut TeleportEvent) -> (r: Vec<Handoff<TeleportEvent>>)
    ensures
        r@.len() == listeners@.len(),
        handed_in_turn_teleport(*old(event), r@),
        *final(event) == merged_teleport(*old(event), left_teleports(r@)),
        final(event).player == old(event).player,
        final(event).cancelled <==> (old(event).cancelled || exists|i: int|
            0 <= i < r@.len() && (#[trigger] r@[i]).left.cancelled),
        r@.len() > 0 ==> final(event).to == r@.last().left.to,
        listeners@.len() == 0 ==> *final(event) == *old(event),
{
    let ghost start = *event;
    let n = listeners.len();
    let mut turns: Vec<Handoff<TeleportEvent>> = Vec::new();
    let mut i: usize = 0;
    while i < n
        invariant
            n == listeners@.len(),
            i <= n,
            turns@.len() == i,
            handed_in_turn_teleport(start, turns@),
            *event == merged_teleport(start, left_teleports(turns@)),
        decreases n - i,
    {
        let handed = *event;
        let mut seen = *event;
        listeners[i].on_teleport(&mut seen);
        absorb_teleport(event, &seen);
        proof {
            lemma_turn_teleport(start, turns@, Handoff { handed, left: seen });
        }
        turns.push(Handoff { handed, left: seen });
        i = i + 1;
    }
    proof {
        let l = left_teleports(turns@);
        lemma_merged_teleport(start, l);
        if exists|k: int| 0 <= k < l.len() && (#[trigger] l[k]).cancelled {
            let k = choose|k: int| 0 <= k < l.len() && (#[trigger] l[k]).cancelled;
            assert(turns@[k].left.cancelled);
        }
        if exists|k: int| 0 <= k < turns@.len() && (#[trigger] turns@[k]).left.cancelled {
            let k = choose|k: int| 0 <= k < turns@.len() && (#[trigger] turns@[k]).left.cancelled;
            assert(l[k].cancelled);
        }
        if n > 0 {
            assert(l.last() == turns@.last().left);
        }
    }
    turns
}

} // verus!
