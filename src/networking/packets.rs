//! The packets of the protocol and the framing `tag || payload`.
use vstd::prelude::*;

use crate::client::Location;
use crate::networking::{
    le_bytes, le_value, lemma_le_bytes_injective, read_u32_le, FrameError, PacketId, Readable, Writeable,
};

verus! {

/// Tells the peer the connection is alive; carries nothing.
#[derive(Debug, Clone, Copy, PartialEq, Eq, Structural)]
pub struct KeepAlive {}

/// A step of the player, as a displacement from its current location.
#[derive(Debug, Clone, Copy, PartialEq, Eq, Structural)]
pub struct Move {
    pub x: u32,
    pub y: u32,
}

/// A relocation of the player decided by the server.
#[derive(Debug, Clone, Copy, PartialEq, Eq, Structural)]
pub struct Teleport {
    pub x: u32,
    pub y: u32,
}

/// Every packet of the protocol.
#[derive(Debug, Clone, Copy, PartialEq, Eq, Structural)]
pub enum Packet {
    KeepAlive(KeepAlive),
    Move(Move),
    Teleport(Teleport),
}

pub const KEEP_ALIVE_ID: u8 = 0x00;
pub const MOVE_ID: u8 = 0x01;
pub const TELEPORT_ID: u8 = 0x02;

/// Number of payload bytes that follow a known tag; `None` for an unknown tag.
pub open spec fn payload_len(tag: u8) -> Option<nat> {
    if tag == KEEP_ALIVE_ID {
        Some(0)
    } else if tag == MOVE_ID || tag == TELEPORT_ID {
        Some(8)
    } else {
        None
    }
}

/// The packet that a frame with `tag` and a complete payload `p` stands for.
pub open spec fn packet_of(tag: u8, p: Seq<u8>) -> Packet {
    if tag == KEEP_ALIVE_ID {
        Packet::KeepAlive(KeepAlive {  })
    } else if tag == MOVE_ID {
        Packet::Move(Move { x: le_value(p[0], p[1], p[2], p[3]), y: le_value(p[4], p[5], p[6], p[7]) })
    } else {
        Packet::Teleport(Teleport { x: le_value(p[0], p[1], p[2], p[3]), y: le_value(p[4], p[5], p[6], p[7]) })
    }
}

/// What decoding the front of `s` yields: the packet and the length of its
/// frame, or why there is none.
pub open spec fn parse(s: Seq<u8>) -> Result<(Packet, nat), FrameError> {
    if s.len() == 0 {
        Err(FrameError::IncompleteFrame)
    } else {
        match payload_len(s[0]) {
            None => Err(FrameError::UnknownPacketId(s[0])),
            Some(n) => if s.len() < 1 + n {
                Err(FrameError::IncompleteFrame)
            } else {
                Ok((packet_of(s[0], s.subrange(1, 1 + n as int)), 1 + n))
            },
        }
    }
}

impl Writeable for KeepAlive {
    open spec fn wire(&self) -> Seq<u8> {
        Seq::empty()
    }

    fn write(&self, out: &mut Vec<u8>) {
        assert(old(out)@ + Seq::<u8>::empty() =~= old(out)@);
    }
}

impl Writeable for Move {
    open spec fn wire(&self) -> Seq<u8> {
        le_bytes(self.x) + le_bytes(self.y)
    }

    fn write(&self, out: &mut Vec<u8>) {
        self.x.write(out);
        self.y.write(out);
        assert(out@ =~= old(out)@ + self.wire());
    }
}

impl Writeable for Teleport {
    open spec fn wire(&self) -> Seq<u8> {
        le_bytes(self.x) + le_bytes(self.y)
    }

    fn write(&self, out: &mut Vec<u8>) {
        self.x.write(out);
        self.y.write(out);
        assert(out@ =~= old(out)@ + self.wire());
    }
}

impl Packet {
    /// The tag written in front of this packet.
    pub open spec fn spec_id(&self) -> u8 {
        match self {
            Packet::KeepAlive(_) => KEEP_ALIVE_ID,
            Packet::Move(_) => MOVE_ID,
            Packet::Teleport(_) => TELEPORT_ID,
        }
    }

    /// The bytes after the tag.
    pub open spec fn payload(&self) -> Seq<u8> {
        match self {
            Packet::KeepAlive(p) => p.wire(),
            Packet::Move(p) => p.wire(),
            Packet::Teleport(p) => p.wire(),
        }
    }

    /// Returns the packet ID of this packet.
    #[verifier::when_used_as_spec(spec_id)]
    pub fn id(&self) -> (r: u8)
        ensures
            r == self.spec_id(),
    {
        match self {
            Packet::KeepAlive(_) => KEEP_ALIVE_ID,
            Packet::Move(_) => MOVE_ID,
            Packet::Teleport(_) => TELEPORT_ID,
        }
    }

    /// Reads the frame that starts at `pos`: its packet and the position just
    /// past it, or why no frame could be read.
    pub fn decode(buf: &[u8], pos: usize) -> (r: Result<(Packet, usize), FrameError>)
        requires
            pos <= buf@.len(),
        ensures
            match (r, parse(buf@.subrange(pos as int, buf@.len() as int))) {
                (Ok((p, end)), Ok((q, n))) => p == q && end == pos + n,
                (Err(e), Err(f)) => e == f,
                _ => false,
            },
    {
        if pos >= buf.len() {
            return Err(FrameError::IncompleteFrame);
        }
        let tag = buf[pos];
        let at = pos + 1;
        if tag == KEEP_ALIVE_ID {
            Ok((Packet::KeepAlive(KeepAlive {  }), at))
        } else if tag == MOVE_ID || tag == TELEPORT_ID {
            if buf.len() - at < 8 {
                return Err(FrameError::IncompleteFrame);
            }
            let x = read_u32_le(buf, at);
            let y = read_u32_le(buf, at + 4);
            let ghost s = buf@.subrange(pos as int, buf@.len() as int);
            assert(s.subrange(1, 9) =~= buf@.subrange(at as int, at + 8));
            if tag == MOVE_ID {
                Ok((Packet::Move(Move { x, y }), at + 8))
            } else {
                Ok((Packet::Teleport(Teleport { x, y }), at + 8))
            }
        } else {
            Err(FrameError::UnknownPacketId(tag))
        }
    }

    /// The complete frame of this packet.
    pub fn encode(&self) -> (r: Vec<u8>)
        ensures
            r@ == self.wire(),
    {
        let mut out: Vec<u8> = Vec::new();
        self.write(&mut out);
        assert(out@ =~= self.wire());
        out
    }
}

proof fn lemma_le_value_of_bytes(v: u32, b: Seq<u8>)
    requires
        b == le_bytes(v),
    ensures
        le_value(b[0], b[1], b[2], b[3]) == v,
{
    crate::networking::lemma_le_bytes_of_value(b[0], b[1], b[2], b[3]);
    assert(le_bytes(le_value(b[0], b[1], b[2], b[3])) =~= b);
    lemma_le_bytes_injective(le_value(b[0], b[1], b[2], b[3]), v);
}

impl Writeable for Packet {
    open spec fn wire(&self) -> Seq<u8> {
        seq![self.spec_id()] + self.payload()
    }

    fn write(&self, out: &mut Vec<u8>) {
        PacketId(self.id()).write(out);
        match self {
            Packet::KeepAlive(p) => p.write(out),
            Packet::Move(p) => p.write(out),
            Packet::Teleport(p) => p.write(out),
        }
        assert(out@ =~= old(out)@ + self.wire());
    }
}

impl Readable for Packet {
    open spec fn parse_from(s: Seq<u8>) -> Result<(Packet, nat), FrameError> {
        parse(s)
    }

    fn read(buf: &[u8], pos: usize) -> (r: Result<(Packet, usize), FrameError>) {
        let r = Packet::decode(buf, pos);
        if let Ok((p, end)) = r {
            proof {
                lemma_parse_frame(buf@.subrange(pos as int, buf@.len() as int));
                assert(buf@.subrange(pos as int, end as int) =~= buf@.subrange(pos as int, buf@.len() as int).subrange(0, end - pos));
            }
        }
        r
    }
}

/// A frame that parses is exactly the encoding of the packet it yields.
proof fn lemma_parse_frame(s: Seq<u8>)
    ensures
        parse(s) matches Ok((p, n)) ==> n <= s.len() && s.subrange(0, n as int) == p.wire(),
{
    if let Ok((p, n)) = parse(s) {
        let q = s.subrange(1, n as int);
        if s[0] != KEEP_ALIVE_ID {
            crate::networking::lemma_le_bytes_of_value(q[0], q[1], q[2], q[3]);
            crate::networking::lemma_le_bytes_of_value(q[4], q[5], q[6], q[7]);
            assert(p.payload() =~= q);
        } else {
            assert(p.payload() =~= q);
        }
        assert(s.subrange(0, n as int) =~= p.wire());
    }
}

/// The eight payload bytes of a frame that starts with the coordinates `x`
/// and `y` read back as those coordinates.
proof fn lemma_coordinates_round_trip(x: u32, y: u32, q: Seq<u8>)
    requires
        q.len() == 8,
        q == le_bytes(x) + le_bytes(y),
    ensures
        le_value(q[0], q[1], q[2], q[3]) == x,
        le_value(q[4], q[5], q[6], q[7]) == y,
{
    assert(q.subrange(0, 4) =~= le_bytes(x));
    assert(q.subrange(4, 8) =~= le_bytes(y));
    lemma_le_value_of_bytes(x, q.subrange(0, 4));
    lemma_le_value_of_bytes(y, q.subrange(4, 8));
    assert(q[4] == q.subrange(4, 8)[0]);
    assert(q[5] == q.subrange(4, 8)[1]);
    assert(q[6] == q.subrange(4, 8)[2]);
    assert(q[7] == q.subrange(4, 8)[3]);
}

/// Decoding the encoding of any packet, whatever follows it, gives the packet
/// back and consumes exactly its frame.
pub proof fn lemma_round_trip(p: Packet, rest: Seq<u8>)
    ensures
        parse(p.wire() + rest) == Ok::<(Packet, nat), FrameError>((p, p.wire().len())),
{
    let s = p.wire() + rest;
    assert(s[0] == p.spec_id());
    match p {
        Packet::KeepAlive(_) => {},
        Packet::Move(m) => {
            assert(s.subrange(1, 9) =~= m.wire());
            lemma_coordinates_round_trip(m.x, m.y, s.subrange(1, 9));
        },
        Packet::Teleport(m) => {
            assert(s.subrange(1, 9) =~= m.wire());
            lemma_coordinates_round_trip(m.x, m.y, s.subrange(1, 9));
        },
    }
}

/// A frame whose tag names no packet is refused with that tag, whatever
/// follows it.
pub proof fn lemma_unknown_tag(s: Seq<u8>)
    requires
        s.len() > 0,
        s[0] > TELEPORT_ID,
    ensures
        parse(s) == Err::<(Packet, nat), FrameError>(FrameError::UnknownPacketId(s[0])),
{
}

/// The bytes that carry `s` on one connection: each frame in turn.
pub open spec fn frames(s: Seq<Packet>) -> Seq<u8>
    decreases s.len(),
{
    if s.len() == 0 {
        Seq::empty()
    } else {
        s[0].wire() + frames(s.skip(1))
    }
}

/// The packets read from `b`, one frame after another, up to the first point
/// where no frame can be read.
pub open spec fn parse_all(b: Seq<u8>) -> Seq<Packet>
    decreases b.len(),
{
    if b.len() == 0 {
        Seq::empty()
    } else {
        match parse(b) {
            Ok((p, n)) => if 0 < n <= b.len() {
                seq![p] + parse_all(b.skip(n as int))
            } else {
                Seq::empty()
            },
            Err(_) => Seq::empty(),
        }
    }
}

proof fn lemma_frames_push(s: Seq<Packet>, p: Packet)
    ensures
        frames(s.push(p)) == frames(s) + p.wire(),
    decreases s.len(),
{
    if s.len() == 0 {
        assert(s.push(p).skip(1) =~= Seq::<Packet>::empty());
        assert(s.push(p)[0] == p);
        assert(frames(s.push(p)) == p.wire() + frames(Seq::<Packet>::empty()));
        assert(frames(s.push(p)) =~= frames(s) + p.wire());
    } else {
        assert(s.push(p).skip(1) =~= s.skip(1).push(p));
        lemma_frames_push(s.skip(1), p);
        assert(s.push(p)[0] == s[0]);
        assert(frames(s.push(p)) == s[0].wire() + frames(s.skip(1).push(p)));
        assert(frames(s) == s[0].wire() + frames(s.skip(1)));
        assert(frames(s.push(p)) =~= frames(s) + p.wire());
    }
}

/// Whatever is queued on one connection is read back by its peer in the order
/// in which it was queued.
pub proof fn lemma_outbound_order(queue: Seq<Packet>)
    ensures
        parse_all(frames(queue)) == queue,
    decreases queue.len(),
{
    if queue.len() == 0 {
    } else {
        let rest = frames(queue.skip(1));
        lemma_round_trip(queue[0], rest);
        let b = frames(queue);
        let n = queue[0].wire().len();
        assert(b.skip(n as int) =~= rest);
        lemma_outbound_order(queue.skip(1));
        assert(parse_all(b) =~= queue);
    }
}

/// The bytes that send `packets` in order.
pub fn encode_frames(packets: &Vec<Packet>) -> (r: Vec<u8>)
    ensures
        r@ == frames(packets@),
{
    let mut out: Vec<u8> = Vec::new();
    let n = packets.len();
    let mut i: usize = 0;
    while i < n
        invariant
            n == packets@.len(),
            i <= n,
            out@ == frames(packets@.take(i as int)),
        decreases n - i,
    {
        proof {
            lemma_frames_push(packets@.take(i as int), packets@[i as int]);
            assert(packets@.take(i as int).push(packets@[i as int]) =~= packets@.take(i + 1));
        }
        packets[i].write(&mut out);
        i = i + 1;
    }
    assert(packets@.take(n as int) =~= packets@);
    out
}

impl From<Location> for Move {
    fn from(loc: Location) -> (r: Move)
        ensures
            r == (Move { x: loc.x, y: loc.y }),
    {
        Move { x: loc.x, y: loc.y }
    }
}

impl vstd::std_specs::convert::FromSpecImpl<Location> for Move {
    open spec fn obeys_from_spec() -> bool {
        true
    }

    open spec fn from_spec(loc: Location) -> Move {
        Move { x: loc.x, y: loc.y }
    }
}

impl From<Location> for Teleport {
    fn from(loc: Location) -> (r: Teleport)
        ensures
            r == (Teleport { x: loc.x, y: loc.y }),
    {
        Teleport { x: loc.x, y: loc.y }
    }
}

impl vstd::std_specs::convert::FromSpecImpl<Location> for Teleport {
    open spec fn obeys_from_spec() -> bool {
        true
    }

    open spec fn from_spec(loc: Location) -> Teleport {
        Teleport { x: loc.x, y: loc.y }
    }
}

} // verus!
