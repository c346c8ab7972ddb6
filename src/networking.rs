//! The wire codec: fixed-size little-endian scalars, the packet id byte, and
//! the errors a decoder reports.
use vstd::prelude::*;

pub mod packets;

verus! {

/// Why a frame could not be decoded.
#[derive(Debug, Clone, Copy, PartialEq, Eq, Structural)]
pub enum FrameError {
    /// The input ends before the frame does; more bytes are needed.
    IncompleteFrame,
    /// The leading byte names no packet; the rest of the stream cannot be
    /// framed again.
    UnknownPacketId(u8),
}

impl FrameError {
    /// Whether the error leaves the stream unusable.
    pub fn is_fatal(&self) -> (r: bool)
        ensures
            r == (*self != FrameError::IncompleteFrame),
    {
        match self {
            FrameError::IncompleteFrame => false,
            FrameError::UnknownPacketId(_) => true,
        }
    }
}

/// The one-byte tag in front of every frame.
#[derive(Debug, Clone, Copy, PartialEq, Eq, Structural)]
pub struct PacketId(pub u8);

/// A value with a fixed, exact encoding on the wire.
pub trait Writeable {
    /// The bytes that encode this value.
    spec fn wire(&self) -> Seq<u8>;

    /// Appends the encoding of this value to `out`.
    fn write(&self, out: &mut Vec<u8>)
        ensures
            final(out)@ == old(out)@ + self.wire(),
    ;
}

/// A value that can be read back from its encoding.
pub trait Readable: Sized + Writeable {
    /// What reading the front of `s` yields: the value and the number of
    /// bytes it takes, or why there is none.
    spec fn parse_from(s: Seq<u8>) -> Result<(Self, nat), FrameError>;

    /// Reads one value starting at `pos`; on success returns it with the
    /// position just past its encoding.
    fn read(buf: &[u8], pos: usize) -> (r: Result<(Self, usize), FrameError>)
        requires
            pos <= buf@.len(),
        ensures
            match (r, Self::parse_from(buf@.subrange(pos as int, buf@.len() as int))) {
                (Ok((v, end)), Ok((w, n))) => v == w && end == pos + n,
                (Err(e), Err(f)) => e == f,
                _ => false,
            },
            r matches Ok((v, end)) ==> pos <= end <= buf@.len() && buf@.subrange(
                pos as int,
                end as int,
            ) == v.wire(),
    ;
}

/// Four bytes, least significant first.
pub open spec fn le_bytes(v: u32) -> Seq<u8> {
    seq![
        (v & 0xff) as u8,
        ((v >> 8u32) & 0xff) as u8,
        ((v >> 16u32) & 0xff) as u8,
        ((v >> 24u32) & 0xff) as u8,
    ]
}

/// The number whose little-endian bytes are `b0, b1, b2, b3`.
pub open spec fn le_value(b0: u8, b1: u8, b2: u8, b3: u8) -> u32 {
    (b0 as u32) | ((b1 as u32) << 8u32) | ((b2 as u32) << 16u32) | ((b3 as u32) << 24u32)
}

proof fn lemma_le_round_trip(v: u32)
    ensures
        le_value(
            (v & 0xff) as u8,
            ((v >> 8u32) & 0xff) as u8,
            ((v >> 16u32) & 0xff) as u8,
            ((v >> 24u32) & 0xff) as u8,
        ) == v,
{
    assert(((v & 0xff) as u8 as u32) | ((((v >> 8u32) & 0xff) as u8 as u32) << 8u32) | ((((v
        >> 16u32) & 0xff) as u8 as u32) << 16u32) | ((((v >> 24u32) & 0xff) as u8 as u32)
        << 24u32) == v) by (bit_vector);
}

pub proof fn lemma_le_bytes_of_value(b0: u8, b1: u8, b2: u8, b3: u8)
    ensures
        le_bytes(le_value(b0, b1, b2, b3)) == seq![b0, b1, b2, b3],
{
    let v = le_value(b0, b1, b2, b3);
    assert((((b0 as u32) | ((b1 as u32) << 8u32) | ((b2 as u32) << 16u32) | ((b3 as u32)
        << 24u32)) & 0xff) as u8 == b0) by (bit_vector);
    assert(((((b0 as u32) | ((b1 as u32) << 8u32) | ((b2 as u32) << 16u32) | ((b3 as u32)
        << 24u32)) >> 8u32) & 0xff) as u8 == b1) by (bit_vector);
    assert(((((b0 as u32) | ((b1 as u32) << 8u32) | ((b2 as u32) << 16u32) | ((b3 as u32)
        << 24u32)) >> 16u32) & 0xff) as u8 == b2) by (bit_vector);
    assert(((((b0 as u32) | ((b1 as u32) << 8u32) | ((b2 as u32) << 16u32) | ((b3 as u32)
        << 24u32)) >> 24u32) & 0xff) as u8 == b3) by (bit_vector);
    assert(le_bytes(v) =~= seq![b0, b1, b2, b3]);
}

/// Two values with the same four-byte encoding are equal.
pub proof fn lemma_le_bytes_injective(a: u32, b: u32)
    requires
        le_bytes(a) == le_bytes(b),
    ensures
        a == b,
{
    lemma_le_round_trip(a);
    lemma_le_round_trip(b);
    assert(le_bytes(a)[0] == le_bytes(b)[0]);
    assert(le_bytes(a)[1] == le_bytes(b)[1]);
    assert(le_bytes(a)[2] == le_bytes(b)[2]);
    assert(le_bytes(a)[3] == le_bytes(b)[3]);
}

impl Writeable for PacketId {
    open spec fn wire(&self) -> Seq<u8> {
        seq![self.0]
    }

    fn write(&self, out: &mut Vec<u8>) {
        out.push(self.0);
        assert(out@ =~= old(out)@ + seq![self.0]);
        assert(out@ == old(out)@ + self.wire());
    }
}

impl Readable for PacketId {
    open spec fn parse_from(s: Seq<u8>) -> Result<(PacketId, nat), FrameError> {
        if s.len() == 0 {
            Err(FrameError::IncompleteFrame)
        } else {
            Ok((PacketId(s[0]), 1))
        }
    }

    fn read(buf: &[u8], pos: usize) -> (r: Result<(PacketId, usize), FrameError>) {
        if pos < buf.len() {
            let r = (PacketId(buf[pos]), pos + 1);
            assert(buf@.subrange(pos as int, pos + 1) =~= seq![buf@[pos as int]]);
            Ok(r)
        } else {
            Err(FrameError::IncompleteFrame)
        }
    }
}

/// Scalars are 32-bit words, most often the bit pattern of a single-precision
/// float, written least significant byte first.
impl Writeable for u32 {
    open spec fn wire(&self) -> Seq<u8> {
        le_bytes(*self)
    }

    fn write(&self, out: &mut Vec<u8>) {
        let v = *self;
        proof {
            assert(v & 0xff <= 0xff && (v >> 8u32) & 0xff <= 0xff && (v >> 16u32) & 0xff <= 0xff
                && (v >> 24u32) & 0xff <= 0xff) by (bit_vector);
        }
        out.push((v & 0xff) as u8);
        out.push(((v >> 8u32) & 0xff) as u8);
        out.push(((v >> 16u32) & 0xff) as u8);
        out.push(((v >> 24u32) & 0xff) as u8);
        assert(out@ =~= old(out)@ + le_bytes(v));
        assert(out@ == old(out)@ + self.wire());
    }
}

impl Readable for u32 {
    open spec fn parse_from(s: Seq<u8>) -> Result<(u32, nat), FrameError> {
        if s.len() < 4 {
            Err(FrameError::IncompleteFrame)
        } else {
            Ok((le_value(s[0], s[1], s[2], s[3]), 4))
        }
    }

    fn read(buf: &[u8], pos: usize) -> (r: Result<(u32, usize), FrameError>) {
        if buf.len() - pos < 4 {
            Err(FrameError::IncompleteFrame)
        } else {
            let v = read_u32_le(buf, pos);
            assert(buf@.subrange(pos as int, buf@.len() as int).subrange(0, 4) =~= buf@.subrange(pos as int, pos + 4));
            Ok((v, pos + 4))
        }
    }
}

/// The 32-bit word whose little-endian bytes start at `pos`.
pub fn read_u32_le(buf: &[u8], pos: usize) -> (r: u32)
    requires
        pos + 4 <= buf@.len(),
    ensures
        le_bytes(r) == buf@.subrange(pos as int, pos + 4),
        r == le_value(buf@[pos as int], buf@[pos + 1], buf@[pos + 2], buf@[pos + 3]),
{
    let b0 = buf[pos];
    let b1 = buf[pos + 1];
    let b2 = buf[pos + 2];
    let b3 = buf[pos + 3];
    let v = (b0 as u32) | ((b1 as u32) << 8u32) | ((b2 as u32) << 16u32) | ((b3 as u32) << 24u32);
    proof {
        lemma_le_bytes_of_value(b0, b1, b2, b3);
        assert(buf@.subrange(pos as int, pos + 4) =~= seq![b0, b1, b2, b3]);
    }
    v
}

/// How long a connection may go without sending anything before a
/// `KeepAlive` is due, in milliseconds.
pub const KEEP_ALIVE_AFTER_MILLIS: u64 = 30_000;

/// Whether a `KeepAlive` is due on a connection whose last successful send
/// was `idle` milliseconds ago.
pub fn keep_alive_due(idle: u64, threshold: u64) -> (r: bool)
    ensures
        r == (idle > threshold),
{
    idle > threshold
}

} // verus!
