//! Connection state and the handshake that opens a connection.
//!
//! An endpoint waits for a Syn, answers with a SynAck, waits for the matching
//! Ack and then echoes Psh packets. Each function here takes one incoming
//! packet, already parsed, and decides: the new connection state and the
//! header to send back, or the reason why the packet is discarded. A
//! discarded packet never changes the connection. Nothing is retried.

use crate::packet::{payload_view, Header, PType};
use rand::Rng;
use vstd::prelude::*;

verus! {

/// The value of `last_response` in a fresh connection.
pub const INITIAL_LAST_RESPONSE: u8 = 5;

/// Why an incoming packet was discarded.
#[derive(Clone, Copy, PartialEq, Eq, Structural, Debug)]
pub enum Rejection {
    /// The packet is not of the type that the connection's state expects.
    UnexpectedType,
    /// The header checksum or the full checksum does not match.
    BadChecksum,
    /// The sequence or acknowledgment number does not continue the exchange;
    /// the peer has to send the packet again.
    NeedsResend,
}

/// The sequence and acknowledgment state of one exchange with a peer.
#[derive(Clone, Copy, PartialEq, Eq, Structural, Debug)]
pub struct Connection {
    /// This endpoint's current outgoing sequence number.
    pub seq: u32,
    /// The next sequence number expected from the peer.
    pub ack: u32,
    /// The sequence number that the connection was created with.
    pub previous_seq: u32,
    /// False until the three-way exchange has completed.
    pub is_open: bool,
    /// Bound on outstanding unacknowledged exchanges.
    pub last_response: u8,
}

/// A sequence number moved forward by `by`, modulo 2^32.
pub open spec fn advance(x: u32, by: int) -> u32 {
    ((x as int + by) % 4294967296) as u32
}

/// The first objection to a packet of which the type `expected` is awaited:
/// a wrong type, then a wrong checksum; `None` where there is neither.
pub open spec fn objection(h: Header, payload: Option<Seq<u8>>, expected: PType) -> Option<
    Rejection,
> {
    if h.ptype != expected {
        Some(Rejection::UnexpectedType)
    } else if !h.header_checksum_ok() || !h.checksum_ok(payload) {
        Some(Rejection::BadChecksum)
    } else {
        None
    }
}

/// The connection that a Syn from the peer creates, given this endpoint's
/// initial sequence number.
pub open spec fn accepted(syn: Header, local_seq: u32) -> Connection {
    Connection {
        seq: local_seq,
        ack: advance(syn.seq, 1),
        previous_seq: local_seq,
        is_open: false,
        last_response: INITIAL_LAST_RESPONSE,
    }
}

/// What an endpoint that awaits a Syn does with an incoming packet: the new
/// connection and the SynAck to send, or the reason for discarding it.
pub open spec fn spec_accept(syn: Header, local_seq: u32) -> Result<
    (Connection, Header),
    Rejection,
> {
    match objection(syn, None, PType::Syn) {
        Some(r) => Err(r),
        None => Ok(
            (
                accepted(syn, local_seq),
                Header::spec_sealed(local_seq, advance(syn.seq, 1), PType::SynAck, None),
            ),
        ),
    }
}

/// What a connection does with an incoming packet while it awaits the Ack:
/// the opened connection, or the reason for discarding the packet.
pub open spec fn spec_confirm(conn: Connection, ack: Header) -> Result<Connection, Rejection> {
    if conn.is_open {
        Err(Rejection::UnexpectedType)
    } else {
        match objection(ack, None, PType::Ack) {
            Some(r) => Err(r),
            None => if ack.ack == advance(conn.seq, 1) && ack.seq == conn.ack {
                Ok((Connection { is_open: true, seq: advance(conn.seq, 1), ..conn }))
            } else {
                Err(Rejection::NeedsResend)
            },
        }
    }
}

/// What an open connection does with an incoming packet and its payload: the
/// advanced connection and the header of the echo, or the reason for
/// discarding the packet. The echo carries the same payload.
pub open spec fn spec_receive(conn: Connection, psh: Header, payload: Seq<u8>) -> Result<
    (Connection, Header),
    Rejection,
> {
    if !conn.is_open {
        Err(Rejection::UnexpectedType)
    } else {
        match objection(psh, Some(payload), PType::Psh) {
            Some(r) => Err(r),
            None => if psh.ack == conn.seq {
                Ok(
                    (
                        (Connection {
                            seq: advance(conn.seq, payload.len() as int),
                            ack: advance(conn.ack, payload.len() as int),
                            ..conn
                        }),
                        Header::spec_sealed(
                            conn.seq,
                            advance(conn.ack, payload.len() as int),
                            PType::Psh,
                            Some(payload),
                        ),
                    ),
                )
            } else {
                Err(Rejection::NeedsResend)
            },
        }
    }
}

/// Draws a sequence number from the `rand` crate's thread-local generator,
/// `rand::thread_rng().gen()`. Nothing is claimed of the number drawn. The
/// generator is seeded from the operating system on first use in a thread
/// and panics if that source fails.
#[verifier::external_body]
fn random_sequence_number() -> (s: u32) {
    rand::thread_rng().gen()
}

/// Moves a sequence number forward by one, with wrap-around.
fn advance_by_one(x: u32) -> (y: u32)
    ensures
        y == advance(x, 1),
{
    if x == u32::MAX {
        0
    } else {
        x + 1
    }
}

/// Moves a sequence number forward by a payload's length, with wrap-around.
fn advance_by_len(x: u32, len: usize) -> (y: u32)
    ensures
        y == advance(x, len as int),
{
    let step: u64 = (len as u64) % 4294967296u64;
    let sum: u64 = x as u64 + step;
    let y: u64 = if sum >= 4294967296u64 {
        sum - 4294967296u64
    } else {
        sum
    };
    proof {
        let l: int = len as int;
        let q: int = l / 4294967296;
        assert(l == 4294967296 * q + step);
        if sum >= 4294967296 {
            assert(x + l == 4294967296 * (q + 1) + y);
        } else {
            assert(x + l == 4294967296 * q + y);
        }
        assert((x + l) % 4294967296 == y);
    }
    y as u32
}

/// Looks at an incoming packet's type, then at both of its checksums.
fn inspect(h: &Header, data: Option<&[u8]>, expected: PType) -> (r: Option<Rejection>)
    ensures
        r == objection(*h, payload_view(data), expected),
{
    if h.ptype != expected {
        Some(Rejection::UnexpectedType)
    } else if !h.verify_header_checksum() || !h.verify_checksum(data) {
        Some(Rejection::BadChecksum)
    } else {
        None
    }
}

impl Connection {
    /// Handles a packet while a Syn is awaited, with this endpoint's initial
    /// sequence number given. A valid Syn creates the connection, not yet
    /// open, which expects the peer's sequence number plus one; the header
    /// returned with it is the SynAck to send.
    pub fn accept_with(syn: &Header, local_seq: u32) -> (res: Result<
        (Connection, Header),
        Rejection,
    >)
        ensures
            res == spec_accept(*syn, local_seq),
    {
        match inspect(syn, None, PType::Syn) {
            Some(r) => Err(r),
            None => {
                let ack: u32 = advance_by_one(syn.seq);
                let conn = Connection {
                    seq: local_seq,
                    ack,
                    previous_seq: local_seq,
                    is_open: false,
                    last_response: INITIAL_LAST_RESPONSE,
                };
                let reply: Header = Header::sealed(local_seq, ack, PType::SynAck, None);
                Ok((conn, reply))
            },
        }
    }

    /// Handles a packet while a Syn is awaited, drawing this endpoint's
    /// initial sequence number at random. A packet that is no valid Syn is
    /// rejected before any number is drawn; a valid one is always accepted,
    /// and the result is that of `accept_with` for the number drawn, which
    /// the new connection holds as `seq`.
    pub fn accept(syn: &Header) -> (res: Result<(Connection, Header), Rejection>)
        ensures
            match res {
                Ok((conn, reply)) => res == spec_accept(*syn, conn.seq),
                Err(r) => objection(*syn, None, PType::Syn) == Some(r),
            },
            objection(*syn, None, PType::Syn) is None ==> res is Ok,
    {
        match inspect(syn, None, PType::Syn) {
            Some(r) => Err(r),
            None => {
                let local_seq: u32 = random_sequence_number();
                Connection::accept_with(syn, local_seq)
            },
        }
    }

    /// Handles a packet while the Ack is awaited. A valid Ack that
    /// acknowledges this endpoint's sequence number plus one, and carries the
    /// sequence number expected from the peer, opens the connection and
    /// moves `seq` forward by one. Any other packet leaves the connection as
    /// it was.
    pub fn confirm(&mut self, ack: &Header) -> (res: Result<(), Rejection>)
        ensures
            match spec_confirm(*old(self), *ack) {
                Ok(opened) => res == Ok::<(), Rejection>(()) && *final(self) == opened,
                Err(r) => res == Err::<(), Rejection>(r) && *final(self) == *old(self),
            },
            !old(self).is_open && ack.ack != advance(old(self).seq, 1) ==> !final(self).is_open,
    {
        if self.is_open {
            return Err(Rejection::UnexpectedType);
        }
        match inspect(ack, None, PType::Ack) {
            Some(r) => Err(r),
            None => {
                let next: u32 = advance_by_one(self.seq);
                if ack.ack == next && ack.seq == self.ack {
                    self.is_open = true;
                    self.seq = next;
                    Ok(())
                } else {
                    Err(Rejection::NeedsResend)
                }
            },
        }
    }

    /// Handles a packet on an open connection. A valid Psh that acknowledges
    /// this endpoint's sequence number moves `ack` forward by the payload's
    /// length, yields the header of the echo (to be sent with the same
    /// payload), and then moves `seq` forward by the same length. Any other
    /// packet leaves the connection as it was.
    pub fn receive(&mut self, psh: &Header, payload: &[u8]) -> (res: Result<Header, Rejection>)
        ensures
            match spec_receive(*old(self), *psh, payload@) {
                Ok((next, echo)) => res == Ok::<Header, Rejection>(echo) && *final(self) == next,
                Err(r) => res == Err::<Header, Rejection>(r) && *final(self) == *old(self),
            },
    {
        if !self.is_open {
            return Err(Rejection::UnexpectedType);
        }
        match inspect(psh, Some(payload), PType::Psh) {
            Some(r) => Err(r),
            None => {
                if psh.ack == self.seq {
                    self.ack = advance_by_len(self.ack, payload.len());
                    let echo: Header = Header::sealed(
                        self.seq,
                        self.ack,
                        PType::Psh,
                        Some(payload),
                    );
                    self.seq = advance_by_len(self.seq, payload.len());
                    Ok(echo)
                } else {
                    Err(Rejection::NeedsResend)
                }
            },
        }
    }
}

/// The handshake completes: where a valid Syn is answered with the initial
/// sequence number `local_seq`, and a valid Ack follows that carries the
/// peer's sequence number plus one and acknowledges `local_seq` plus one, the
/// SynAck carries `local_seq` and acknowledges the peer's number plus one and
/// passes both checksums, and the Ack opens the connection, which then holds
/// `local_seq` plus one as `seq`: the number that the next Psh has to
/// acknowledge.
pub proof fn lemma_handshake_opens(syn: Header, local_seq: u32, ack: Header)
    requires
        objection(syn, None, PType::Syn) is None,
        objection(ack, None, PType::Ack) is None,
        ack.seq == advance(syn.seq, 1),
        ack.ack == advance(local_seq, 1),
    ensures
        spec_accept(syn, local_seq) matches Ok((conn, reply)) && {
            &&& !conn.is_open
            &&& reply.ptype == PType::SynAck
            &&& reply.seq == local_seq
            &&& reply.ack == advance(syn.seq, 1)
            &&& objection(reply, None, PType::SynAck) is None
            &&& spec_confirm(conn, ack) matches Ok(opened) && {
                &&& opened.is_open
                &&& opened.seq == advance(local_seq, 1)
                &&& opened.ack == advance(syn.seq, 1)
            }
        },
{
}

/// An Ack that does not acknowledge the connection's sequence number plus
/// one never opens a connection that awaits its Ack.
pub proof fn lemma_mismatched_ack_stays_closed(conn: Connection, ack: Header)
    requires
        !conn.is_open,
        ack.ack != advance(conn.seq, 1),
    ensures
        spec_confirm(conn, ack) is Err,
{
}

/// An open connection accepts a valid Psh exactly where the Psh acknowledges
/// the connection's current sequence number.
pub proof fn lemma_open_expects_own_seq(conn: Connection, psh: Header, payload: Seq<u8>)
    requires
        conn.is_open,
        objection(psh, Some(payload), PType::Psh) is None,
    ensures
        spec_receive(conn, psh, payload) is Ok <==> psh.ack == conn.seq,
        spec_receive(conn, psh, payload) is Err ==> spec_receive(conn, psh, payload) == Err::<
            (Connection, Header),
            Rejection,
        >(Rejection::NeedsResend),
{
}

/// Being open is never lost: an open connection rejects every packet
/// offered as its Ack, and an accepted Psh leaves it open.
pub proof fn lemma_open_stays_open(conn: Connection, psh: Header, payload: Seq<u8>)
    requires
        conn.is_open,
    ensures
        spec_confirm(conn, psh) is Err,
        spec_receive(conn, psh, payload) matches Ok((next, echo)) ==> next.is_open,
{
}

} // verus!
