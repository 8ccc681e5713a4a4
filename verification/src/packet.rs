//! The packet codec: wire layout, checksums, parsing and serialization.

use crate::errors::PacketParsingError;
use vstd::prelude::*;

verus! {

/// Length of the fixed header in bytes.
pub const HEADER_SIZE: usize = 14;

/// Largest datagram that is accepted, header included.
pub const MAX_PACKET_SIZE: usize = 65507;

/// The kind of a packet.
#[derive(Clone, Copy, PartialEq, Eq, Structural, Debug)]
pub enum PType {
    Syn,
    SynAck,
    Ack,
    Psh,
    Fin,
}

impl PType {
    /// The byte that stands for this packet type on the wire.
    pub open spec fn spec_code(self) -> u8 {
        match self {
            PType::Syn => 1,
            PType::SynAck => 2,
            PType::Ack => 3,
            PType::Psh => 4,
            PType::Fin => 5,
        }
    }

    /// The packet type that a wire byte stands for, if any.
    pub open spec fn spec_from_code(code: u8) -> Option<PType> {
        if code == 1 {
            Some(PType::Syn)
        } else if code == 2 {
            Some(PType::SynAck)
        } else if code == 3 {
            Some(PType::Ack)
        } else if code == 4 {
            Some(PType::Psh)
        } else if code == 5 {
            Some(PType::Fin)
        } else {
            None
        }
    }

    /// The byte that stands for this packet type on the wire.
    #[verifier::when_used_as_spec(spec_code)]
    pub fn code(self) -> (c: u8)
        ensures
            c == self.spec_code(),
    {
        match self {
            PType::Syn => 1,
            PType::SynAck => 2,
            PType::Ack => 3,
            PType::Psh => 4,
            PType::Fin => 5,
        }
    }

    /// Decodes a wire byte; `None` for a byte that names no packet type.
    pub fn from_code(code: u8) -> (r: Option<PType>)
        ensures
            r == PType::spec_from_code(code),
    {
        match code {
            1 => Some(PType::Syn),
            2 => Some(PType::SynAck),
            3 => Some(PType::Ack),
            4 => Some(PType::Psh),
            5 => Some(PType::Fin),
            _ => None,
        }
    }
}

/// The fixed header that starts every packet.
#[derive(Clone, Copy, PartialEq, Eq, Structural, Debug)]
pub struct Header {
    /// The sender's current sequence number.
    pub seq: u32,
    /// The next sequence number the sender expects from its peer.
    pub ack: u32,
    pub ptype: PType,
    /// Checksum over `seq`, `ack` and `ptype`.
    pub header_checksum: u16,
    /// Checksum over `seq`, `ack`, `ptype`, `header_checksum` and the payload.
    pub checksum: u16,
}

/// The 16-bit value whose big-endian bytes are `hi`, `lo`.
pub open spec fn be16(hi: u8, lo: u8) -> u16 {
    (hi as int * 256 + lo as int) as u16
}

/// The 32-bit value whose big-endian bytes are `b0` to `b3`.
pub open spec fn be32(b0: u8, b1: u8, b2: u8, b3: u8) -> u32 {
    (b0 as int * 16777216 + b1 as int * 65536 + b2 as int * 256 + b3 as int) as u32
}

/// The four big-endian bytes of a 32-bit value.
pub open spec fn be32_bytes(x: u32) -> Seq<u8> {
    seq![
        (x as int / 16777216) as u8,
        (x as int / 65536 % 256) as u8,
        (x as int / 256 % 256) as u8,
        (x as int % 256) as u8,
    ]
}

/// The two big-endian bytes of a 16-bit value.
pub open spec fn be16_bytes(x: u16) -> Seq<u8> {
    seq![(x as int / 256) as u8, (x as int % 256) as u8]
}

/// A sum reduced to 16 bits: carries out of the low 16 bits are dropped.
pub open spec fn fold16(sum: int) -> u16 {
    (sum % 65536) as u16
}

/// High half plus low half of a 32-bit value.
pub open spec fn halves_sum(x: u32) -> int {
    x as int / 65536 + x as int % 65536
}

/// What `seq`, `ack` and `ptype` add to a checksum, before reduction.
pub open spec fn fields_sum(seq: u32, ack: u32, ptype: PType) -> int {
    halves_sum(seq) + halves_sum(ack) + ptype.spec_code() as int
}

/// The weight of the payload byte at `offset`: 256 at an even offset, 1 at
/// an odd one.
pub open spec fn byte_weight(offset: int) -> int {
    if offset % 2 == 0 {
        256
    } else {
        1
    }
}

/// What a payload adds to a checksum, before reduction: a byte at an even
/// offset counts as the high byte of a 16-bit word, one at an odd offset as
/// the low byte.
pub open spec fn payload_sum(payload: Seq<u8>) -> int
    decreases payload.len(),
{
    if payload.len() == 0 {
        0
    } else {
        payload_sum(payload.drop_last()) + payload.last() as int * byte_weight(payload.len() - 1)
    }
}

/// What an optional payload adds to a checksum; nothing where it is absent.
pub open spec fn optional_payload_sum(payload: Option<Seq<u8>>) -> int {
    match payload {
        Some(p) => payload_sum(p),
        None => 0,
    }
}

/// The header checksum of the given fields.
pub open spec fn header_checksum_of(seq: u32, ack: u32, ptype: PType) -> u16 {
    fold16(fields_sum(seq, ack, ptype))
}

/// The full checksum of the given fields and payload, seeded with the header
/// checksum.
pub open spec fn checksum_of(
    seq: u32,
    ack: u32,
    ptype: PType,
    header_checksum: u16,
    payload: Option<Seq<u8>>,
) -> u16 {
    fold16(header_checksum as int + fields_sum(seq, ack, ptype) + optional_payload_sum(payload))
}

/// The bytes of an optional slice.
pub open spec fn payload_view(data: Option<&[u8]>) -> Option<Seq<u8>> {
    match data {
        Some(d) => Some(d@),
        None => None,
    }
}

/// The payload bytes that follow a header on the wire; none where the
/// payload is absent.
pub open spec fn payload_bytes(payload: Option<Seq<u8>>) -> Seq<u8> {
    match payload {
        Some(p) => p,
        None => Seq::<u8>::empty(),
    }
}

/// The 14 bytes of a header on the wire.
pub open spec fn header_bytes(h: Header) -> Seq<u8> {
    be32_bytes(h.seq) + be32_bytes(h.ack) + seq![0u8, h.ptype.spec_code()] + be16_bytes(
        h.header_checksum,
    ) + be16_bytes(h.checksum)
}

/// A whole packet on the wire: the header, then the payload verbatim.
pub open spec fn packet_bytes(h: Header, payload: Option<Seq<u8>>) -> Seq<u8> {
    header_bytes(h) + payload_bytes(payload)
}

/// What parsing a byte sequence yields.
pub open spec fn parse_bytes(data: Seq<u8>) -> Result<Header, PacketParsingError> {
    if data.len() < HEADER_SIZE {
        Err(PacketParsingError::TooSmallPacket)
    } else if data.len() > MAX_PACKET_SIZE {
        Err(PacketParsingError::TooBigPacket(data.len() as usize))
    } else {
        match PType::spec_from_code(data[9]) {
            None => Err(PacketParsingError::UnknownPType(data[9])),
            Some(ptype) => Ok(
                (Header {
                    seq: be32(data[0], data[1], data[2], data[3]),
                    ack: be32(data[4], data[5], data[6], data[7]),
                    ptype,
                    header_checksum: be16(data[10], data[11]),
                    checksum: be16(data[12], data[13]),
                }),
            ),
        }
    }
}

/// What splitting a datagram yields: the header that parsing gives, and the
/// bytes after it as the payload.
pub open spec fn packet_of(data: Seq<u8>) -> Result<(Header, Seq<u8>), PacketParsingError> {
    match parse_bytes(data) {
        Ok(h) => Ok((h, data.skip(HEADER_SIZE as int))),
        Err(e) => Err(e),
    }
}

/// Reads a big-endian 32-bit value at `at`.
fn read_be32(data: &[u8], at: usize) -> (x: u32)
    requires
        at + 4 <= data@.len(),
    ensures
        x == be32(data@[at as int], data@[at + 1], data@[at + 2], data@[at + 3]),
{
    let b0: u32 = data[at] as u32;
    let b1: u32 = data[at + 1] as u32;
    let b2: u32 = data[at + 2] as u32;
    let b3: u32 = data[at + 3] as u32;
    b0 * 16777216 + b1 * 65536 + b2 * 256 + b3
}

/// Reads a big-endian 16-bit value at `at`.
fn read_be16(data: &[u8], at: usize) -> (x: u16)
    requires
        at + 2 <= data@.len(),
    ensures
        x == be16(data@[at as int], data@[at + 1]),
{
    let hi: u16 = data[at] as u16;
    let lo: u16 = data[at + 1] as u16;
    hi * 256 + lo
}

/// Appends the big-endian bytes of a 32-bit value.
fn push_be32(out: &mut Vec<u8>, x: u32)
    ensures
        final(out)@ == old(out)@ + be32_bytes(x),
{
    out.push((x / 16777216) as u8);
    out.push((x / 65536 % 256) as u8);
    out.push((x / 256 % 256) as u8);
    out.push((x % 256) as u8);
    assert(out@ =~= old(out)@ + be32_bytes(x));
}

/// Appends the big-endian bytes of a 16-bit value.
fn push_be16(out: &mut Vec<u8>, x: u16)
    ensures
        final(out)@ == old(out)@ + be16_bytes(x),
{
    out.push((x / 256) as u8);
    out.push((x % 256) as u8);
    assert(out@ =~= old(out)@ + be16_bytes(x));
}

/// Adding a 16-bit word with wrap-around to a reduced sum gives the reduced
/// sum with that word added.
proof fn lemma_fold16_add(sum: int, word: u16)
    ensures
        vstd::wrapping::u16_specs::wrapping_add(fold16(sum), word) == fold16(sum + word),
{
    let q: int = sum / 65536;
    let r: int = sum % 65536;
    assert(sum == 65536 * q + r && 0 <= r < 65536);
    if r + word >= 65536 {
        assert(sum + word == 65536 * (q + 1) + (r + word - 65536));
        assert((sum + word) % 65536 == r + word - 65536);
    } else {
        assert(sum + word == 65536 * q + (r + word));
        assert((sum + word) % 65536 == r + word);
    }
}

/// Adds a 16-bit word to a running checksum, with wrap-around.
fn add_word(c: u16, word: u16, Ghost(sum): Ghost<int>) -> (next: u16)
    requires
        c == fold16(sum),
    ensures
        next == fold16(sum + word),
{
    proof {
        lemma_fold16_add(sum, word);
    }
    c.wrapping_add(word)
}

/// Adds the contributions of `seq`, `ack` and `ptype` to a running checksum.
fn add_fields(start: u16, seq: u32, ack: u32, ptype: PType) -> (c: u16)
    ensures
        c == fold16(start as int + fields_sum(seq, ack, ptype)),
{
    let ghost s0: int = start as int;
    let ghost s1: int = s0 + seq as int / 65536;
    let ghost s2: int = s1 + seq as int % 65536;
    let ghost s3: int = s2 + ack as int / 65536;
    let ghost s4: int = s3 + ack as int % 65536;
    let c0: u16 = add_word(start, (seq / 65536) as u16, Ghost(s0));
    let c1: u16 = add_word(c0, (seq % 65536) as u16, Ghost(s1));
    let c2: u16 = add_word(c1, (ack / 65536) as u16, Ghost(s2));
    let c3: u16 = add_word(c2, (ack % 65536) as u16, Ghost(s3));
    add_word(c3, ptype.code() as u16, Ghost(s4))
}

impl Header {
    /// Reads the header at the start of a datagram. Checksums are read, not
    /// verified.
    pub fn parse(data: &[u8]) -> (res: Result<Header, PacketParsingError>)
        ensures
            res == parse_bytes(data@),
    {
        if data.len() < HEADER_SIZE {
            return Err(PacketParsingError::TooSmallPacket);
        } else if data.len() > MAX_PACKET_SIZE {
            return Err(PacketParsingError::TooBigPacket(data.len()));
        }
        let seq: u32 = read_be32(data, 0);
        let ack: u32 = read_be32(data, 4);
        let ptype: PType = match PType::from_code(data[9]) {
            Some(p) => p,
            None => return Err(PacketParsingError::UnknownPType(data[9])),
        };
        let header_checksum: u16 = read_be16(data, 10);
        let checksum: u16 = read_be16(data, 12);
        Ok(Header { seq, ack, ptype, header_checksum, checksum })
    }

    /// The checksum over `seq`, `ack` and `ptype`: the two 16-bit halves of
    /// each number and the packet type's code, added with wrap-around.
    pub fn calculate_header_checksum(seq: u32, ack: u32, ptype: PType) -> (c: u16)
        ensures
            c == header_checksum_of(seq, ack, ptype),
    {
        add_fields(0, seq, ack, ptype)
    }

    /// The full checksum: starts at `header_checksum`, adds the fields as the
    /// header checksum does, then the payload as big-endian 16-bit words, a
    /// lone last byte counting as a high byte.
    pub fn calculate_checksum(
        seq: u32,
        ack: u32,
        ptype: PType,
        header_checksum: u16,
        data: Option<&[u8]>,
    ) -> (c: u16)
        ensures
            c == checksum_of(seq, ack, ptype, header_checksum, payload_view(data)),
    {
        let mut c: u16 = add_fields(header_checksum, seq, ack, ptype);
        if let Some(dt) = data {
            let ghost base: int = header_checksum as int + fields_sum(seq, ack, ptype);
            let n: usize = dt.len();
            let mut i: usize = 0;
            assert(dt@.take(0) =~= Seq::<u8>::empty());
            while n - i >= 2
                invariant
                    n == dt@.len(),
                    i <= n,
                    i % 2 == 0,
                    base == header_checksum as int + fields_sum(seq, ack, ptype),
                    c == fold16(base + payload_sum(dt@.take(i as int))),
                decreases n - i,
            {
                proof {
                    assert(dt@.take(i + 2).drop_last() =~= dt@.take(i + 1));
                    assert(dt@.take(i + 1).drop_last() =~= dt@.take(i as int));
                    assert(payload_sum(dt@.take(i + 1)) == payload_sum(dt@.take(i as int))
                        + dt@[i as int] * 256);
                    assert(payload_sum(dt@.take(i + 2)) == payload_sum(dt@.take(i + 1)) + dt@[i
                        + 1]);
                }
                c = add_word(c, (dt[i] as u16) * 256, Ghost(base + payload_sum(dt@.take(i as int))));
                c = add_word(c, dt[i + 1] as u16, Ghost(base + payload_sum(dt@.take(i + 1))));
                i += 2;
            }
            if i < n {
                proof {
                    assert(dt@.take(i + 1).drop_last() =~= dt@.take(i as int));
                    assert(dt@.take(i + 1) =~= dt@);
                }
                c = add_word(c, (dt[i] as u16) * 256, Ghost(base + payload_sum(dt@.take(i as int))));
            } else {
                assert(dt@.take(i as int) =~= dt@);
            }
        }
        c
    }

    /// The header with the given fields whose two checksums are the ones
    /// that the fields and the payload give.
    pub open spec fn spec_sealed(
        seq: u32,
        ack: u32,
        ptype: PType,
        payload: Option<Seq<u8>>,
    ) -> Header {
        Header {
            seq,
            ack,
            ptype,
            header_checksum: header_checksum_of(seq, ack, ptype),
            checksum: checksum_of(seq, ack, ptype, header_checksum_of(seq, ack, ptype), payload),
        }
    }

    /// Builds a header for the given fields and payload, with both checksums
    /// filled in.
    pub fn sealed(seq: u32, ack: u32, ptype: PType, data: Option<&[u8]>) -> (h: Header)
        ensures
            h == Header::spec_sealed(seq, ack, ptype, payload_view(data)),
            h.header_checksum_ok(),
            h.checksum_ok(payload_view(data)),
    {
        let header_checksum: u16 = Header::calculate_header_checksum(seq, ack, ptype);
        let checksum: u16 = Header::calculate_checksum(seq, ack, ptype, header_checksum, data);
        Header { seq, ack, ptype, header_checksum, checksum }
    }

    /// Whether the header checksum that this header carries is the one its
    /// fields give.
    pub open spec fn header_checksum_ok(self) -> bool {
        self.header_checksum == header_checksum_of(self.seq, self.ack, self.ptype)
    }

    /// Whether the full checksum that this header carries is the one its
    /// fields and the payload give.
    pub open spec fn checksum_ok(self, payload: Option<Seq<u8>>) -> bool {
        self.checksum == checksum_of(
            self.seq,
            self.ack,
            self.ptype,
            self.header_checksum,
            payload,
        )
    }

    /// Recomputes the header checksum and compares it with the one carried.
    pub fn verify_header_checksum(&self) -> (ok: bool)
        ensures
            ok == self.header_checksum_ok(),
    {
        let calculated: u16 = Header::calculate_header_checksum(self.seq, self.ack, self.ptype);
        self.header_checksum == calculated
    }

    /// Recomputes the full checksum over the header and `data` and compares
    /// it with the one carried.
    pub fn verify_checksum(&self, data: Option<&[u8]>) -> (ok: bool)
        ensures
            ok == self.checksum_ok(payload_view(data)),
    {
        let calculated: u16 = Header::calculate_checksum(
            self.seq,
            self.ack,
            self.ptype,
            self.header_checksum,
            data,
        );
        self.checksum == calculated
    }
}

/// Splits a datagram into its header and its payload, the bytes after the
/// header. Fails exactly where parsing the header fails.
pub fn parse_packet(data: &[u8]) -> (res: Result<(Header, &[u8]), PacketParsingError>)
    ensures
        match res {
            Ok((h, p)) => packet_of(data@) == Ok::<(Header, Seq<u8>), PacketParsingError>(
                (h, p@),
            ),
            Err(e) => packet_of(data@) == Err::<(Header, Seq<u8>), PacketParsingError>(e),
        },
{
    match Header::parse(data) {
        Ok(h) => {
            let payload: &[u8] = &data[HEADER_SIZE..data.len()];
            assert(payload@ =~= data@.skip(HEADER_SIZE as int));
            Ok((h, payload))
        },
        Err(e) => Err(e),
    }
}

/// Serializes a packet: the header's 14 bytes, then the payload verbatim.
pub fn packet_to_binary(header: Header, data: Option<&[u8]>) -> (out: Vec<u8>)
    ensures
        out@ == packet_bytes(header, payload_view(data)),
        out@.len() == HEADER_SIZE + payload_bytes(payload_view(data)).len(),
{
    let mut capacity: usize = HEADER_SIZE;
    if let Some(dt) = data {
        if dt.len() <= MAX_PACKET_SIZE - HEADER_SIZE {
            capacity = HEADER_SIZE + dt.len();
        }
    }
    let mut out: Vec<u8> = Vec::with_capacity(capacity);
    push_be32(&mut out, header.seq);
    push_be32(&mut out, header.ack);
    out.push(0);
    out.push(header.ptype.code());
    push_be16(&mut out, header.header_checksum);
    push_be16(&mut out, header.checksum);
    assert(out@ =~= header_bytes(header));
    if let Some(dt) = data {
        let n: usize = dt.len();
        let mut i: usize = 0;
        while i < n
            invariant
                n == dt@.len(),
                i <= n,
                out@ == header_bytes(header) + dt@.take(i as int),
            decreases n - i,
        {
            out.push(dt[i]);
            assert(dt@.take(i + 1) =~= dt@.take(i as int).push(dt@[i as int]));
            assert(out@ =~= header_bytes(header) + dt@.take(i + 1));
            i += 1;
        }
        assert(dt@.take(n as int) =~= dt@);
    } else {
        assert(out@ =~= header_bytes(header) + Seq::<u8>::empty());
    }
    out
}

} // verus!
