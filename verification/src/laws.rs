//! Laws of the packet codec, proved over its specification functions.

use crate::errors::PacketParsingError;
use crate::packet::{
    be16, be16_bytes, be32, be32_bytes, fields_sum, fold16, halves_sum, header_bytes, packet_bytes,
    packet_of, parse_bytes, payload_bytes, payload_sum, Header, PType, HEADER_SIZE, MAX_PACKET_SIZE,
};
use vstd::prelude::*;

verus! {

/// Reading four big-endian bytes of a value gives the value back.
pub proof fn lemma_be32_of_bytes(x: u32)
    ensures
        be32_bytes(x).len() == 4,
        be32(be32_bytes(x)[0], be32_bytes(x)[1], be32_bytes(x)[2], be32_bytes(x)[3]) == x,
{
    let v: int = x as int;
    let a: int = v / 16777216;
    let b: int = v / 65536 % 256;
    let c: int = v / 256 % 256;
    let d: int = v % 256;
    assert(v == 256 * (v / 256) + d);
    assert(v / 256 == 256 * (v / 256 / 256) + c);
    assert(v / 256 / 256 == v / 65536);
    assert(v / 65536 == 256 * (v / 65536 / 256) + b);
    assert(v / 65536 / 256 == a);
    assert(0 <= a < 256);
    assert(a * 16777216 + b * 65536 + c * 256 + d == v);
}

/// Reading two big-endian bytes of a value gives the value back.
pub proof fn lemma_be16_of_bytes(x: u16)
    ensures
        be16_bytes(x).len() == 2,
        be16(be16_bytes(x)[0], be16_bytes(x)[1]) == x,
{
}

/// Every packet type is decoded from its own code.
pub proof fn lemma_code_round_trip(ptype: PType)
    ensures
        PType::spec_from_code(ptype.spec_code()) == Some(ptype),
{
}

/// A serialized header is 14 bytes long and reads back field by field.
pub proof fn lemma_header_bytes_layout(h: Header)
    ensures
        header_bytes(h).len() == HEADER_SIZE,
        be32(header_bytes(h)[0], header_bytes(h)[1], header_bytes(h)[2], header_bytes(h)[3])
            == h.seq,
        be32(header_bytes(h)[4], header_bytes(h)[5], header_bytes(h)[6], header_bytes(h)[7])
            == h.ack,
        header_bytes(h)[8] == 0,
        header_bytes(h)[9] == h.ptype.spec_code(),
        be16(header_bytes(h)[10], header_bytes(h)[11]) == h.header_checksum,
        be16(header_bytes(h)[12], header_bytes(h)[13]) == h.checksum,
{
    lemma_be32_of_bytes(h.seq);
    lemma_be32_of_bytes(h.ack);
    lemma_be16_of_bytes(h.header_checksum);
    lemma_be16_of_bytes(h.checksum);
    let s: Seq<u8> = header_bytes(h);
    assert(s.len() == 14);
    assert(s[0] == be32_bytes(h.seq)[0] && s[1] == be32_bytes(h.seq)[1] && s[2] == be32_bytes(
        h.seq,
    )[2] && s[3] == be32_bytes(h.seq)[3]);
    assert(s[4] == be32_bytes(h.ack)[0] && s[5] == be32_bytes(h.ack)[1] && s[6] == be32_bytes(
        h.ack,
    )[2] && s[7] == be32_bytes(h.ack)[3]);
    assert(s[10] == be16_bytes(h.header_checksum)[0] && s[11] == be16_bytes(
        h.header_checksum,
    )[1]);
    assert(s[12] == be16_bytes(h.checksum)[0] && s[13] == be16_bytes(h.checksum)[1]);
}

/// Round trip: a packet that fits in a datagram parses back to the header it
/// was serialized from, and the bytes after the header are the payload.
pub proof fn lemma_parse_inverts_serialize(h: Header, payload: Option<Seq<u8>>)
    requires
        HEADER_SIZE + payload_bytes(payload).len() <= MAX_PACKET_SIZE,
    ensures
        packet_bytes(h, payload).len() == HEADER_SIZE + payload_bytes(payload).len(),
        parse_bytes(packet_bytes(h, payload)) == Ok::<Header, PacketParsingError>(h),
        packet_bytes(h, payload).skip(HEADER_SIZE as int) == payload_bytes(payload),
        packet_of(packet_bytes(h, payload)) == Ok::<(Header, Seq<u8>), PacketParsingError>(
            (h, payload_bytes(payload)),
        ),
{
    lemma_header_bytes_layout(h);
    lemma_code_round_trip(h.ptype);
    let s: Seq<u8> = packet_bytes(h, payload);
    assert(forall|i: int| 0 <= i < 14 ==> s[i] == header_bytes(h)[i]);
    assert(s.skip(HEADER_SIZE as int) =~= payload_bytes(payload));
}

/// A payload of one byte adds that byte as a high byte: there is no partner
/// for it.
pub proof fn lemma_payload_sum_single(payload: Seq<u8>)
    requires
        payload.len() == 1,
    ensures
        payload_sum(payload) == payload[0] as int * 256,
{
    assert(payload.drop_last() =~= Seq::<u8>::empty());
    assert(payload_sum(Seq::<u8>::empty()) == 0);
}

/// A payload is summed two bytes at a time: the first byte of a pair as the
/// high byte of a 16-bit word, the second as the low byte, then the rest.
pub proof fn lemma_payload_sum_by_pairs(payload: Seq<u8>)
    requires
        payload.len() >= 2,
    ensures
        payload_sum(payload) == payload[0] as int * 256 + payload[1] as int + payload_sum(
            payload.skip(2),
        ),
    decreases payload.len(),
{
    let front: Seq<u8> = payload.drop_last();
    let rest: Seq<u8> = payload.skip(2);
    if payload.len() == 2 {
        lemma_payload_sum_single(front);
        assert(rest =~= Seq::<u8>::empty());
        assert(payload_sum(rest) == 0);
    } else {
        lemma_payload_sum_by_pairs(front);
        assert(front.skip(2) =~= rest.drop_last());
        assert(rest.last() == payload.last());
        assert((rest.len() - 1) % 2 == (payload.len() - 1) % 2);
    }
}

/// A payload of two bytes adds the 16-bit word that they spell.
pub proof fn lemma_payload_sum_pair(payload: Seq<u8>)
    requires
        payload.len() == 2,
    ensures
        payload_sum(payload) == payload[0] as int * 256 + payload[1] as int,
{
    lemma_payload_sum_by_pairs(payload);
    assert(payload.skip(2) =~= Seq::<u8>::empty());
    assert(payload_sum(Seq::<u8>::empty()) == 0);
}

/// The byte sequence with one bit of one byte inverted.
pub open spec fn flip_bit(data: Seq<u8>, index: int, bit: u8) -> Seq<u8> {
    data.update(index, data[index] ^ (1u8 << bit))
}

/// Two sums that differ by less than 65536 reduce to different checksums.
pub proof fn lemma_fold16_separates(a: int, b: int)
    requires
        a != b,
        -65536 < a - b < 65536,
    ensures
        fold16(a) != fold16(b),
{
    let qa: int = a / 65536;
    let qb: int = b / 65536;
    assert(a == 65536 * qa + a % 65536);
    assert(b == 65536 * qb + b % 65536);
    if a % 65536 == b % 65536 {
        assert(a - b == 65536 * (qa - qb));
        assert(qa - qb == 0);
    }
}

/// The two halves of a 32-bit value, added, in terms of its big-endian bytes.
pub proof fn lemma_halves_sum_of_bytes(b0: u8, b1: u8, b2: u8, b3: u8)
    ensures
        halves_sum(be32(b0, b1, b2, b3)) == (b0 as int + b2 as int) * 256 + b1 as int
            + b3 as int,
{
    let hi: int = b0 as int * 256 + b1 as int;
    let lo: int = b2 as int * 256 + b3 as int;
    let v: int = be32(b0, b1, b2, b3) as int;
    assert(v == 65536 * hi + lo);
    assert(0 <= lo < 65536);
    assert(v / 65536 == hi && v % 65536 == lo);
}

/// Two headers read from byte sequences that differ in exactly one byte of
/// the sequence number, the acknowledgment number or the packet type cannot
/// both carry a correct header checksum.
pub proof fn lemma_header_checksum_detects_byte_change(a: Seq<u8>, b: Seq<u8>, index: int)
    requires
        0 <= index < 10,
        index != 8,
        a.len() == b.len(),
        a[index] != b[index],
        forall|i: int| 0 <= i < 14 && i != index ==> a[i] == b[i],
    ensures
        parse_bytes(a) matches Ok(ha) ==> (parse_bytes(b) matches Ok(hb) ==> !(
        ha.header_checksum_ok() && hb.header_checksum_ok())),
{
    if let Ok(ha) = parse_bytes(a) {
        if let Ok(hb) = parse_bytes(b) {
            lemma_halves_sum_of_bytes(a[0], a[1], a[2], a[3]);
            lemma_halves_sum_of_bytes(b[0], b[1], b[2], b[3]);
            lemma_halves_sum_of_bytes(a[4], a[5], a[6], a[7]);
            lemma_halves_sum_of_bytes(b[4], b[5], b[6], b[7]);
            let sa: int = fields_sum(ha.seq, ha.ack, ha.ptype);
            let sb: int = fields_sum(hb.seq, hb.ack, hb.ptype);
            assert(ha.header_checksum == hb.header_checksum);
            assert(a[9] == ha.ptype.spec_code() && b[9] == hb.ptype.spec_code());
            let d: int = a[index] as int - b[index] as int;
            assert(d != 0 && -256 < d < 256);
            assert(sa - sb == d * 256 || sa - sb == d);
            lemma_fold16_separates(sa, sb);
        }
    }
}

/// Checksum sensitivity: where a header carries a correct header checksum,
/// inverting any one bit of its sequence number, acknowledgment number or
/// packet type on the wire gives bytes whose header, if they still parse,
/// fails the header checksum.
pub proof fn lemma_header_checksum_detects_bit_flip(data: Seq<u8>, index: int, bit: u8)
    requires
        0 <= index < 10,
        index != 8,
        bit < 8,
        parse_bytes(data) matches Ok(h) && h.header_checksum_ok(),
    ensures
        parse_bytes(flip_bit(data, index, bit)) matches Ok(flipped)
            ==> !flipped.header_checksum_ok(),
{
    let byte: u8 = data[index];
    assert(byte ^ (1u8 << bit) != byte) by (bit_vector)
        requires
            bit < 8,
    ;
    lemma_header_checksum_detects_byte_change(data, flip_bit(data, index, bit), index);
}

} // verus!
