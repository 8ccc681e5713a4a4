use reliable_udp::manager::{Connection, Rejection, INITIAL_LAST_RESPONSE};
use reliable_udp::packet::{packet_to_binary, Header, PType, HEADER_SIZE};

fn awaiting_ack() -> Connection {
    Connection { seq: 7000, ack: 101, previous_seq: 7000, is_open: false, last_response: 5 }
}

fn open() -> Connection {
    Connection { seq: 7001, ack: 101, previous_seq: 7000, is_open: true, last_response: 5 }
}

#[test]
fn end_to_end_handshake() {
    let syn = Header::sealed(100, 0, PType::Syn, None);
    let (mut conn, syn_ack) = Connection::accept_with(&syn, 7000).unwrap();
    assert_eq!(conn, awaiting_ack());
    assert_eq!(conn.last_response, INITIAL_LAST_RESPONSE);
    assert_eq!(syn_ack, Header::sealed(7000, 101, PType::SynAck, None));
    assert_eq!(syn_ack.seq, 7000);
    assert_eq!(syn_ack.ack, 101);
    assert_eq!(syn_ack.ptype, PType::SynAck);
    assert!(syn_ack.verify_header_checksum());
    assert!(syn_ack.verify_checksum(None));

    let ack = Header::sealed(101, 7001, PType::Ack, None);
    assert_eq!(conn.confirm(&ack), Ok(()));
    assert!(conn.is_open);
    assert_eq!(conn, open());

    let psh = Header::sealed(101, 7001, PType::Psh, Some(b"hello"));
    let echo = conn.receive(&psh, b"hello").unwrap();
    assert_eq!(echo, Header::sealed(7001, 106, PType::Psh, Some(b"hello")));
    assert_eq!(
        conn,
        Connection { seq: 7006, ack: 106, previous_seq: 7000, is_open: true, last_response: 5 }
    );
}

#[test]
fn handshake_over_the_wire() {
    let wire = packet_to_binary(Header::sealed(100, 0, PType::Syn, None), None);
    let syn = Header::parse(&wire).unwrap();
    let (mut conn, syn_ack) = Connection::accept_with(&syn, 0xDEAD_BEEF).unwrap();
    let wire = packet_to_binary(syn_ack, None);
    let seen = Header::parse(&wire).unwrap();
    assert_eq!(seen.seq, 0xDEAD_BEEF);
    assert_eq!(seen.ack, 101);
    let wire = packet_to_binary(Header::sealed(seen.ack, seen.seq + 1, PType::Ack, None), None);
    assert_eq!(conn.confirm(&Header::parse(&wire).unwrap()), Ok(()));
    assert!(conn.is_open);
    assert_eq!(conn.seq, 0xDEAD_BEF0);
    let wire = packet_to_binary(
        Header::sealed(101, 0xDEAD_BEF0, PType::Psh, Some(&[9, 8, 7])),
        Some(&[9, 8, 7]),
    );
    let psh = Header::parse(&wire).unwrap();
    let echo = conn.receive(&psh, &wire[HEADER_SIZE..]).unwrap();
    let out = packet_to_binary(echo, Some(&wire[HEADER_SIZE..]));
    assert_eq!(&out[HEADER_SIZE..], &[9, 8, 7]);
    let back = Header::parse(&out).unwrap();
    assert!(back.verify_header_checksum());
    assert!(back.verify_checksum(Some(&out[HEADER_SIZE..])));
    assert_eq!(back.seq, 0xDEAD_BEF0);
    assert_eq!(back.ack, 104);
}

#[test]
fn accept_draws_its_own_sequence_number() {
    let syn = Header::sealed(100, 0, PType::Syn, None);
    let (conn, syn_ack) = Connection::accept(&syn).unwrap();
    assert_eq!(Connection::accept_with(&syn, conn.seq), Ok((conn, syn_ack)));
    assert_eq!(conn.previous_seq, conn.seq);
    assert_eq!(conn.ack, 101);
    assert!(!conn.is_open);
    assert_eq!(syn_ack.seq, conn.seq);
    assert_eq!(syn_ack.ptype, PType::SynAck);
    assert!(syn_ack.verify_header_checksum());
    assert!(syn_ack.verify_checksum(None));
}

#[test]
fn accept_rejects_what_is_no_valid_syn() {
    let ack = Header::sealed(100, 0, PType::Ack, None);
    assert_eq!(Connection::accept(&ack), Err(Rejection::UnexpectedType));
    let broken = Header { checksum: 0, ..Header::sealed(100, 0, PType::Syn, None) };
    assert_eq!(Connection::accept(&broken), Err(Rejection::BadChecksum));
}

#[test]
fn accept_with_rejects_wrong_type() {
    for t in [PType::SynAck, PType::Ack, PType::Psh, PType::Fin] {
        let h = Header::sealed(100, 0, t, None);
        assert_eq!(Connection::accept_with(&h, 1), Err(Rejection::UnexpectedType));
    }
}

#[test]
fn accept_with_rejects_bad_checksums() {
    let good = Header::sealed(100, 0, PType::Syn, None);
    let bad_header = Header { header_checksum: good.header_checksum + 1, ..good };
    assert_eq!(Connection::accept_with(&bad_header, 1), Err(Rejection::BadChecksum));
    let bad_full = Header { checksum: good.checksum ^ 0x8000, ..good };
    assert_eq!(Connection::accept_with(&bad_full, 1), Err(Rejection::BadChecksum));
}

#[test]
fn wrong_type_is_reported_before_bad_checksum() {
    let h = Header { seq: 1, ack: 2, ptype: PType::Fin, header_checksum: 0, checksum: 0 };
    assert_eq!(Connection::accept_with(&h, 1), Err(Rejection::UnexpectedType));
}

#[test]
fn accept_with_wraps_peer_sequence_number() {
    let syn = Header::sealed(u32::MAX, 0, PType::Syn, None);
    let (conn, syn_ack) = Connection::accept_with(&syn, 5).unwrap();
    assert_eq!(conn.ack, 0);
    assert_eq!(syn_ack.ack, 0);
}

#[test]
fn mismatched_ack_keeps_connection_closed() {
    for wrong in [0u32, 7000, 7002, u32::MAX] {
        let mut conn = awaiting_ack();
        let ack = Header::sealed(101, wrong, PType::Ack, None);
        assert_eq!(conn.confirm(&ack), Err(Rejection::NeedsResend));
        assert!(!conn.is_open);
        assert_eq!(conn, awaiting_ack());
    }
}

#[test]
fn ack_with_wrong_sequence_number_keeps_connection_closed() {
    let mut conn = awaiting_ack();
    let ack = Header::sealed(102, 7001, PType::Ack, None);
    assert_eq!(conn.confirm(&ack), Err(Rejection::NeedsResend));
    assert_eq!(conn, awaiting_ack());
}

#[test]
fn confirm_rejects_wrong_type_and_bad_checksum() {
    let mut conn = awaiting_ack();
    let syn = Header::sealed(101, 7001, PType::Syn, None);
    assert_eq!(conn.confirm(&syn), Err(Rejection::UnexpectedType));
    let good = Header::sealed(101, 7001, PType::Ack, None);
    let bad = Header { checksum: good.checksum.wrapping_add(1), ..good };
    assert_eq!(conn.confirm(&bad), Err(Rejection::BadChecksum));
    let bad = Header { header_checksum: good.header_checksum.wrapping_add(1), ..good };
    assert_eq!(conn.confirm(&bad), Err(Rejection::BadChecksum));
    assert_eq!(conn, awaiting_ack());
}

#[test]
fn confirm_on_open_connection_changes_nothing() {
    let mut conn = open();
    let ack = Header::sealed(101, 7002, PType::Ack, None);
    assert_eq!(conn.confirm(&ack), Err(Rejection::UnexpectedType));
    assert_eq!(conn, open());
}

#[test]
fn confirm_wraps_local_sequence_number() {
    let mut conn =
        Connection { seq: u32::MAX, ack: 1, previous_seq: u32::MAX, is_open: false, last_response: 5 };
    let ack = Header::sealed(1, 0, PType::Ack, None);
    assert_eq!(conn.confirm(&ack), Ok(()));
    assert!(conn.is_open);
    assert_eq!(conn.seq, 0);
}

#[test]
fn receive_before_open_is_rejected() {
    let mut conn = awaiting_ack();
    let psh = Header::sealed(101, 7000, PType::Psh, Some(b"x"));
    assert_eq!(conn.receive(&psh, b"x"), Err(Rejection::UnexpectedType));
    assert_eq!(conn, awaiting_ack());
}

#[test]
fn receive_rejections_leave_connection_unchanged() {
    let mut conn = open();
    let fin = Header::sealed(101, 7001, PType::Fin, Some(b"abc"));
    assert_eq!(conn.receive(&fin, b"abc"), Err(Rejection::UnexpectedType));
    let psh = Header::sealed(101, 7001, PType::Psh, Some(b"abc"));
    assert_eq!(conn.receive(&psh, b"abd"), Err(Rejection::BadChecksum));
    assert_eq!(conn.receive(&psh, b"ab"), Err(Rejection::BadChecksum));
    let stale = Header::sealed(101, 7000, PType::Psh, Some(b"abc"));
    assert_eq!(conn.receive(&stale, b"abc"), Err(Rejection::NeedsResend));
    assert_eq!(conn, open());
}

#[test]
fn receive_with_empty_payload_advances_nothing() {
    let mut conn = open();
    let psh = Header::sealed(101, 7001, PType::Psh, None);
    let echo = conn.receive(&psh, &[]).unwrap();
    assert_eq!(echo, Header::sealed(7001, 101, PType::Psh, None));
    assert_eq!(conn, open());
}

#[test]
fn receive_wraps_counters() {
    let mut conn = Connection {
        seq: u32::MAX - 1,
        ack: u32::MAX,
        previous_seq: 0,
        is_open: true,
        last_response: 5,
    };
    let psh = Header::sealed(7, u32::MAX - 1, PType::Psh, Some(&[1, 2, 3, 4]));
    let echo = conn.receive(&psh, &[1, 2, 3, 4]).unwrap();
    assert_eq!(echo.seq, u32::MAX - 1);
    assert_eq!(echo.ack, 3);
    assert_eq!(conn.ack, 3);
    assert_eq!(conn.seq, 2);
    assert!(echo.verify_checksum(Some(&[1, 2, 3, 4])));
}
