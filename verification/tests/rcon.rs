use portal_server_agent::rcon::{
    decode_payload, encode_packet, packet_size, Packet, Progress, RconError, Session, COMMAND_ID,
    MAX_RESPONSE_BYTES, SENTINEL_ID, SERVERDATA_EXECCOMMAND, SERVERDATA_RESPONSE_VALUE,
};

fn packet(id: i32, ptype: i32, body: &[u8]) -> Packet {
    Packet { id, ptype, body: body.to_vec() }
}

/// A session for `command` whose password has been accepted.
fn authenticated(command: &str) -> Session {
    let (mut session, _) = Session::open("secret", command).unwrap();
    match session.receive(packet(1, SERVERDATA_EXECCOMMAND, b"")) {
        Progress::Send(_, _) => session,
        _ => panic!("not authenticated"),
    }
}

fn is_read(progress: Progress) -> bool {
    matches!(progress, Progress::Read)
}

#[test]
fn packets_are_encoded_little_endian() {
    assert_eq!(
        encode_packet(10, 2, "hi").unwrap(),
        vec![12, 0, 0, 0, 10, 0, 0, 0, 2, 0, 0, 0, b'h', b'i', 0, 0]
    );
    assert_eq!(
        encode_packet(-2, 0x01020304, "").unwrap(),
        vec![10, 0, 0, 0, 0xfe, 0xff, 0xff, 0xff, 4, 3, 2, 1, 0, 0]
    );
    assert_eq!(encode_packet(1, 3, "é").unwrap()[0], 12);
    assert_eq!(&encode_packet(1, 3, &"x".repeat(700)).unwrap()[..4], &[0xc6, 2, 0, 0]);
}

#[test]
fn packets_survive_the_wire() {
    for (id, ptype, body) in [(1, 3, "pw"), (-1, 2, ""), (i32::MIN, i32::MAX, "é\n"), (256, -65536, "x")] {
        let bytes = encode_packet(id, ptype, body).unwrap();
        let size = packet_size([bytes[0], bytes[1], bytes[2], bytes[3]]).unwrap();
        assert_eq!(size, bytes.len() - 4);
        let back = decode_payload(&bytes[4..]);
        assert_eq!((back.id, back.ptype), (id, ptype));
        assert_eq!(back.body, body.as_bytes());
    }
}

#[test]
fn implausible_sizes_are_refused() {
    for size in [10, 11, 4096, 4110] {
        assert_eq!(packet_size(i32::to_le_bytes(size)).unwrap(), size as usize);
    }
    for size in [9, 0, -1, 4111, i32::MAX, i32::MIN] {
        match packet_size(i32::to_le_bytes(size)) {
            Err(e) => {
                assert!(matches!(e, RconError::ImplausibleSize(s) if s == size));
                assert_eq!(e.message(), format!("implausible rcon packet size: {size}"));
            }
            Ok(n) => panic!("{n}"),
        }
    }
}

#[test]
fn passwords_come_first() {
    let (mut session, auth) = Session::open("secret", "status").unwrap();
    assert_eq!(auth, encode_packet(1, 3, "secret").unwrap());
    // Whatever comes before the authentication response is skipped.
    assert!(is_read(session.receive(packet(1, SERVERDATA_RESPONSE_VALUE, b"early"))));
    assert!(is_read(session.receive(packet(SENTINEL_ID, SERVERDATA_RESPONSE_VALUE, b""))));
    match session.receive(packet(1, SERVERDATA_EXECCOMMAND, b"")) {
        Progress::Send(command, sentinel) => {
            assert_eq!(command, encode_packet(10, 2, "status").unwrap());
            assert_eq!(sentinel, encode_packet(11, 0, "").unwrap());
        }
        _ => panic!("nothing sent"),
    }
}

#[test]
fn bad_passwords_end_the_exchange() {
    let (mut session, _) = Session::open("wrong", "status").unwrap();
    assert!(is_read(session.receive(packet(-1, SERVERDATA_RESPONSE_VALUE, b""))));
    match session.receive(packet(-1, SERVERDATA_EXECCOMMAND, b"")) {
        Progress::Failed(e) => {
            assert_eq!(e.message(), "rcon authentication failed (bad password)");
        }
        _ => panic!("accepted"),
    }
}

#[test]
fn responses_are_put_together_until_the_sentinel() {
    let mut session = authenticated("status");
    assert!(is_read(session.receive(packet(COMMAND_ID, SERVERDATA_RESPONSE_VALUE, b"hostname: "))));
    // Packets of other ids or types are no part of the response.
    assert!(is_read(session.receive(packet(COMMAND_ID, SERVERDATA_EXECCOMMAND, b"no"))));
    assert!(is_read(session.receive(packet(7, SERVERDATA_RESPONSE_VALUE, b"no"))));
    // The two bytes of a character may come in two packets.
    assert!(is_read(session.receive(packet(COMMAND_ID, SERVERDATA_RESPONSE_VALUE, b"Caf\xc3"))));
    assert!(is_read(session.receive(packet(COMMAND_ID, SERVERDATA_RESPONSE_VALUE, b"\xa9"))));
    match session.receive(packet(SENTINEL_ID, SERVERDATA_RESPONSE_VALUE, b"ignored")) {
        Progress::Done(text) => assert_eq!(text, "hostname: Café"),
        _ => panic!("not done"),
    }
}

#[test]
fn invalid_bytes_are_replaced() {
    let mut session = authenticated("status");
    assert!(is_read(session.receive(packet(COMMAND_ID, SERVERDATA_RESPONSE_VALUE, b"a\xffb"))));
    match session.receive(packet(SENTINEL_ID, SERVERDATA_RESPONSE_VALUE, b"")) {
        Progress::Done(text) => assert_eq!(text, "a\u{fffd}b"),
        _ => panic!("not done"),
    }
}

#[test]
fn endless_responses_are_refused() {
    let mut session = authenticated("status");
    let full = vec![b'x'; MAX_RESPONSE_BYTES];
    assert!(is_read(session.receive(packet(COMMAND_ID, SERVERDATA_RESPONSE_VALUE, &full))));
    assert!(is_read(session.receive(packet(COMMAND_ID, SERVERDATA_RESPONSE_VALUE, b""))));
    match session.receive(packet(COMMAND_ID, SERVERDATA_RESPONSE_VALUE, b"x")) {
        Progress::Failed(e) => assert_eq!(e.message(), "rcon response exceeded 1048576 bytes"),
        _ => panic!("accepted"),
    }
}

#[test]
fn errors_have_their_words() {
    let message = |e: RconError| e.message();
    assert_eq!(
        message(RconError::Connect("127.0.0.1:27015".to_string())),
        "connecting to rcon at 127.0.0.1:27015"
    );
    assert_eq!(message(RconError::Io("broken pipe".to_string())), "broken pipe");
    assert_eq!(message(RconError::WriteTimeout), "rcon write timeout");
    assert_eq!(message(RconError::ReadTimeout), "rcon read timeout");
    assert_eq!(message(RconError::PacketTooLarge), "packet too large");
    assert_eq!(message(RconError::ImplausibleSize(-7)), "implausible rcon packet size: -7");
}
