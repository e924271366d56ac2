use facio::client::{
    check_auth, recv_auth, AuthCheck, AuthState, Exchange, Handshake, Progress, RconClient,
    CONTROL_ID, START_ID,
};
use facio::error::RconError;
use facio::raw_packet::RawPacket;

fn auth_response(id: i32) -> RawPacket {
    RawPacket::new_response_auth(id, "").unwrap()
}

fn value_response(id: i32, body: &str) -> RawPacket {
    RawPacket::new_response_value(id, body).unwrap()
}

fn wire(packets: &[RawPacket]) -> Vec<u8> {
    let mut out = Vec::new();
    for p in packets {
        p.serialize(&mut out);
    }
    out
}

/// Splits what a peer sent into packets, frame by frame, as a reader of a stream does.
fn read_packets(mut stream: &[u8]) -> Vec<RawPacket> {
    let mut packets = Vec::new();
    while !stream.is_empty() {
        let size = RawPacket::read_size(stream).unwrap();
        let (frame, rest) = stream.split_at(size + 4);
        packets.push(RawPacket::deserialize(frame).unwrap());
        stream = rest;
    }
    packets
}

fn handshake_with(replies: &[RawPacket]) -> Handshake {
    let (mut handshake, _) = Handshake::begin("mypass").unwrap();
    handshake.sent();
    for p in replies {
        if handshake.state().is_terminal() {
            break;
        }
        handshake.receive(p);
    }
    handshake
}

fn session(safe_command: Option<&str>) -> RconClient {
    RconClient::open(handshake_with(&[auth_response(START_ID)]), safe_command).unwrap()
}

fn started(command: &str) -> Exchange {
    session(None).exec(command).unwrap().0
}

fn completed(progress: Progress) -> (RconClient, String) {
    match progress {
        Progress::Complete(client, text) => (client, text),
        Progress::Pending(_) => panic!("the response is not complete"),
    }
}

fn pending(progress: Progress) -> Exchange {
    match progress {
        Progress::Pending(exchange) => exchange,
        Progress::Complete(_, _) => panic!("the response is complete"),
    }
}

#[test]
fn check_auth_classifies_by_type_and_id() {
    assert_eq!(check_auth(0, &auth_response(0)), AuthCheck::Valid);
    assert_eq!(check_auth(0, &auth_response(-1)), AuthCheck::Invalid);
    assert_eq!(check_auth(7, &auth_response(0)), AuthCheck::Invalid);
    assert_eq!(check_auth(0, &value_response(0, "")), AuthCheck::NoAuth);
    assert_eq!(check_auth(0, &RawPacket::new(0, 3, "").unwrap()), AuthCheck::NoAuth);
    assert_eq!(check_auth(0, &RawPacket::new(0, 99, "").unwrap()), AuthCheck::NoAuth);
}

#[test]
fn handshake_begins_with_the_auth_request() {
    let (handshake, request) = Handshake::begin("mypass").unwrap();
    assert_eq!(handshake.state(), AuthState::SentAuth);
    assert_eq!(handshake.login_id(), START_ID);
    assert_eq!(request, wire(&[RawPacket::new(START_ID, 3, "mypass").unwrap()]));
    assert_eq!(
        request,
        vec![16, 0, 0, 0, 0, 0, 0, 0, 3, 0, 0, 0, b'm', b'y', b'p', b'a', b's', b's', 0, 0]
    );
}

#[test]
fn handshake_rejects_a_password_that_is_too_long() {
    assert_eq!(Handshake::begin(&"p".repeat(4087)).unwrap_err(), RconError::BodyTooLarge);
    assert!(Handshake::begin(&"p".repeat(4086)).is_ok());
}

#[test]
fn handshake_awaits_the_first_packet_once_sent() {
    let (mut handshake, _) = Handshake::begin("mypass").unwrap();
    handshake.receive(&auth_response(START_ID));
    assert_eq!(handshake.state(), AuthState::SentAuth);
    handshake.sent();
    assert_eq!(handshake.state(), AuthState::AwaitingFirst);
    handshake.sent();
    assert_eq!(handshake.state(), AuthState::AwaitingFirst);
}

#[test]
fn handshake_accepts_auth_response_alone() {
    let handshake = handshake_with(&[auth_response(START_ID)]);
    assert_eq!(handshake.state(), AuthState::Authenticated);
    assert_eq!(recv_auth(&[auth_response(START_ID)], START_ID), Ok(true));
}

#[test]
fn handshake_accepts_value_response_then_auth_response() {
    let replies = [value_response(START_ID, ""), auth_response(START_ID)];
    assert_eq!(handshake_with(&replies[..1]).state(), AuthState::AwaitingSecond);
    assert_eq!(handshake_with(&replies).state(), AuthState::Authenticated);
    assert_eq!(recv_auth(&replies, START_ID), Ok(true));
}

#[test]
fn handshake_reports_two_value_responses_as_protocol_error() {
    let replies = [value_response(START_ID, ""), value_response(START_ID, "")];
    assert_eq!(handshake_with(&replies).state(), AuthState::ProtocolError);
    assert_eq!(recv_auth(&replies, START_ID), Err(RconError::AuthenticationProtocolError));
}

#[test]
fn handshake_reports_auth_response_under_another_id_as_rejected() {
    let replies = [auth_response(-1)];
    assert_eq!(handshake_with(&replies).state(), AuthState::Rejected);
    assert_eq!(recv_auth(&replies, START_ID), Ok(false));
    let late = [value_response(START_ID, ""), auth_response(-1)];
    assert_eq!(handshake_with(&late).state(), AuthState::Rejected);
    assert_eq!(recv_auth(&late, START_ID), Ok(false));
}

#[test]
fn handshake_that_is_over_takes_no_packet() {
    for settled in [
        vec![auth_response(START_ID)],
        vec![auth_response(5)],
        vec![value_response(0, ""), value_response(0, "")],
    ] {
        let mut handshake = handshake_with(&settled);
        let state = handshake.state();
        assert!(state.is_terminal());
        handshake.receive(&auth_response(START_ID));
        handshake.receive(&auth_response(9));
        handshake.sent();
        assert_eq!(handshake.state(), state);
    }
    let more = [auth_response(-1), auth_response(START_ID)];
    assert_eq!(recv_auth(&more, START_ID), Ok(false));
}

#[test]
fn recv_auth_reports_a_stream_that_ends_early() {
    assert_eq!(recv_auth(&[], START_ID), Err(RconError::IoFailure));
    assert_eq!(recv_auth(&[value_response(0, "")], START_ID), Err(RconError::IoFailure));
}

#[test]
fn recv_auth_compares_with_the_given_id() {
    assert_eq!(recv_auth(&[auth_response(41)], 41), Ok(true));
    assert_eq!(recv_auth(&[auth_response(START_ID)], 41), Ok(false));
}

#[test]
fn states_that_end_the_handshake() {
    assert!(!AuthState::SentAuth.is_terminal());
    assert!(!AuthState::AwaitingFirst.is_terminal());
    assert!(!AuthState::AwaitingSecond.is_terminal());
    assert!(AuthState::Authenticated.is_terminal());
    assert!(AuthState::Rejected.is_terminal());
    assert!(AuthState::ProtocolError.is_terminal());
}

#[test]
fn handshake_over_the_wire() {
    let (mut handshake, _) = Handshake::begin("mypass").unwrap();
    handshake.sent();
    let sent_by_peer = wire(&[value_response(START_ID, ""), auth_response(START_ID)]);
    for p in read_packets(&sent_by_peer) {
        handshake.receive(&p);
    }
    assert_eq!(handshake.state(), AuthState::Authenticated);
}

#[test]
fn open_uses_the_safe_command_as_control_packet() {
    let client = session(Some("echo"));
    assert_eq!(client.control_packet(), &RawPacket::new(CONTROL_ID, 2, "echo").unwrap());
}

#[test]
fn open_falls_back_to_an_empty_value_response() {
    let client = session(None);
    assert_eq!(client.control_packet(), &RawPacket::new(CONTROL_ID, 0, "").unwrap());
    assert_eq!(client.control_packet().pid(), -1);
}

#[test]
fn open_reports_how_the_handshake_ended() {
    let rejected = handshake_with(&[auth_response(3)]);
    assert_eq!(
        RconClient::open(rejected, Some("echo")).unwrap_err(),
        RconError::AuthenticationRejected
    );
    let silent = handshake_with(&[value_response(0, ""), value_response(0, "")]);
    assert_eq!(
        RconClient::open(silent, None).unwrap_err(),
        RconError::AuthenticationProtocolError
    );
}

#[test]
fn open_reports_a_handshake_that_did_not_end() {
    let (fresh, _) = Handshake::begin("mypass").unwrap();
    assert_eq!(RconClient::open(fresh, None).unwrap_err(), RconError::IoFailure);
    assert_eq!(RconClient::open(handshake_with(&[]), None).unwrap_err(), RconError::IoFailure);
    let half = handshake_with(&[value_response(0, "")]);
    assert_eq!(RconClient::open(half, None).unwrap_err(), RconError::IoFailure);
}

#[test]
fn open_rejects_a_safe_command_that_is_too_long() {
    let long = "c".repeat(4087);
    let handshake = handshake_with(&[auth_response(START_ID)]);
    assert_eq!(RconClient::open(handshake, Some(&long)).unwrap_err(), RconError::BodyTooLarge);
    let rejected = handshake_with(&[auth_response(3)]);
    assert_eq!(
        RconClient::open(rejected, Some(&long)).unwrap_err(),
        RconError::AuthenticationRejected
    );
}

#[test]
fn exec_sends_the_command_and_then_the_control_packet() {
    let (_, request) = session(Some("echo")).exec("/help").unwrap();
    let expected = wire(&[
        RawPacket::new(START_ID, 2, "/help").unwrap(),
        RawPacket::new(CONTROL_ID, 2, "echo").unwrap(),
    ]);
    assert_eq!(request, expected);
    let (_, request) = session(None).exec("/help").unwrap();
    assert_eq!(
        request,
        vec![
            15, 0, 0, 0, 0, 0, 0, 0, 2, 0, 0, 0, b'/', b'h', b'e', b'l', b'p', 0, 0, //
            10, 0, 0, 0, 0xff, 0xff, 0xff, 0xff, 0, 0, 0, 0, 0, 0,
        ]
    );
}

#[test]
fn exec_rejects_a_command_that_is_too_long_and_keeps_the_session() {
    let (client, e) = session(Some("echo")).exec(&"x".repeat(4087)).unwrap_err();
    assert_eq!(e, RconError::BodyTooLarge);
    assert_eq!(client.control_packet(), &RawPacket::new(CONTROL_ID, 2, "echo").unwrap());
    assert!(client.exec(&"x".repeat(4086)).is_ok());
}

#[test]
fn exec_returns_empty_text_for_the_sentinel_alone() {
    let progress = started("/list").receive(&value_response(CONTROL_ID, ""));
    assert_eq!(completed(progress).1, "");
}

#[test]
fn exec_concatenates_fragments_up_to_the_sentinel() {
    let exchange = started("/list");
    let exchange = pending(exchange.receive(&value_response(START_ID, "He")));
    let exchange = pending(exchange.receive(&value_response(START_ID, "llo")));
    let (_, text) = completed(exchange.receive(&value_response(CONTROL_ID, "")));
    assert_eq!(text, "Hello");
}

#[test]
fn exec_stops_at_the_sentinel_without_consuming_further_packets() {
    let replies = [
        value_response(CONTROL_ID, ""),
        value_response(START_ID, "late"),
        value_response(CONTROL_ID, ""),
    ];
    let (_, text) = completed(started("/list").receive_all(&replies));
    assert_eq!(text, "");
    let (_, text) = completed(started("/list").receive(&replies[0]));
    assert_eq!(text, "");
}

#[test]
fn exec_drops_the_body_of_the_sentinel() {
    let replies = [value_response(START_ID, "a"), value_response(CONTROL_ID, "ignored")];
    assert_eq!(completed(started("/list").receive_all(&replies)).1, "a");
}

#[test]
fn exec_tells_the_sentinel_by_its_id_alone() {
    // a fragment of another type, under another id than the command's
    let replies = [
        RawPacket::new(5, 2, "x").unwrap(),
        RawPacket::new(START_ID, 9, "y").unwrap(),
        RawPacket::new(CONTROL_ID, 3, "z").unwrap(),
    ];
    assert_eq!(completed(started("/list").receive_all(&replies)).1, "xy");
}

#[test]
fn exec_stays_pending_without_the_sentinel() {
    let replies = [value_response(START_ID, "He"), value_response(START_ID, "llo")];
    let exchange = pending(started("/list").receive_all(&replies));
    let (_, text) = completed(exchange.receive(&value_response(CONTROL_ID, "")));
    assert_eq!(text, "Hello");
    assert!(matches!(started("/list").receive_all(&[]), Progress::Pending(_)));
}

#[test]
fn exec_inserts_nothing_between_fragments() {
    let replies = [
        value_response(START_ID, "line one\n"),
        value_response(START_ID, ""),
        value_response(START_ID, "gr\u{fc}\u{df}e"),
        value_response(CONTROL_ID, ""),
    ];
    assert_eq!(completed(started("/list").receive_all(&replies)).1, "line one\ngr\u{fc}\u{df}e");
}

#[test]
fn exec_repeated_against_the_same_peer_gives_the_same_text() {
    let replies = [
        value_response(START_ID, "He"),
        value_response(START_ID, "llo"),
        value_response(CONTROL_ID, ""),
    ];
    let client = session(Some("echo"));
    let (exchange, first_request) = client.exec("/greet").unwrap();
    let (client, first_text) = completed(exchange.receive_all(&replies));
    let (exchange, second_request) = client.exec("/greet").unwrap();
    let (client, second_text) = completed(exchange.receive_all(&replies));
    assert_eq!(first_request, second_request);
    assert_eq!(first_text, "Hello");
    assert_eq!(second_text, first_text);
    assert_eq!(client.control_packet(), &RawPacket::new(CONTROL_ID, 2, "echo").unwrap());
}

#[test]
fn exec_over_the_wire() {
    let sent_by_peer = wire(&[
        value_response(START_ID, "He"),
        value_response(START_ID, "llo"),
        value_response(CONTROL_ID, ""),
    ]);
    let replies = read_packets(&sent_by_peer);
    assert_eq!(replies.len(), 3);
    assert_eq!(completed(started("/greet").receive_all(&replies)).1, "Hello");
}

#[test]
fn errors_in_words() {
    assert_eq!(RconError::BodyTooLarge.description(), "Provided body data is too large.");
    assert_eq!(RconError::MalformedPacket.description(), "Malformed packet.");
    assert_eq!(RconError::IoFailure.description(), "Unexpected end of stream.");
    assert_eq!(
        RconError::AuthenticationRejected.description(),
        "Authentication failed. Wrong password."
    );
    assert_eq!(
        RconError::AuthenticationProtocolError.description(),
        "No valid authentication protocol by server."
    );
}
