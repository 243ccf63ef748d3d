use fake_mc_server::config::Config;
use fake_mc_server::error::ProtocolError;
use fake_mc_server::models::{StatusResponse, Version, VersionInfo};
use fake_mc_server::protocol::{read_packet, read_varint, write_packet, write_varint_to_vec, Packet};
use fake_mc_server::server::{
    frame_document, handle_client, handle_handshake, handle_login, handle_ping, handle_status,
    on_packet, Connection, ConnectionState,
};
use serde_json::Value;

fn handshake(version: i32, next: i32) -> Vec<u8> {
    let mut payload = Vec::new();
    write_varint_to_vec(&mut payload, version);
    write_varint_to_vec(&mut payload, 9);
    payload.extend_from_slice(b"localhost");
    payload.extend_from_slice(&25565u16.to_be_bytes());
    write_varint_to_vec(&mut payload, next);
    write_packet(0, &payload).unwrap()
}

fn status_request() -> Vec<u8> {
    write_packet(0, &[]).unwrap()
}

fn ping(payload: &[u8]) -> Vec<u8> {
    write_packet(1, payload).unwrap()
}

fn joined(parts: &[Vec<u8>]) -> Vec<u8> {
    parts.concat()
}

fn packets(mut bytes: &[u8]) -> Vec<(i32, Vec<u8>)> {
    let mut found = Vec::new();
    while !bytes.is_empty() {
        let (Packet { id, payload }, used) = read_packet(bytes).unwrap();
        found.push((id, payload));
        bytes = &bytes[used..];
    }
    found
}

fn document(payload: &[u8]) -> Value {
    let (len, used) = read_varint(payload).unwrap();
    assert_eq!(len as usize, payload.len() - used);
    serde_json::from_slice(&payload[used..]).unwrap()
}

fn fixed_config(protocol: i32) -> Config {
    let mut config = Config::default();
    config.default = false;
    config.status.version = Version {
        info: Some(VersionInfo { name: "Paper 1.20.1".to_string(), protocol: Some(protocol) }),
        same: None,
    };
    config.status.favicon = None;
    config
}

fn packet(id: i32, payload: &[u8]) -> Packet {
    Packet { id, payload: payload.to_vec() }
}

#[test]
fn status_with_auto_version_echoes_the_client() {
    let config = Config::default();
    for version in [47, 340, 762, 0, -1] {
        let outcome = handle_client(&config, &joined(&[handshake(version, 1), status_request()]));
        assert_eq!(outcome.error, None);
        let sent = packets(&outcome.written);
        assert_eq!(sent.len(), 1);
        assert_eq!(sent[0].0, 0);
        let status = document(&sent[0].1);
        assert_eq!(status["version"]["protocol"].as_i64(), Some(version as i64));
        assert_eq!(status["version"]["name"].as_str(), Some("1.19.4"));
        assert_eq!(status["players"]["max"].as_i64(), Some(20));
        assert_eq!(status["players"]["online"].as_i64(), Some(0));
        assert_eq!(status["description"].as_str(), Some("\u{a7}cFake Minecraft Server"));
    }
}

#[test]
fn status_with_fixed_version_ignores_the_client() {
    let config = fixed_config(763);
    for version in [47, 340, 762, 763] {
        let outcome = handle_client(&config, &joined(&[handshake(version, 1), status_request()]));
        assert_eq!(outcome.error, None);
        let sent = packets(&outcome.written);
        assert_eq!(sent.len(), 1);
        let status = document(&sent[0].1);
        assert_eq!(status["version"]["protocol"].as_i64(), Some(763));
        assert_eq!(status["version"]["name"].as_str(), Some("Paper 1.20.1"));
        assert!(status.get("favicon").is_none());
    }
}

#[test]
fn status_response_bytes_are_exact() {
    let mut config = Config::default();
    config.status =
        StatusResponse { version: Version::default(), players: None, motd: None, favicon: None };
    let outcome = handle_client(&config, &joined(&[handshake(5, 1), status_request()]));
    let text = "{\"version\":{\"name\":\"1.19.4\",\"protocol\":5}}";
    let mut expected = vec![(text.len() + 2) as u8, 0x00, text.len() as u8];
    expected.extend_from_slice(text.as_bytes());
    assert_eq!(outcome.written, expected);
    assert_eq!(outcome.error, None);
}

#[test]
fn ping_after_status_is_echoed() {
    let config = Config::default();
    let input = joined(&[handshake(762, 1), status_request(), ping(&[1, 2, 3, 4, 5, 6, 7, 8])]);
    let outcome = handle_client(&config, &input);
    assert_eq!(outcome.error, None);
    let sent = packets(&outcome.written);
    assert_eq!(sent.len(), 2);
    assert_eq!(sent[0].0, 0);
    assert_eq!(sent[1], (1, vec![1, 2, 3, 4, 5, 6, 7, 8]));
    assert!(outcome.written.ends_with(&[0x09, 0x01, 1, 2, 3, 4, 5, 6, 7, 8]));
}

#[test]
fn pong_echoes_the_last_eight_bytes_of_a_longer_ping() {
    let step = handle_ping(&packet(1, &[9, 9, 1, 2, 3, 4, 5, 6, 7, 8]));
    assert_eq!(step.written, vec![0x09, 0x01, 1, 2, 3, 4, 5, 6, 7, 8]);
    assert_eq!(step.next, ConnectionState::Closed);
    assert_eq!(step.error, None);
}

#[test]
fn short_ping_gets_no_pong_and_is_no_error() {
    let config = Config::default();
    for len in 0..8 {
        let input = joined(&[handshake(762, 1), status_request(), ping(&vec![7u8; len])]);
        let outcome = handle_client(&config, &input);
        assert_eq!(outcome.error, None);
        assert_eq!(packets(&outcome.written).len(), 1);
    }
}

#[test]
fn status_without_ping_is_no_error() {
    let config = Config::default();
    let outcome = handle_client(&config, &joined(&[handshake(762, 1), status_request()]));
    assert_eq!(outcome.error, None);
    assert_eq!(packets(&outcome.written).len(), 1);
}

#[test]
fn nothing_is_answered_after_the_pong() {
    let config = Config::default();
    let input = joined(&[
        handshake(762, 1),
        status_request(),
        ping(&[1, 2, 3, 4, 5, 6, 7, 8]),
        ping(&[8, 7, 6, 5, 4, 3, 2, 1]),
        status_request(),
    ]);
    let outcome = handle_client(&config, &input);
    assert_eq!(outcome.error, None);
    let sent = packets(&outcome.written);
    assert_eq!(sent.len(), 2);
    assert_eq!(sent[1], (1, vec![1, 2, 3, 4, 5, 6, 7, 8]));
}

#[test]
fn status_request_may_have_any_id_and_payload() {
    let config = Config::default();
    let plain = handle_client(&config, &joined(&[handshake(4, 1), status_request()]));
    let odd = handle_client(&config, &joined(&[handshake(4, 1), write_packet(9, &[1, 2]).unwrap()]));
    assert_eq!(plain.written, odd.written);
    assert_eq!(odd.error, None);
}

#[test]
fn login_is_answered_with_the_kick_message() {
    let mut config = Config::default();
    config.kick_msg = "Go \"away\"\nplease".to_string();
    for login_start in [vec![], vec![5, b'S', b't', b'e', b'v', b'e'], vec![0xffu8; 100]] {
        let input = joined(&[handshake(762, 2), write_packet(0, &login_start).unwrap()]);
        let outcome = handle_client(&config, &input);
        assert_eq!(outcome.error, None);
        let sent = packets(&outcome.written);
        assert_eq!(sent.len(), 1);
        assert_eq!(sent[0].0, 0);
        let reason = document(&sent[0].1);
        assert_eq!(reason["text"].as_str(), Some("Go \"away\"\nplease"));
        assert_eq!(reason.as_object().unwrap().len(), 1);
    }
}

#[test]
fn login_with_the_default_kick_message() {
    let config = Config::default();
    let input = joined(&[handshake(762, 2), write_packet(0, b"\x04Alex").unwrap()]);
    let outcome = handle_client(&config, &input);
    let sent = packets(&outcome.written);
    assert_eq!(sent.len(), 1);
    assert_eq!(
        document(&sent[0].1)["text"].as_str(),
        Some("\u{a7}c\u{a7}lThis is a fake server!\n\u{a7}eIt only responds to ping requests.")
    );
}

#[test]
fn nothing_is_answered_after_the_disconnect() {
    let config = Config::default();
    let input = joined(&[
        handshake(762, 2),
        write_packet(0, b"\x04Alex").unwrap(),
        write_packet(0, b"\x04Alex").unwrap(),
        ping(&[1, 2, 3, 4, 5, 6, 7, 8]),
    ]);
    let outcome = handle_client(&config, &input);
    assert_eq!(outcome.error, None);
    assert_eq!(packets(&outcome.written).len(), 1);
}

#[test]
fn unknown_next_state_writes_nothing() {
    let config = Config::default();
    for next in [3, 0, 4, -1, 255] {
        let outcome = handle_client(&config, &handshake(762, next));
        assert!(outcome.written.is_empty());
        assert_eq!(outcome.error, None);
        let outcome =
            handle_client(&config, &joined(&[handshake(762, next), status_request(), ping(&[0; 8])]));
        assert!(outcome.written.is_empty());
        assert_eq!(outcome.error, None);
    }
    let mut connection = Connection::new();
    let outcome = connection.receive(&config, &handshake(762, 3));
    assert!(outcome.written.is_empty());
    assert_eq!(outcome.error, None);
    assert!(connection.is_closed());
}

#[test]
fn first_packet_that_is_no_handshake_closes_in_silence() {
    let config = Config::default();
    let outcome = handle_client(&config, &joined(&[ping(&[0; 8]), status_request()]));
    assert!(outcome.written.is_empty());
    assert_eq!(outcome.error, None);
}

#[test]
fn malformed_input_closes_without_an_answer() {
    let config = Config::default();
    let outcome = handle_client(&config, &[0xff, 0xff, 0xff, 0xff, 0xff, 0xff]);
    assert!(outcome.written.is_empty());
    assert_eq!(outcome.error, Some(ProtocolError::MalformedVarInt));
    let outcome = handle_client(&config, &[0xff, 0xff, 0xff, 0xff, 0x0f]);
    assert_eq!(outcome.error, Some(ProtocolError::InvalidLength));
    let outcome = handle_client(&config, &[0x03, 0x00, 0x80, 0x80]);
    assert!(outcome.written.is_empty());
    assert_eq!(outcome.error, Some(ProtocolError::UnexpectedEndOfStream));
}

#[test]
fn malformed_input_after_the_status_keeps_what_was_sent() {
    let config = Config::default();
    let good = handle_client(&config, &joined(&[handshake(1, 1), status_request()]));
    let input = joined(&[handshake(1, 1), status_request(), vec![0x80, 0x80, 0x80, 0x80, 0x80]]);
    let outcome = handle_client(&config, &input);
    assert_eq!(outcome.written, good.written);
    assert_eq!(outcome.error, Some(ProtocolError::MalformedVarInt));
}

#[test]
fn client_that_stops_short_is_an_unexpected_end() {
    let config = Config::default();
    assert_eq!(handle_client(&config, &[]).error, Some(ProtocolError::UnexpectedEndOfStream));
    let whole = handshake(762, 1);
    for cut in 0..whole.len() {
        let outcome = handle_client(&config, &whole[..cut]);
        assert!(outcome.written.is_empty());
        assert_eq!(outcome.error, Some(ProtocolError::UnexpectedEndOfStream));
    }
}

#[test]
fn request_that_is_cut_off_is_an_unexpected_end() {
    let config = Config::default();
    for next in [1, 2] {
        let input = joined(&[handshake(762, next), vec![0x05, 0x00, 0x01]]);
        let outcome = handle_client(&config, &input);
        assert!(outcome.written.is_empty());
        assert_eq!(outcome.error, Some(ProtocolError::UnexpectedEndOfStream));
    }
}

#[test]
fn status_request_that_never_comes_is_tolerated() {
    let config = Config::default();
    let silent = handle_client(&config, &handshake(762, 1));
    let asked = handle_client(&config, &joined(&[handshake(762, 1), status_request()]));
    assert_eq!(silent.error, None);
    assert_eq!(silent.written, asked.written);
    let sent = packets(&silent.written);
    assert_eq!(sent.len(), 1);
    assert_eq!(document(&sent[0].1)["version"]["protocol"].as_i64(), Some(762));
}

#[test]
fn login_start_that_never_comes_is_tolerated() {
    let config = Config::default();
    let silent = handle_client(&config, &handshake(762, 2));
    let started = handle_client(
        &config,
        &joined(&[handshake(762, 2), write_packet(0, b"\x04Alex").unwrap()]),
    );
    assert_eq!(silent.error, None);
    assert_eq!(silent.written, started.written);
    assert_eq!(packets(&silent.written).len(), 1);
}

#[test]
fn half_a_ping_is_no_error() {
    let config = Config::default();
    let input = joined(&[handshake(762, 1), status_request(), vec![0x09, 0x01, 1, 2, 3]]);
    let outcome = handle_client(&config, &input);
    assert_eq!(outcome.error, None);
    assert_eq!(packets(&outcome.written).len(), 1);
}

#[test]
fn bytes_may_arrive_one_at_a_time() {
    let config = Config::default();
    let input = joined(&[handshake(762, 1), status_request(), ping(&[1, 2, 3, 4, 5, 6, 7, 8])]);
    let whole = handle_client(&config, &input);
    let mut connection = Connection::new();
    let mut written = Vec::new();
    for byte in &input {
        assert!(!connection.is_closed());
        let outcome = connection.receive(&config, &[*byte]);
        assert_eq!(outcome.error, None);
        written.extend_from_slice(&outcome.written);
    }
    assert!(connection.is_closed());
    assert_eq!(written, whole.written);
    let last = connection.end_of_input(&config);
    assert!(last.written.is_empty());
    assert_eq!(last.error, None);
}

#[test]
fn connection_walks_through_its_states() {
    let config = Config::default();
    let mut connection = Connection::new();
    assert_eq!(connection.state(), ConnectionState::Handshake);
    assert!(connection.receive(&config, &handshake(340, 1)).written.is_empty());
    assert_eq!(connection.state(), ConnectionState::Status { protocol_version: 340 });
    let outcome = connection.receive(&config, &status_request());
    assert_eq!(packets(&outcome.written).len(), 1);
    assert_eq!(connection.state(), ConnectionState::Ping);
    let outcome = connection.receive(&config, &ping(&[1, 2, 3, 4, 5, 6, 7, 8]));
    assert_eq!(outcome.written, vec![0x09, 0x01, 1, 2, 3, 4, 5, 6, 7, 8]);
    assert_eq!(connection.state(), ConnectionState::Closed);
    let outcome = connection.receive(&config, &ping(&[1, 2, 3, 4, 5, 6, 7, 8]));
    assert!(outcome.written.is_empty());
    assert_eq!(outcome.error, None);
    assert_eq!(connection.state(), ConnectionState::Closed);
}

#[test]
fn login_connection_closes_after_the_disconnect() {
    let config = Config::default();
    let mut connection = Connection::new();
    connection.receive(&config, &handshake(340, 2));
    assert_eq!(connection.state(), ConnectionState::Login);
    let outcome = connection.receive(&config, &write_packet(0, b"\x03Bob").unwrap());
    assert_eq!(packets(&outcome.written).len(), 1);
    assert!(connection.is_closed());
}

#[test]
fn end_of_input_closes_from_every_state() {
    let config = Config::default();
    let mut connection = Connection::new();
    let outcome = connection.end_of_input(&config);
    assert!(outcome.written.is_empty());
    assert_eq!(outcome.error, Some(ProtocolError::UnexpectedEndOfStream));
    assert!(connection.is_closed());
    let outcome = connection.end_of_input(&config);
    assert!(outcome.written.is_empty());
    assert_eq!(outcome.error, None);

    let mut connection = Connection::new();
    connection.receive(&config, &handshake(1, 1));
    let outcome = connection.end_of_input(&config);
    assert_eq!(outcome.error, None);
    assert_eq!(document(&packets(&outcome.written)[0].1)["version"]["protocol"].as_i64(), Some(1));
    assert!(connection.is_closed());

    let mut connection = Connection::new();
    connection.receive(&config, &joined(&[handshake(1, 1), vec![0x02]]));
    let outcome = connection.end_of_input(&config);
    assert!(outcome.written.is_empty());
    assert_eq!(outcome.error, Some(ProtocolError::UnexpectedEndOfStream));
    assert!(connection.is_closed());

    let mut connection = Connection::new();
    connection.receive(&config, &joined(&[handshake(1, 1), status_request()]));
    let outcome = connection.end_of_input(&config);
    assert!(outcome.written.is_empty());
    assert_eq!(outcome.error, None);
    assert!(connection.is_closed());

    let mut connection = Connection::new();
    connection.receive(&config, &joined(&[handshake(1, 1), status_request(), vec![0x09, 0x01]]));
    let outcome = connection.end_of_input(&config);
    assert!(outcome.written.is_empty());
    assert_eq!(outcome.error, None);
    assert!(connection.is_closed());

    let mut connection = Connection::new();
    connection.receive(&config, &handshake(1, 2));
    let outcome = connection.end_of_input(&config);
    assert_eq!(outcome.error, None);
    assert_eq!(
        document(&packets(&outcome.written)[0].1)["text"].as_str(),
        Some(config.kick_msg.as_str())
    );
    assert!(connection.is_closed());

    let mut connection = Connection::new();
    connection.receive(&config, &joined(&[handshake(1, 2), vec![0x80]]));
    let outcome = connection.end_of_input(&config);
    assert!(outcome.written.is_empty());
    assert_eq!(outcome.error, Some(ProtocolError::UnexpectedEndOfStream));
}

#[test]
fn steps_by_state() {
    let config = fixed_config(5);
    let step = handle_handshake(&packet(0, &handshake(47, 1)[2..]));
    assert_eq!(step.next, ConnectionState::Status { protocol_version: 47 });
    assert!(step.written.is_empty());
    let step = handle_handshake(&packet(0, &handshake(47, 2)[2..]));
    assert_eq!(step.next, ConnectionState::Login);
    let step = handle_handshake(&packet(0, &handshake(47, 3)[2..]));
    assert_eq!((step.next, step.error), (ConnectionState::Closed, None));
    let step = handle_handshake(&packet(1, &handshake(47, 1)[2..]));
    assert_eq!((step.next, step.error), (ConnectionState::Closed, None));
    let step = handle_handshake(&packet(0, &[0x00]));
    assert_eq!(
        (step.next, step.error),
        (ConnectionState::Closed, Some(ProtocolError::UnexpectedEndOfStream))
    );

    let step = handle_status(&config, 47);
    assert_eq!((step.next, step.error), (ConnectionState::Ping, None));
    assert_eq!(document(&packets(&step.written)[0].1)["version"]["protocol"].as_i64(), Some(5));

    let step = handle_login(&config);
    assert_eq!((step.next, step.error), (ConnectionState::Closed, None));
    assert_eq!(
        document(&packets(&step.written)[0].1)["text"].as_str(),
        Some(config.kick_msg.as_str())
    );

    let step = on_packet(&config, ConnectionState::Closed, &packet(0, &[]));
    assert_eq!((step.next, step.error), (ConnectionState::Closed, None));
    assert!(step.written.is_empty());
    let step = on_packet(&config, ConnectionState::Ping, &packet(1, &[0; 7]));
    assert!(step.written.is_empty());
    let step = on_packet(&config, ConnectionState::Status { protocol_version: 1 }, &packet(0, &[]));
    assert_eq!(step.next, ConnectionState::Ping);
}

#[test]
fn a_document_is_framed_and_an_error_passed_on() {
    assert_eq!(frame_document(Ok("{}".to_string())), Ok(vec![0x04, 0x00, 0x02, b'{', b'}']));
    assert_eq!(
        frame_document(Err(ProtocolError::SerializationFailure)),
        Err(ProtocolError::SerializationFailure)
    );
}

#[test]
fn many_connections_keep_to_themselves() {
    let config = Config::default();
    let count = 16;
    let mut connections: Vec<Connection> = (0..count).map(|_| Connection::new()).collect();
    let inputs: Vec<Vec<u8>> = (0..count)
        .map(|i| {
            let echo = [i as u8, 1, 2, 3, 4, 5, 6, (255 - i) as u8];
            joined(&[handshake(100 + i as i32, 1), status_request(), ping(&echo)])
        })
        .collect();
    let mut written: Vec<Vec<u8>> = vec![Vec::new(); count];
    let longest = inputs.iter().map(|input| input.len()).max().unwrap();
    for at in (0..longest).step_by(3) {
        for i in 0..count {
            let input = &inputs[i];
            if at < input.len() {
                let end = (at + 3).min(input.len());
                let outcome = connections[i].receive(&config, &input[at..end]);
                assert_eq!(outcome.error, None);
                written[i].extend_from_slice(&outcome.written);
            }
        }
    }
    for i in 0..count {
        assert!(connections[i].is_closed());
        let sent = packets(&written[i]);
        assert_eq!(sent.len(), 2);
        assert_eq!(document(&sent[0].1)["version"]["protocol"].as_i64(), Some(100 + i as i64));
        assert_eq!(sent[1], (1, vec![i as u8, 1, 2, 3, 4, 5, 6, (255 - i) as u8]));
        assert_eq!(written[i], handle_client(&config, &inputs[i]).written);
    }
}
