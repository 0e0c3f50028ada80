use tws_client::client_connection::{Action, ClientConnection, ClientConnectionState, Outcome};
use tws_client::decoder::DecodedMessage;
use tws_client::errors::FatalError;
use tws_client::twssocket::{hello_message, start_api_message, ReceiveFailure, TwsError, TwsSocket};

/// Advances the client until it returns something other than Continue.
fn drive(client: &mut ClientConnection) -> Action {
    loop {
        match client.next() {
            Action::Continue => {},
            other => {
                return other;
            },
        }
    }
}

/// Walks a fresh client through the whole fixed handshake.
fn run_handshake(client: &mut ClientConnection) {
    match drive(client) {
        Action::Send(bytes) => assert_eq!(bytes, b"76\x00".to_vec()),
        other => panic!("expected the hello send, got {:?}", other),
    }
    assert_eq!(drive(client), Action::NeedRead);
    client.supply_read(Some(b"76\x0020240101 10:00:00 GMT\x00".to_vec()));
    match drive(client) {
        Action::Send(bytes) => assert_eq!(bytes, b"71\x002\x001337\x00\x00".to_vec()),
        other => panic!("expected the StartAPI send, got {:?}", other),
    }
}

#[test]
fn socket_zero_length_read_is_disconnected() {
    // A zero-length read always yields Disconnected, never EmptyBuffer
    // or SocketFault.
    let mut s = TwsSocket::new();
    assert_eq!(
        s.receive(Some(Vec::new())),
        Err(ReceiveFailure::Transport(TwsError::Disconnected))
    );
}

#[test]
fn socket_unterminated_batch_is_framing_violation() {
    // A read whose final byte is not the terminator always fails and
    // never yields fields.
    let mut s = TwsSocket::new();
    assert_eq!(s.receive(Some(b"9\x001".to_vec())), Err(ReceiveFailure::Framing));
    assert_eq!(s.next_string(), None);
}

#[test]
fn socket_io_error_is_socket_fault() {
    let mut s = TwsSocket::new();
    assert_eq!(s.receive(None), Err(ReceiveFailure::Transport(TwsError::SocketFault)));
}

#[test]
fn socket_all_terminators_is_empty_buffer() {
    let mut s = TwsSocket::new();
    assert_eq!(
        s.receive(Some(b"\x00\x00\x00".to_vec())),
        Err(ReceiveFailure::Transport(TwsError::EmptyBuffer))
    );
}

#[test]
fn socket_serves_fields_in_arrival_order() {
    let mut s = TwsSocket::new();
    assert_eq!(s.receive(Some(b"9\x001\x00145\x00".to_vec())), Ok(()));
    assert_eq!(s.next_string(), Some(b"9".to_vec()));
    assert_eq!(s.next_string(), Some(b"1".to_vec()));
    assert_eq!(s.next_string(), Some(b"145".to_vec()));
    assert_eq!(s.next_string(), None);
}

#[test]
fn socket_reconnect_discards_pending_fields() {
    let mut s = TwsSocket::new();
    assert_eq!(s.receive(Some(b"9\x001\x00".to_vec())), Ok(()));
    s.reconnect();
    assert_eq!(s.next_string(), None);
}

#[test]
fn handshake_messages_bytes() {
    assert_eq!(hello_message(), b"76\x00".to_vec());
    // Newer servers get the empty optional-capabilities field.
    assert_eq!(start_api_message(76), b"71\x002\x001337\x00\x00".to_vec());
    assert_eq!(start_api_message(72), b"71\x002\x001337\x00".to_vec());
}

#[test]
fn handshake_wrong_server_version_is_fatal() {
    let mut client = ClientConnection::new();
    match drive(&mut client) {
        Action::Send(_) => {},
        other => panic!("expected the hello send, got {:?}", other),
    }
    assert_eq!(drive(&mut client), Action::NeedRead);
    client.supply_read(Some(b"75\x00sometime\x00".to_vec()));
    assert_eq!(drive(&mut client), Action::Fatal(FatalError::ServerVersionMismatch(75)));
}

#[test]
fn handshake_read_failure_is_fatal() {
    let mut client = ClientConnection::new();
    match drive(&mut client) {
        Action::Send(_) => {},
        other => panic!("expected the hello send, got {:?}", other),
    }
    assert_eq!(drive(&mut client), Action::NeedRead);
    client.supply_read(None);
    assert_eq!(drive(&mut client), Action::Fatal(FatalError::HandshakeReadFailed));
}

#[test]
fn scenario_next_valid_id_batch() {
    // Inbound batch ["9","1","145"]: NextValidId, version 1, id 145.
    let mut client = ClientConnection::new();
    run_handshake(&mut client);
    assert_eq!(drive(&mut client), Action::NeedRead);
    client.supply_read(Some(b"9\x001\x00145\x00".to_vec()));
    assert_eq!(
        drive(&mut client),
        Action::Output(Outcome::Decoded(DecodedMessage::NextValidId { version: 1, id: 145 }))
    );
    assert_eq!(client.state, ClientConnectionState::Connected);
}

#[test]
fn scenario_error_notice_batch() {
    // Inbound batch ["4","2","-1","2104","Market data farm connection
    // is OK"]: Error, version 2, code 2104, that text.
    let mut client = ClientConnection::new();
    run_handshake(&mut client);
    assert_eq!(drive(&mut client), Action::NeedRead);
    client.supply_read(Some(
        b"4\x002\x00-1\x002104\x00Market data farm connection is OK\x00".to_vec(),
    ));
    assert_eq!(
        drive(&mut client),
        Action::Output(Outcome::Decoded(DecodedMessage::ErrorCoded {
            version: 2,
            id: -1,
            code: 2104,
            text: b"Market data farm connection is OK".to_vec(),
        }))
    );
}

#[test]
fn scenario_unterminated_batch_is_fatal_not_decoded() {
    // A batch whose final byte is not a terminator causes a fatal
    // failure, never a successful decode.
    let mut client = ClientConnection::new();
    run_handshake(&mut client);
    assert_eq!(drive(&mut client), Action::NeedRead);
    client.supply_read(Some(b"9\x001\x00145".to_vec()));
    assert_eq!(drive(&mut client), Action::Fatal(FatalError::BadFraming));
}

#[test]
fn disconnect_then_reconnect_notice() {
    // Immediately after a Disconnected outcome, the next step yields
    // the fixed reconnect notice and leaves the state Connected.
    let mut client = ClientConnection::new();
    run_handshake(&mut client);
    assert_eq!(drive(&mut client), Action::NeedRead);
    client.supply_read(Some(Vec::new()));
    assert_eq!(
        drive(&mut client),
        Action::Output(Outcome::TransportFailure(TwsError::Disconnected))
    );
    assert_eq!(client.state, ClientConnectionState::Disconnected);
    assert_eq!(drive(&mut client), Action::Output(Outcome::Reconnected));
    assert_eq!(client.state, ClientConnectionState::Connected);
}

#[test]
fn unknown_message_kind_is_fatal() {
    let mut client = ClientConnection::new();
    run_handshake(&mut client);
    assert_eq!(drive(&mut client), Action::NeedRead);
    client.supply_read(Some(b"17\x001\x00x\x00".to_vec()));
    assert_eq!(drive(&mut client), Action::Fatal(FatalError::UnknownMessageKind(17)));
}

#[test]
fn message_split_across_two_reads() {
    // The queue is refilled, whole, by exactly one read when it runs
    // dry; a message may span two batches.
    let mut client = ClientConnection::new();
    run_handshake(&mut client);
    assert_eq!(drive(&mut client), Action::NeedRead);
    client.supply_read(Some(b"9\x001\x00".to_vec()));
    assert_eq!(drive(&mut client), Action::NeedRead);
    client.supply_read(Some(b"145\x00".to_vec()));
    assert_eq!(
        drive(&mut client),
        Action::Output(Outcome::Decoded(DecodedMessage::NextValidId { version: 1, id: 145 }))
    );
}
