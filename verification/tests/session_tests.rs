use joycast::client::{ClientConfig, JoycastClient};
use joycast::device::InputDevice;
use joycast::forward::{ClientAction, ClientError, ClientEvent, ClientSession, Phase, Transport};
use joycast::protocol::{
    AckStatus, DeviceMetadata, EventWire, HandshakePayload, Message, WireError,
};
use joycast::server::JoycastServer;
use joycast::stream::{ActiveSessions, Greeting, Step};
use joycast::transport::{SocketAddress, TargetAddress};
use joycast::trust::TrustManager;
use joycast::udp::{UdpAction, UdpServer, SESSION_TIMEOUT};

const SRC: SocketAddress = SocketAddress::V4 { ip: 0x7f000001, port: 5000 };
const OTHER: SocketAddress = SocketAddress::V4 { ip: 0x7f000001, port: 5001 };

fn metadata() -> DeviceMetadata {
    DeviceMetadata {
        name: "Pad".into(),
        bustype: 3,
        vendor: 1,
        product: 2,
        version: 3,
        keys: vec![304],
        abs_axes: vec![],
        rel_axes: vec![],
    }
}

fn handshake(id: &str) -> Message {
    Message::Handshake(HandshakePayload {
        client_id: id.into(),
        client_hostname: "laptop".into(),
        metadata: metadata(),
    })
}

fn trusting(id: &str) -> TrustManager {
    let mut tm = TrustManager::new("t".into(), None);
    tm.register_pending(id.into(), "laptop".into(), "Pad".into(), "Direct UDP".into());
    tm.approve(id).unwrap();
    tm
}

fn press() -> EventWire {
    EventWire { type_: 1, code: 304, value: 1 }
}

fn ack(bytes: &[u8]) -> (AckStatus, String, String) {
    match Message::decode(bytes).unwrap() {
        Message::HandshakeAck { status, server_hostname, message } => {
            (status, server_hostname, message)
        }
        other => panic!("{:?}", other),
    }
}

#[test]
fn an_unknown_client_is_put_on_hold() {
    let mut tm = TrustManager::new("t".into(), None);
    let mut server: UdpServer<u8> = UdpServer::new();
    let datagram = handshake("id").encode().unwrap();
    let UdpAction::Pending(answer) = server.on_datagram(&mut tm, "desk", SRC, &datagram, 0) else {
        panic!("not put on hold");
    };
    assert_eq!(
        ack(&answer),
        (
            AckStatus::PendingApproval,
            "desk".to_owned(),
            "Connection pending authorization on server. Run 'joycast server approve id' to \
             authorize."
                .to_owned()
        )
    );
    let pending = tm.list_pending();
    assert_eq!(pending.len(), 1);
    assert_eq!(pending[0].client_id, "id");
    assert_eq!(pending[0].hostname, "laptop");
    assert_eq!(pending[0].device_name, "Pad");
    assert_eq!(pending[0].transport, "Direct UDP");
    assert!(server.device_mut(SRC).is_none());
}

#[test]
fn an_approved_client_is_served() {
    let mut tm = trusting("id");
    let mut server: UdpServer<u8> = UdpServer::new();
    let UdpAction::Create(payload) = server.on_message(&mut tm, "desk", SRC, handshake("id"), 0)
    else {
        panic!("not served");
    };
    assert_eq!(payload.metadata, metadata());
    // until the device is there, events go nowhere
    let events = Message::Events(vec![press()]);
    assert!(matches!(
        server.on_message(&mut tm, "desk", SRC, events.clone(), 1),
        UdpAction::Nothing
    ));
    let answer = server.device_created("desk", SRC, payload.client_id, 42, 2);
    assert_eq!(
        ack(&answer),
        (AckStatus::Approved, "desk".to_owned(), "Connection authorized".to_owned())
    );
    let UdpAction::Emit(emitted) = server.on_message(&mut tm, "desk", SRC, events.clone(), 3)
    else {
        panic!("not replayed");
    };
    assert_eq!(emitted, vec![press()]);
    *server.device_mut(SRC).unwrap() += 1;
    assert_eq!(server.device_mut(SRC), Some(&mut 43));
    // another address has no session
    assert!(matches!(
        server.on_message(&mut tm, "desk", OTHER, events.clone(), 4),
        UdpAction::Nothing
    ));
    // a client whose approval is revoked is no longer heard
    tm.revoke("id").unwrap();
    assert!(matches!(server.on_message(&mut tm, "desk", SRC, events, 5), UdpAction::Nothing));
    assert!(server.device_mut(SRC).is_some());
}

#[test]
fn a_device_that_fails_is_told() {
    let answer = UdpServer::<u8>::device_failed("desk", "no uinput");
    assert_eq!(
        ack(&answer),
        (
            AckStatus::Rejected,
            "desk".to_owned(),
            "Failed to create virtual device: no uinput".to_owned()
        )
    );
}

#[test]
fn datagrams_without_a_request_are_passed_over() {
    let mut tm = trusting("id");
    let mut server: UdpServer<u8> = UdpServer::new();
    assert!(matches!(
        server.on_datagram(&mut tm, "desk", SRC, &[9], 0),
        UdpAction::Invalid(WireError::UnknownMessage(9))
    ));
    let UdpAction::Reply(pong) = server.on_message(&mut tm, "desk", SRC, Message::Ping, 0) else {
        panic!("no answer");
    };
    assert_eq!(Message::decode(&pong).unwrap(), Message::Pong);
    assert!(matches!(
        server.on_message(&mut tm, "desk", SRC, Message::Pong, 0),
        UdpAction::Nothing
    ));
}

#[test]
fn silent_sessions_end() {
    let mut tm = trusting("id");
    let mut server: UdpServer<u8> = UdpServer::new();
    server.device_created("desk", SRC, "id".into(), 1, 0);
    server.device_created("desk", OTHER, "id".into(), 2, 0);
    assert_eq!(server.expire(SESSION_TIMEOUT - 1), vec![]);
    // events refresh a session, and so do pings
    server.on_message(&mut tm, "desk", SRC, Message::Events(vec![]), 5);
    server.on_message(&mut tm, "desk", OTHER, Message::Ping, 6);
    assert_eq!(server.expire(SESSION_TIMEOUT + 4), vec![]);
    assert_eq!(server.expire(SESSION_TIMEOUT + 5), vec![SRC]);
    assert!(server.device_mut(SRC).is_none());
    assert!(server.device_mut(OTHER).is_some());
    assert_eq!(server.expire(SESSION_TIMEOUT + 6), vec![OTHER]);
    // a clock that seems to run backwards ends nothing
    server.device_created("desk", SRC, "id".into(), 1, 100);
    assert_eq!(server.expire(0), vec![]);
}

#[test]
fn pings_keep_a_session_without_events() {
    let mut tm = trusting("id");
    let mut server: UdpServer<u8> = UdpServer::new();
    server.device_created("desk", SRC, "id".into(), 7, 0);
    let second = 1_000_000_000;
    for i in 1..=4 {
        let now = i * 5 * second;
        let UdpAction::Reply(pong) = server.on_message(&mut tm, "desk", SRC, Message::Ping, now)
        else {
            panic!("no answer");
        };
        assert_eq!(Message::decode(&pong).unwrap(), Message::Pong);
        assert_eq!(server.expire(now), vec![]);
    }
    assert_eq!(server.device_mut(SRC), Some(&mut 7));
    // the pings of a client whose approval is revoked do not count
    tm.revoke("id").unwrap();
    let now = 25 * second;
    assert!(matches!(
        server.on_message(&mut tm, "desk", SRC, Message::Ping, now),
        UdpAction::Reply(_)
    ));
    assert_eq!(server.expire(30 * second), vec![SRC]);
}

#[test]
fn a_stream_begins_with_a_handshake() {
    let mut tm = TrustManager::new("t".into(), None);
    let mut active: ActiveSessions<u8> = ActiveSessions::new();
    assert!(matches!(
        active.on_first_message(&mut tm, "desk", Message::Pong),
        Greeting::Unexpected(Message::Pong)
    ));
    // a client may keep the stream open before its handshake
    for _ in 0..2 {
        let Greeting::Answer(frame) = active.on_first_message(&mut tm, "desk", Message::Ping)
        else {
            panic!("no answer");
        };
        assert_eq!(JoycastServer::read_frame(&frame).unwrap().0, Message::Pong);
    }
    assert!(tm.list_pending().is_empty());
    let Greeting::Pending(frame) = active.on_first_message(&mut tm, "desk", handshake("id")) else {
        panic!("not put on hold");
    };
    let (msg, n) = JoycastServer::read_frame(&frame).unwrap();
    assert_eq!(n, frame.len());
    assert!(matches!(
        msg,
        Message::HandshakeAck { status: AckStatus::PendingApproval, .. }
    ));
    assert_eq!(tm.list_pending()[0].transport, "Iroh P2P");
}

#[test]
fn a_client_that_connects_again_gets_a_new_device() {
    let mut tm = trusting("id");
    let mut active: ActiveSessions<u8> = ActiveSessions::new();
    let id = "id".to_owned();
    active.start("other".into(), 9);
    let Greeting::Create { payload, replaced } =
        active.on_first_message(&mut tm, "desk", handshake("id"))
    else {
        panic!("not served");
    };
    assert_eq!(replaced, None);
    active.start(payload.client_id, 1);
    let Greeting::Create { replaced, .. } =
        active.on_first_message(&mut tm, "desk", handshake("id"))
    else {
        panic!("not served");
    };
    assert_eq!(replaced, Some(1));
    assert!(active.device_mut(&id).is_none());
    assert_eq!(active.device_mut(&"other".to_owned()), Some(&mut 9));
    active.start(id.clone(), 2);
    assert_eq!(active.end(&id), Some(2));
    assert_eq!(active.end(&id), None);
}

#[test]
fn a_stream_goes_on_with_events_and_pings() {
    let mut active: ActiveSessions<u8> = ActiveSessions::new();
    let id = "id".to_owned();
    let events = Message::Events(vec![press()]);
    assert!(matches!(active.on_message(&id, Some(events.clone())), Step::Close));
    active.start(id.clone(), 1);
    assert!(matches!(active.on_message(&id, Some(events)), Step::Emit(e) if e == vec![press()]));
    let Step::Send(frame) = active.on_message(&id, Some(Message::Ping)) else {
        panic!("no answer");
    };
    assert_eq!(JoycastServer::read_frame(&frame).unwrap().0, Message::Pong);
    assert!(matches!(active.on_message(&id, Some(Message::Pong)), Step::Ignore));
    assert!(matches!(active.on_message(&id, Some(handshake("id"))), Step::Ignore));
    assert!(matches!(active.on_message(&id, None), Step::Close));
    let frame = ActiveSessions::<u8>::approved_frame("desk");
    assert_eq!(
        JoycastServer::read_frame(&frame).unwrap().0,
        Message::HandshakeAck {
            status: AckStatus::Approved,
            server_hostname: "desk".into(),
            message: "Connection authorized".into(),
        }
    );
    let frame = ActiveSessions::<u8>::rejected_frame("desk", "no");
    assert_eq!(
        JoycastServer::read_frame(&frame).unwrap().0,
        Message::HandshakeAck {
            status: AckStatus::Rejected,
            server_hostname: "desk".into(),
            message: "Failed to create virtual device: no".into(),
        }
    );
}

fn session(target: TargetAddress) -> ClientSession {
    let client = JoycastClient::new(
        ClientConfig::default(),
        target,
        "target".into(),
        "id".into(),
        None,
    );
    ClientSession::new(&client, "laptop".into())
}

fn udp() -> ClientSession {
    session(TargetAddress::Ip(SRC))
}

fn iroh() -> ClientSession {
    session(TargetAddress::Iroh([1; 32]))
}

fn sent(action: Result<ClientAction, ClientError>) -> Vec<u8> {
    match action {
        Ok(ClientAction::Send(bytes)) => bytes,
        _ => panic!("nothing sent"),
    }
}

fn idle(action: Result<ClientAction, ClientError>) -> bool {
    matches!(action, Ok(ClientAction::Nothing))
}

fn opened() -> ClientEvent {
    ClientEvent::DeviceOpened { path: "/dev/input/event3".into(), metadata: metadata() }
}

fn answer(status: AckStatus) -> ClientEvent {
    ClientEvent::Received(Some(Message::HandshakeAck {
        status,
        server_hostname: "desk".into(),
        message: "text".into(),
    }))
}

#[test]
fn a_datagram_client_connects_and_streams() {
    let mut s = udp();
    assert_eq!(s.phase(), Phase::WaitingForDevice);
    assert_eq!(s.transport().label(), "Direct UDP");
    assert!(idle(s.on_event(ClientEvent::Input(press()))));
    assert_eq!(sent(s.on_event(ClientEvent::KeepaliveDue)), vec![3]);
    assert_eq!(s.phase(), Phase::WaitingForDevice);
    let bytes = sent(s.on_event(opened()));
    assert_eq!(Message::decode(&bytes).unwrap(), handshake("id"));
    assert_eq!(s.phase(), Phase::AwaitingAck);
    assert!(idle(s.on_event(ClientEvent::KeepaliveDue)));
    // what is no answer is passed over
    assert!(idle(s.on_event(ClientEvent::Received(Some(Message::Pong)))));
    assert!(idle(s.on_event(ClientEvent::Received(None))));
    match s.on_event(answer(AckStatus::Approved)) {
        Ok(ClientAction::Record { server_hostname, target, transport_type, message }) => {
            assert_eq!(server_hostname, "desk");
            assert_eq!(target, "target");
            assert_eq!(transport_type, "Direct UDP");
            assert_eq!(message, "text");
        }
        _ => panic!("not recorded"),
    }
    assert_eq!(s.phase(), Phase::Streaming);
    let bytes = sent(s.on_event(ClientEvent::Input(press())));
    assert_eq!(Message::decode(&bytes).unwrap(), Message::Events(vec![press()]));
    assert!(idle(s.on_event(ClientEvent::ReceiveFailed("lost".into()))));
    assert!(idle(s.on_event(answer(AckStatus::Rejected))));
}

#[test]
fn a_datagram_client_streams_without_an_answer() {
    let mut s = udp();
    s.on_event(opened()).unwrap_or(ClientAction::Nothing);
    assert!(idle(s.on_event(ClientEvent::AckOverdue)));
    assert_eq!(s.phase(), Phase::Streaming);
    let mut s = iroh();
    s.on_event(opened()).unwrap_or(ClientAction::Nothing);
    assert!(idle(s.on_event(ClientEvent::AckOverdue)));
    assert_eq!(s.phase(), Phase::AwaitingAck);
}

#[test]
fn a_client_that_is_not_admitted_stops() {
    for make in [udp, iroh] {
        let mut s = make();
        s.on_event(opened()).unwrap_or(ClientAction::Nothing);
        assert!(matches!(
            s.on_event(answer(AckStatus::PendingApproval)),
            Err(ClientError::Pending(text)) if text == "text"
        ));
        assert!(matches!(
            s.on_event(answer(AckStatus::Rejected)),
            Err(ClientError::Rejected(text)) if text == "text"
        ));
        let Err(e) = s.on_event(ClientEvent::ReceiveFailed("lost".into())) else {
            panic!("goes on");
        };
        match s.transport() {
            Transport::DirectUdp => assert_eq!(e, ClientError::NoAck("lost".into())),
            Transport::IrohP2p => assert_eq!(e, ClientError::ReceiveFailed("lost".into())),
        }
        assert_eq!(s.phase(), Phase::AwaitingAck);
    }
}

#[test]
fn a_stream_client_waits_for_pongs_and_answers() {
    let mut s = iroh();
    assert_eq!(s.transport(), Transport::IrohP2p);
    assert_eq!(sent(s.on_event(ClientEvent::KeepaliveDue)), vec![0, 0, 0, 1, 3]);
    assert_eq!(s.phase(), Phase::AwaitingPong);
    assert!(matches!(s.on_event(ClientEvent::PongOverdue), Err(ClientError::NoPong)));
    assert!(matches!(
        s.on_event(ClientEvent::Received(Some(Message::Ping))),
        Err(ClientError::ExpectedPong(Message::Ping))
    ));
    assert!(idle(s.on_event(opened())));
    assert!(idle(s.on_event(ClientEvent::Received(Some(Message::Pong)))));
    assert_eq!(s.phase(), Phase::WaitingForDevice);
    let frame = sent(s.on_event(opened()));
    assert_eq!(JoycastServer::read_frame(&frame).unwrap().0, handshake("id"));
    assert!(matches!(
        s.on_event(ClientEvent::Received(Some(Message::Pong))),
        Err(ClientError::ExpectedAck(Message::Pong))
    ));
    match s.on_event(answer(AckStatus::Approved)) {
        Ok(ClientAction::Record { transport_type, .. }) => assert_eq!(transport_type, "Iroh P2P"),
        _ => panic!("not recorded"),
    }
    assert!(idle(s.on_event(ClientEvent::Received(Some(Message::Pong)))));
    assert!(matches!(
        s.on_event(ClientEvent::Received(Some(Message::Ping))),
        Ok(ClientAction::Unexpected(Message::Ping))
    ));
    assert!(matches!(
        s.on_event(ClientEvent::ReceiveFailed("lost".into())),
        Err(ClientError::Closed)
    ));
}

fn found(path: &str, name: &str) -> InputDevice {
    InputDevice {
        path: path.into(),
        name: Some(name.into()),
        bustype: 3,
        vendor: 1,
        product: 2,
        version: 3,
        keys: None,
        abs_axes: None,
        abs_state: None,
        rel_axes: None,
    }
}

#[test]
fn a_connection_outlives_its_device() {
    let mut s = udp();
    s.on_event(opened()).unwrap_or(ClientAction::Nothing);
    s.on_event(answer(AckStatus::Approved)).unwrap_or(ClientAction::Nothing);
    let pads = vec![found("/dev/input/event9", "Mouse"), found("/dev/input/event4", "Pad")];
    assert_eq!(s.reopen(&pads), None);
    assert!(idle(s.on_event(ClientEvent::DeviceLost)));
    assert_eq!(s.phase(), Phase::Reconnecting);
    assert!(idle(s.on_event(ClientEvent::Input(press()))));
    assert_eq!(sent(s.on_event(ClientEvent::KeepaliveDue)), vec![3]);
    assert_eq!(s.reopen(&vec![found("/dev/input/event3", "Mouse")]), None);
    assert_eq!(s.reopen(&pads), Some(1));
    assert!(idle(s.on_event(ClientEvent::DeviceReturned)));
    assert_eq!(s.phase(), Phase::Streaming);
    assert_eq!(
        Message::decode(&sent(s.on_event(ClientEvent::Input(press())))).unwrap(),
        Message::Events(vec![press()])
    );
}

#[test]
fn a_client_and_a_server_understand_each_other() {
    let mut tm = TrustManager::new("t".into(), None);
    let mut server: UdpServer<u8> = UdpServer::new();
    let mut client = udp();
    let hello = sent(client.on_event(opened()));
    let UdpAction::Pending(reply) = server.on_datagram(&mut tm, "desk", SRC, &hello, 0) else {
        panic!("not put on hold");
    };
    let reply = Message::decode(&reply).unwrap();
    assert!(matches!(
        client.on_event(ClientEvent::Received(Some(reply))),
        Err(ClientError::Pending(text)) if text.contains("joycast server approve id'")
    ));

    tm.approve("id").unwrap();
    let mut client = udp();
    let hello = sent(client.on_event(opened()));
    let UdpAction::Create(payload) = server.on_datagram(&mut tm, "desk", SRC, &hello, 1) else {
        panic!("not served");
    };
    let reply = server.device_created("desk", SRC, payload.client_id, 0, 1);
    let reply = Message::decode(&reply).unwrap();
    assert!(matches!(
        client.on_event(ClientEvent::Received(Some(reply))),
        Ok(ClientAction::Record { server_hostname, .. }) if server_hostname == "desk"
    ));
    let event = sent(client.on_event(ClientEvent::Input(press())));
    assert!(matches!(
        server.on_datagram(&mut tm, "desk", SRC, &event, 2),
        UdpAction::Emit(events) if events == vec![press()]
    ));
    let ping = sent(client.on_event(ClientEvent::KeepaliveDue));
    assert!(matches!(server.on_datagram(&mut tm, "desk", OTHER, &ping, 3), UdpAction::Reply(_)));
}

#[test]
fn a_waiting_stream_client_and_a_server_understand_each_other() {
    let mut tm = trusting("id");
    let mut active: ActiveSessions<u8> = ActiveSessions::new();
    let mut client = iroh();
    let ping = sent(client.on_event(ClientEvent::KeepaliveDue));
    let (ping, _) = JoycastServer::read_frame(&ping).unwrap();
    let Greeting::Answer(pong) = active.on_first_message(&mut tm, "desk", ping) else {
        panic!("no answer");
    };
    let (pong, _) = JoycastServer::read_frame(&pong).unwrap();
    assert!(idle(client.on_event(ClientEvent::Received(Some(pong)))));
    let hello = sent(client.on_event(opened()));
    let (hello, _) = JoycastServer::read_frame(&hello).unwrap();
    assert!(matches!(
        active.on_first_message(&mut tm, "desk", hello),
        Greeting::Create { replaced: None, .. }
    ));
}

#[test]
fn errors_of_a_client_have_texts() {
    let texts = [
        (ClientError::NoPong, "Server did not answer controller-wait keepalive"),
        (
            ClientError::ExpectedPong(Message::Ping),
            "Expected Pong while waiting for controller, got: ",
        ),
        (ClientError::ExpectedAck(Message::Ping), "Expected HandshakeAck from server, got: "),
        (ClientError::Pending("x".into()), "Connection pending server authorization."),
        (ClientError::Rejected("x".into()), "Server rejected connection: x"),
        (ClientError::NoAck("x".into()), "Error receiving HandshakeAck: x"),
        (ClientError::ReceiveFailed("x".into()), "x"),
        (ClientError::Closed, "Server connection closed"),
    ];
    for (e, text) in texts {
        assert_eq!(e.message(), text);
    }
}
