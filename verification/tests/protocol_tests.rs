use joycast::frame::{payload_len, FrameError, MAX_FRAME_LEN};
use joycast::protocol::{
    AbsAxisWire, AckStatus, DeviceMetadata, EventWire, HandshakePayload, Message, WireError, ALPN,
};
use joycast::server::JoycastServer;

fn controller() -> DeviceMetadata {
    DeviceMetadata {
        name: "Xbox Controller".into(),
        bustype: 3,
        vendor: 0x045e,
        product: 0x028e,
        version: 1,
        keys: vec![304, 305, 307, 308],
        abs_axes: vec![AbsAxisWire {
            code: 0,
            value: 128,
            minimum: 0,
            maximum: 255,
            fuzz: 0,
            flat: 0,
            resolution: 0,
        }],
        rel_axes: vec![],
    }
}

#[test]
fn test_message_roundtrip() {
    let meta = controller();

    let payload = HandshakePayload {
        client_id: "client_123".into(),
        client_hostname: "my-laptop".into(),
        metadata: meta,
    };

    let msg = Message::Handshake(payload);
    let bytes = msg.encode().unwrap();
    let decoded = Message::decode(&bytes).unwrap();
    assert_eq!(msg, decoded);
}

#[test]
fn every_message_is_read_back_whatever_follows() {
    let messages = vec![
        Message::Handshake(HandshakePayload {
            client_id: "é".into(),
            client_hostname: "".into(),
            metadata: DeviceMetadata { rel_axes: vec![0, 1, 8], ..controller() },
        }),
        Message::HandshakeAck {
            status: AckStatus::Rejected,
            server_hostname: "desk".into(),
            message: "no".into(),
        },
        Message::HandshakeAck {
            status: AckStatus::PendingApproval,
            server_hostname: "desk".into(),
            message: "wait".into(),
        },
        Message::Events(vec![
            EventWire { type_: 1, code: 304, value: 1 },
            EventWire { type_: 3, code: 0, value: -32768 },
            EventWire { type_: 0, code: 0, value: 0 },
        ]),
        Message::Events(vec![]),
        Message::Ping,
        Message::Pong,
    ];
    for msg in messages {
        let mut bytes = msg.encode().unwrap();
        assert_eq!(Message::decode(&bytes).unwrap(), msg);
        for k in 0..bytes.len() {
            assert!(Message::decode(&bytes[..k]).is_err());
        }
        bytes.extend_from_slice(&[0xff, 0, 7]);
        assert_eq!(Message::decode(&bytes).unwrap(), msg);
        assert_eq!(msg.clone(), msg);
    }
}

#[test]
fn messages_have_fixed_bytes() {
    assert_eq!(Message::Ping.encode().unwrap(), vec![3]);
    assert_eq!(Message::Pong.encode().unwrap(), vec![4]);
    assert_eq!(
        Message::Events(vec![EventWire { type_: 1, code: 304, value: 1 }]).encode().unwrap(),
        // the kind, one event, type 1, code 304 in seven-bit groups, value 1 as a zigzag number
        vec![2, 1, 1, 0xb0, 0x02, 2]
    );
    assert_eq!(
        Message::Events(vec![
            EventWire { type_: 65535, code: 128, value: -1 },
            EventWire { type_: 0, code: 0, value: i32::MIN },
        ])
        .encode()
        .unwrap(),
        vec![
            2, 2, 0xff, 0xff, 0x03, 0x80, 0x01, 1, 0, 0, 0xff, 0xff, 0xff, 0xff, 0x0f
        ]
    );
    assert_eq!(
        Message::HandshakeAck {
            status: AckStatus::PendingApproval,
            server_hostname: "pc".into(),
            message: "x".into(),
        }
        .encode()
        .unwrap(),
        vec![1, 1, 2, b'p', b'c', 1, b'x']
    );
    let handshake = Message::Handshake(HandshakePayload {
        client_id: "a".into(),
        client_hostname: "b".into(),
        metadata: DeviceMetadata {
            name: "c".into(),
            bustype: 3,
            vendor: 1,
            product: 2,
            version: 4,
            keys: vec![5],
            abs_axes: vec![AbsAxisWire {
                code: 6,
                value: -1,
                minimum: 1,
                maximum: 2,
                fuzz: 3,
                flat: 4,
                resolution: 5,
            }],
            rel_axes: vec![7],
        },
    });
    assert_eq!(
        handshake.encode().unwrap(),
        vec![
            0, 1, b'a', 1, b'b', 1, b'c', 3, 1, 2, 4, 1, 5, 1, 6, 1, 2, 4, 6, 8, 10, 1, 7
        ]
    );
}

#[test]
fn bytes_that_are_no_message_are_refused() {
    assert!(matches!(Message::decode(&[]), Err(WireError::Postcard(_))));
    assert!(matches!(Message::decode(&[5]), Err(WireError::UnknownMessage(5))));
    assert!(matches!(Message::decode(&[1, 3, 0, 0]), Err(WireError::UnknownStatus(3))));
    assert!(matches!(Message::decode(&[2, 1, 1]), Err(WireError::Postcard(_))));
    assert!(matches!(Message::decode(&[0, 1]), Err(WireError::Postcard(_))));
    // numbers in groups of seven bits: more groups than needed, one too many, a number too large
    assert_eq!(Message::decode(&[0x83, 0x80, 0x80, 0x80, 0]).unwrap(), Message::Ping);
    assert!(matches!(
        Message::decode(&[0x83, 0x80, 0x80, 0x80, 0x80, 0]),
        Err(WireError::Postcard(_))
    ));
    assert!(matches!(
        Message::decode(&[0xff, 0xff, 0xff, 0xff, 0x0f]),
        Err(WireError::UnknownMessage(u32::MAX))
    ));
    assert!(matches!(
        Message::decode(&[0x80, 0x80, 0x80, 0x80, 0x10]),
        Err(WireError::Postcard(_))
    ));
    assert!(matches!(Message::decode(&[0xac, 0x02]), Err(WireError::UnknownMessage(300))));
    // a text that is not UTF-8
    assert!(matches!(Message::decode(&[1, 0, 1, 0xff, 0]), Err(WireError::Postcard(_))));
}

#[test]
fn frames_hold_the_length_before_the_message() {
    assert_eq!(JoycastServer::write_frame(&Message::Ping).unwrap(), vec![0, 0, 0, 1, 3]);
    let msg = Message::Events(vec![EventWire { type_: 1, code: 2, value: 3 }; 100]);
    let body = msg.encode().unwrap();
    let frame = JoycastServer::write_frame(&msg).unwrap();
    assert_eq!(frame.len(), body.len() + 4);
    assert_eq!(frame[..4], (body.len() as u32).to_be_bytes());
    assert_eq!(frame[4..], body[..]);
}

#[test]
fn frames_are_read_one_after_the_other() {
    let first = Message::Events(vec![EventWire { type_: 1, code: 304, value: 1 }]);
    let mut stream = JoycastServer::write_frame(&first).unwrap();
    stream.extend(JoycastServer::write_frame(&Message::Ping).unwrap());
    let (msg, n) = JoycastServer::read_frame(&stream).unwrap();
    assert_eq!(msg, first);
    let (msg, m) = JoycastServer::read_frame(&stream[n..]).unwrap();
    assert_eq!(msg, Message::Ping);
    assert_eq!(n + m, stream.len());
}

#[test]
fn frames_that_cannot_be_read_are_refused() {
    assert!(matches!(JoycastServer::read_frame(&[0, 0, 0]), Err(FrameError::NoLength)));
    assert!(matches!(JoycastServer::read_frame(&[0, 0, 0, 2, 3]), Err(FrameError::NoPayload)));
    assert!(matches!(
        JoycastServer::read_frame(&[0, 0xa0, 0, 1]),
        Err(FrameError::TooLarge(0xa0_0001))
    ));
    assert!(matches!(
        JoycastServer::read_frame(&[0, 0, 0, 1, 9]),
        Err(FrameError::Decode(WireError::UnknownMessage(9)))
    ));
    assert_eq!(payload_len([0, 0xa0, 0, 0]).unwrap(), MAX_FRAME_LEN as usize);
    assert_eq!(payload_len([0, 0, 1, 2]).unwrap(), 258);
    assert!(matches!(payload_len([1, 0, 0, 0]), Err(FrameError::TooLarge(0x100_0000))));
}

#[test]
fn statuses_and_names() {
    for i in 0..3 {
        assert_eq!(AckStatus::from_index(i).unwrap().index(), i);
    }
    assert_eq!(AckStatus::from_index(3), None);
    assert_eq!(ALPN, "joycast/v1");
    assert_eq!(joycast::ALPN, ALPN);
    assert_eq!(joycast::name(), "joycast");
}

#[test]
fn errors_of_messages_and_frames_have_texts() {
    assert_eq!(FrameError::NoLength.message(), "Failed to read frame length");
    assert_eq!(FrameError::TooLarge(10485761).message(), "Frame size too large: 10485761 bytes");
    assert_eq!(FrameError::NoPayload.message(), "Failed to read frame payload");
    let unknown = WireError::UnknownMessage(9);
    assert_eq!(unknown.message(), "Serde Deserialization Error");
    assert_eq!(WireError::UnknownStatus(3).message(), "Serde Deserialization Error");
    assert_eq!(FrameError::Decode(unknown).message(), "Failed to decode message payload");
    assert_eq!(
        Message::decode(&[]).unwrap_err().message(),
        "Hit the end of buffer, expected more data"
    );
}
