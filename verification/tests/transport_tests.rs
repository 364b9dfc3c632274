use joycast::client::{
    entered_number, ChoiceError, ClientConfig, DeviceChoice, JoycastClient, Lookup,
};
use joycast::device::{DeviceInfo, DeviceType};
use joycast::history::{HistoryStore, KnownServerInfo};
use joycast::transport::{InvalidTarget, IpAddress, SocketAddress, TargetAddress, DEFAULT_PORT};

const NODE: &str = "ae58ff8833241ac82d6ff7611046ed67b5072d142c588d0063e942d9a75502b6";

fn v4(a: u8, b: u8, c: u8, d: u8, port: u16) -> TargetAddress {
    TargetAddress::Ip(SocketAddress::V4 { ip: u32::from_be_bytes([a, b, c, d]), port })
}

#[test]
fn test_target_address_ip_parsing() {
    let ip_target: TargetAddress = "192.168.1.50:12398".parse().unwrap();
    assert_eq!(ip_target.display_type(), "Direct IP");

    let plain_ip: TargetAddress = "127.0.0.1".parse().unwrap();
    let addr: core::net::SocketAddr = "127.0.0.1:12398".parse().unwrap();
    let core::net::SocketAddr::V4(addr) = addr else {
        unreachable!();
    };
    assert_eq!(
        plain_ip,
        TargetAddress::Ip(SocketAddress::V4 { ip: u32::from(*addr.ip()), port: addr.port() })
    );
}

#[test]
fn targets_are_read_in_order() {
    assert_eq!(TargetAddress::from_str(" 10.0.0.1:80\n"), Ok(v4(10, 0, 0, 1, 80)));
    assert_eq!(TargetAddress::from_str("10.0.0.1"), Ok(v4(10, 0, 0, 1, DEFAULT_PORT)));
    assert_eq!(
        TargetAddress::from_str("[::1]:5"),
        Ok(TargetAddress::Ip(SocketAddress::V6 { ip: 1, port: 5, flowinfo: 0, scope_id: 0 }))
    );
    assert_eq!(
        TargetAddress::from_str("[fe80::1%7]:5"),
        Ok(TargetAddress::Ip(SocketAddress::V6 {
            ip: 0xfe80_0000_0000_0000_0000_0000_0000_0001,
            port: 5,
            flowinfo: 0,
            scope_id: 7,
        }))
    );
    assert_eq!(
        TargetAddress::from_str("::1"),
        Ok(TargetAddress::Ip(SocketAddress::new(IpAddress::V6(1), 12398)))
    );
    let node = TargetAddress::from_str(NODE).unwrap();
    assert_eq!(node.display_type(), "Iroh P2P");
    let TargetAddress::Iroh(bytes) = node else {
        unreachable!();
    };
    assert_eq!(bytes[..3], [0xae, 0x58, 0xff]);
    assert_eq!(TargetAddress::node_text(&bytes), NODE);
    assert_eq!(TargetAddress::from_str(&TargetAddress::node_text(&bytes)), Ok(node));
}

#[test]
fn other_texts_are_no_targets() {
    assert_eq!(TargetAddress::from_str("  desk "), Err(InvalidTarget("desk".into())));
    assert_eq!(TargetAddress::from_str(""), Err(InvalidTarget("".into())));
    assert_eq!(
        InvalidTarget("desk".into()).message(),
        "Invalid target address 'desk'. Must be either a valid IP address (e.g., \
         192.168.1.50:12398) or a valid iroh Node ID."
    );
}

#[test]
fn readings_are_taken_in_order() {
    let socket = SocketAddress::V4 { ip: 1, port: 2 };
    assert_eq!(
        TargetAddress::from_readings(Some(socket), Some(IpAddress::V4(3)), Some([4; 32])),
        Some(TargetAddress::Ip(socket))
    );
    assert_eq!(
        TargetAddress::from_readings(None, Some(IpAddress::V4(3)), Some([4; 32])),
        Some(TargetAddress::Ip(SocketAddress::V4 { ip: 3, port: 12398 }))
    );
    assert_eq!(
        TargetAddress::from_readings(None, None, Some([4; 32])),
        Some(TargetAddress::Iroh([4; 32]))
    );
    assert_eq!(TargetAddress::from_readings(None, None, None), None);
}

fn known(hostname: &str, target: &str) -> KnownServerInfo {
    KnownServerInfo {
        server_hostname: hostname.into(),
        target: target.into(),
        transport_type: "Direct UDP".into(),
        last_connected: "2026-01-01T00:00:00+00:00".into(),
    }
}

#[test]
fn a_named_target_is_resolved() {
    let history = HistoryStore::new(
        "h".into(),
        Some(vec![known("desk", "10.0.0.1"), known("broken", "nowhere")]),
    );
    assert_eq!(
        JoycastClient::resolve_target(Some(" 1.2.3.4:5".into()), &history),
        Ok(Some((v4(1, 2, 3, 4, 5), " 1.2.3.4:5".into())))
    );
    assert_eq!(
        JoycastClient::resolve_target(Some("desk".into()), &history),
        Ok(Some((v4(10, 0, 0, 1, 12398), "10.0.0.1".into())))
    );
    assert_eq!(
        JoycastClient::resolve_target(Some("broken".into()), &history),
        Err(ChoiceError::InvalidTarget(InvalidTarget("nowhere".into())))
    );
    assert_eq!(
        JoycastClient::resolve_target(Some("Desk".into()), &history),
        Err(ChoiceError::Unresolved("Desk".into()))
    );
    assert_eq!(JoycastClient::resolve_target(None, &history), Ok(None));
    assert_eq!(
        JoycastClient::resolve_target(None, &HistoryStore::new("h".into(), None)),
        Err(ChoiceError::NoServers)
    );
    assert_eq!(
        ChoiceError::Unresolved("x".into()).message(),
        "Could not resolve target 'x'. Must be an IP address (e.g. 192.168.1.50:12398), a \
         64-character Iroh Node ID, or a known server hostname in history."
    );
}

#[test]
fn a_recorded_server_is_looked_up_by_host_name() {
    let mut history = HistoryStore::new("h".into(), Some(vec![known("desk", "10.0.0.1")]));
    history.record_connection("tv".into(), NODE.into(), "Iroh P2P".into());
    assert_eq!(
        JoycastClient::lookup_target(None, "tv".into(), &history),
        Lookup::Known(NODE.into())
    );
    assert_eq!(
        JoycastClient::lookup_target(Some(v4(1, 1, 1, 1, 1)), "tv".into(), &history),
        Lookup::Direct(v4(1, 1, 1, 1, 1), "tv".into())
    );
    assert_eq!(
        JoycastClient::lookup_target(None, "radio".into(), &history),
        Lookup::Unknown("radio".into())
    );
}

#[test]
fn a_server_is_chosen_by_its_number() {
    let history = HistoryStore::new(
        "h".into(),
        Some(vec![known("desk", "10.0.0.1"), known("broken", "nowhere")]),
    );
    assert_eq!(
        JoycastClient::select_server(&history, " 1\n"),
        Ok((v4(10, 0, 0, 1, 12398), "10.0.0.1".into()))
    );
    assert_eq!(
        JoycastClient::select_server(&history, "2"),
        Err(ChoiceError::InvalidTarget(InvalidTarget("nowhere".into())))
    );
    assert_eq!(JoycastClient::select_server(&history, "0"), Err(ChoiceError::NoSuchServer));
    assert_eq!(JoycastClient::select_server(&history, "3"), Err(ChoiceError::NoSuchServer));
    assert_eq!(JoycastClient::select_server(&history, "one"), Err(ChoiceError::NotANumber));
}

#[test]
fn numbers_are_read_as_they_are_entered() {
    assert_eq!(entered_number("\t+12 \n"), Ok(12));
    assert_eq!(entered_number("007"), Ok(7));
    for input in ["", " ", "-1", "1 2", "+", "1.0", "99999999999999999999999"] {
        assert_eq!(entered_number(input), Err(ChoiceError::NotANumber));
    }
}

fn info(path: &str) -> DeviceInfo {
    DeviceInfo {
        path: path.into(),
        name: "pad".into(),
        device_type: DeviceType::Gamepad,
        vendor: 1,
        product: 2,
    }
}

#[test]
fn a_device_is_chosen_by_its_number() {
    let choose = JoycastClient::choose_device;
    let only = DeviceChoice::Only("a".to_owned());
    assert_eq!(choose(&vec![], false, false, false), DeviceChoice::Wait);
    assert_eq!(choose(&vec![], true, true, true), DeviceChoice::Wait);
    assert_eq!(choose(&vec![info("a")], true, false, false), only);
    let two = vec![info("a"), info("b")];
    // the first gamepad is taken, but among other kinds the user chooses
    assert_eq!(choose(&two, false, false, false), only);
    assert_eq!(choose(&two, true, false, false), DeviceChoice::Ask);
    assert_eq!(choose(&two, false, true, false), DeviceChoice::Ask);
    assert_eq!(choose(&two, false, false, true), DeviceChoice::Ask);
    assert_eq!(JoycastClient::select_device(&two, "2\n"), Ok("b".into()));
    assert_eq!(JoycastClient::select_device(&two, "0"), Err(ChoiceError::NoSuchDevice));
    assert_eq!(JoycastClient::select_device(&two, "3"), Err(ChoiceError::NoSuchDevice));
    assert_eq!(JoycastClient::select_device(&two, "b"), Err(ChoiceError::NotANumber));
    assert_eq!(ChoiceError::NoSuchServer.message(), "Selection out of bounds");
    assert_eq!(ChoiceError::NoSuchDevice.message(), "Selection index out of bounds");
    assert_eq!(ChoiceError::NotANumber.message(), "Invalid selection index");
    assert!(ChoiceError::NoServers.message().starts_with("No target specified"));
    assert_eq!(
        ChoiceError::InvalidTarget(InvalidTarget("x".into())).message(),
        InvalidTarget("x".into()).message()
    );
}

#[test]
fn a_given_device_goes_before_a_chosen_one() {
    let config = ClientConfig { keyboard: true, ..ClientConfig::default() };
    let client = JoycastClient::new(
        config.clone(),
        v4(1, 2, 3, 4, 5),
        "1.2.3.4:5".into(),
        "id".into(),
        Some("/dev/input/event1".into()),
    );
    assert_eq!(client.device_selection.requested_path.as_deref(), Some("/dev/input/event1"));
    assert!(client.device_selection.keyboard);
    assert!(!client.device_selection.mouse);
    let config = ClientConfig {
        device_path: Some("/dev/input/event7".into()),
        history_file: Some("/tmp/h".into()),
        ..config
    };
    let client = JoycastClient::new(
        config,
        v4(1, 2, 3, 4, 5),
        "1.2.3.4:5".into(),
        "id".into(),
        Some("/dev/input/event1".into()),
    );
    assert_eq!(client.device_selection.requested_path.as_deref(), Some("/dev/input/event7"));
    assert_eq!(client.history_file.as_deref(), Some("/tmp/h"));
    assert_eq!(client.client_id, "id");
    assert_eq!(client.target_raw, "1.2.3.4:5");
}

#[test]
fn targets_are_written_as_they_are_read() {
    for text in ["1.2.3.4:5", "[::1]:80", "[fe80::1%7]:5", NODE] {
        assert_eq!(TargetAddress::from_str(text).unwrap().text(), text);
    }
    assert_eq!(TargetAddress::from_str("10.0.0.1").unwrap().text(), "10.0.0.1:12398");
    let TargetAddress::Iroh(bytes) = TargetAddress::from_str(NODE).unwrap() else {
        unreachable!();
    };
    assert_eq!(iroh::PublicKey::from_bytes(&bytes).unwrap().to_string(), NODE);
}

#[test]
fn white_space_around_a_target_makes_no_difference() {
    for text in ["1.2.3.4:5", "::1", NODE, "desk", ""] {
        let around = format!("\t {}\u{3000}\n", text);
        assert_eq!(TargetAddress::from_str(&around), TargetAddress::from_str(text));
    }
}
