use joycast::history::{HistoryStore, KnownServerInfo};
use joycast::keys::{
    client_id_path, first_key, key_candidates, load_or_create_client_id, load_or_generate,
    new_client_id, new_key_path, parse_secret_key_hex, secret_key_text, stored_client_id, KeyError,
};
use joycast::server::{JoycastServer, KeySource, ServerConfig};
use joycast::surroundings::Surroundings;
use joycast::table::Table;
use joycast::transport::{SocketAddress, TargetAddress};
use joycast::trust::{
    ApprovedClientInfo, PendingClientInfo, StoredTrust, TrustError, TrustManager,
};

fn around() -> Surroundings {
    Surroundings {
        user: Some("ann".into()),
        sudo_user: None,
        systemd_exec_pid: false,
        journal_stream: false,
        config_dir: Some("/home/ann/.config".into()),
        home_dir: Some("/home/ann".into()),
    }
}

fn manager() -> TrustManager {
    TrustManager::new("/tmp/trusted_clients.json".into(), None)
}

fn request(tm: &mut TrustManager, id: &str, first_seen: &str) -> bool {
    tm.register_pending_at(
        id.into(),
        "laptop".into(),
        "Pad".into(),
        "Iroh P2P".into(),
        first_seen.into(),
    )
}

fn ids(list: Vec<PendingClientInfo>) -> Vec<String> {
    list.into_iter().map(|p| p.client_id).collect()
}

#[test]
fn a_request_waits_for_approval() {
    let mut tm = manager();
    assert!(!tm.is_approved("8f3a9b1c"));
    assert!(request(&mut tm, "8f3a9b1c", "2026-01-02"));
    assert!(!tm.is_approved("8f3a9b1c"));
    assert_eq!(
        tm.list_pending(),
        vec![PendingClientInfo {
            client_id: "8f3a9b1c".into(),
            hostname: "laptop".into(),
            device_name: "Pad".into(),
            transport: "Iroh P2P".into(),
            first_seen: "2026-01-02".into(),
        }]
    );
    let approved = tm.approve_at("8f3a", "2026-01-03".into()).unwrap();
    assert_eq!(
        approved,
        ApprovedClientInfo {
            client_id: "8f3a9b1c".into(),
            hostname: "laptop".into(),
            device_name: "Pad".into(),
            approved_at: "2026-01-03".into(),
        }
    );
    assert!(tm.is_approved("8f3a9b1c"));
    assert!(!tm.is_approved("8f3a"));
    assert_eq!(tm.list_pending(), vec![]);
    assert_eq!(tm.list_approved(), vec![approved]);
    // a client that is approved does not wait
    assert!(!request(&mut tm, "8f3a9b1c", "2026-01-04"));
    assert_eq!(tm.list_pending(), vec![]);
}

#[test]
fn approval_can_be_revoked() {
    let mut tm = manager();
    request(&mut tm, "aa", "1");
    request(&mut tm, "bb", "2");
    tm.approve("aa").unwrap();
    tm.approve("bb").unwrap();
    assert_eq!(tm.revoke("b"), Ok(true));
    assert!(tm.is_approved("aa"));
    assert!(!tm.is_approved("bb"));
    assert_eq!(tm.revoke("bb"), Err(TrustError::NoApprovedClient("bb".into())));
    assert_eq!(tm.approve("cc"), Err(TrustError::NoPendingClient("cc".into())));
    assert_eq!(
        TrustError::NoPendingClient("cc".into()).message(),
        "No pending client request found matching ID or prefix 'cc'"
    );
    assert_eq!(
        TrustError::NoApprovedClient("bb".into()).message(),
        "No approved client found matching ID or prefix 'bb'"
    );
}

#[test]
fn a_full_id_goes_before_a_prefix() {
    let mut tm = manager();
    request(&mut tm, "abcd", "1");
    request(&mut tm, "ab", "2");
    assert_eq!(tm.approve("ab").unwrap().client_id, "ab");
    assert_eq!(tm.approve("ab").unwrap().client_id, "abcd");
    assert_eq!(tm.revoke("ab"), Ok(true));
    assert!(tm.is_approved("abcd"));
    // the empty text is the beginning of every ID
    assert_eq!(tm.revoke(""), Ok(true));
    assert!(!tm.is_approved("abcd"));
}

#[test]
fn clients_are_listed_in_the_order_of_time() {
    let mut tm = manager();
    request(&mut tm, "c", "2026-03");
    request(&mut tm, "a", "2026-01");
    request(&mut tm, "b", "2026-02");
    assert_eq!(ids(tm.list_pending()), vec!["a", "b", "c"]);
    // a repeated request takes the place of the earlier one, but for its time
    tm.register_pending_at(
        "a".into(),
        "desktop".into(),
        "Wheel".into(),
        "Direct UDP".into(),
        "2026-04".into(),
    );
    let pending = tm.list_pending();
    assert_eq!(
        pending[0],
        PendingClientInfo {
            client_id: "a".into(),
            hostname: "desktop".into(),
            device_name: "Wheel".into(),
            transport: "Direct UDP".into(),
            first_seen: "2026-01".into(),
        }
    );
    assert_eq!(ids(pending), vec!["a", "b", "c"]);
    tm.approve_at("a", "2026-09".into()).unwrap();
    tm.approve_at("c", "2026-08".into()).unwrap();
    let approved: Vec<String> = tm.list_approved().into_iter().map(|a| a.client_id).collect();
    assert_eq!(approved, vec!["c", "a"]);
}

#[test]
fn stored_clients_come_back() {
    let mut tm = manager();
    request(&mut tm, "a", "1");
    request(&mut tm, "b", "2");
    tm.approve("a").unwrap();
    let again = TrustManager::new("x".into(), Some(tm.stored()));
    assert!(again.is_approved("a"));
    assert!(!again.is_approved("b"));
    assert_eq!(again.list_pending(), tm.list_pending());
    assert_eq!(again.list_approved(), tm.list_approved());
    assert_eq!(again.store_path(), "x");
    assert_eq!(tm.store_path(), "/tmp/trusted_clients.json");
    let none = StoredTrust { approved: vec![], pending: vec![] };
    assert_eq!(TrustManager::new("x".into(), Some(none)).list_pending(), vec![]);
}

#[test]
fn requests_are_dated_now() {
    let mut tm = manager();
    tm.register_pending("a".into(), "h".into(), "d".into(), "Direct UDP".into());
    let pending = tm.list_pending();
    let seen = chrono::DateTime::parse_from_rfc3339(&pending[0].first_seen).unwrap();
    let age = chrono::Utc::now().signed_duration_since(seen);
    assert!(age.num_seconds().abs() < 60);
}

#[test]
fn the_trust_store_lies_where_the_process_belongs() {
    let path = |s: &Surroundings| TrustManager::default_store_path(s);
    assert_eq!(path(&around()), "/home/ann/.config/joycast/trusted_clients.json");
    let bare = Surroundings { config_dir: None, ..around() };
    assert_eq!(path(&bare), "/etc/joycast/trusted_clients.json");
    let root = Surroundings { user: Some("root".into()), ..around() };
    assert_eq!(path(&root), "/etc/joycast/trusted_clients.json");
    assert!(TrustManager::is_root_context(&root));
    let service = Surroundings { systemd_exec_pid: true, ..around() };
    assert_eq!(path(&service), "/etc/joycast/trusted_clients.json");
    let sudo = Surroundings { user: Some("root".into()), sudo_user: Some("bob".into()), ..around() };
    assert_eq!(path(&sudo), "/home/bob/.config/joycast/trusted_clients.json");
    for name in ["", "root"] {
        let sudo = Surroundings { sudo_user: Some(name.into()), ..around() };
        assert_eq!(path(&sudo), "/home/ann/.config/joycast/trusted_clients.json");
    }
    assert!(!TrustManager::is_root_context(&around()));
}

fn server(hostname: &str, target: &str) -> KnownServerInfo {
    KnownServerInfo {
        server_hostname: hostname.into(),
        target: target.into(),
        transport_type: "Direct UDP".into(),
        last_connected: "t".into(),
    }
}

fn record(history: &mut HistoryStore, hostname: &str, target: &str) {
    history.record_connection_at(hostname.into(), target.into(), "Direct UDP".into(), "t".into());
}

#[test]
fn history_holds_each_server_once_latest_first() {
    let mut history = HistoryStore::new("h".into(), None);
    record(&mut history, "desk", "1.1.1.1");
    record(&mut history, "tv", "2.2.2.2");
    assert_eq!(history.list_servers(), &vec![server("tv", "2.2.2.2"), server("desk", "1.1.1.1")]);
    // the same host name
    record(&mut history, "desk", "3.3.3.3");
    assert_eq!(history.list_servers(), &vec![server("desk", "3.3.3.3"), server("tv", "2.2.2.2")]);
    // the same target
    record(&mut history, "radio", "2.2.2.2");
    assert_eq!(
        history.list_servers(),
        &vec![server("radio", "2.2.2.2"), server("desk", "3.3.3.3")]
    );
    // the host name of one and the target of another
    record(&mut history, "radio", "3.3.3.3");
    assert_eq!(history.list_servers(), &vec![server("radio", "3.3.3.3")]);
    assert_eq!(history.store_path(), "h");
}

#[test]
fn servers_are_found_by_number_and_by_name() {
    let servers = vec![server("a", "1"), server("b", "2"), server("a", "3")];
    let history = HistoryStore::new("h".into(), Some(servers));
    assert_eq!(history.get_by_index(0), None);
    assert_eq!(history.get_by_index(1), Some(server("a", "1")));
    assert_eq!(history.get_by_index(3), Some(server("a", "3")));
    assert_eq!(history.get_by_index(4), None);
    assert_eq!(history.find_by_hostname("a"), Some(server("a", "1")));
    assert_eq!(history.find_by_hostname("A"), None);
    assert_eq!(
        HistoryStore::default_store_path(&Some("/c/".into())),
        "/c/joycast/known_servers.json"
    );
    assert_eq!(HistoryStore::default_store_path(&None), "./joycast/known_servers.json");
}

#[test]
fn connections_are_dated_now() {
    let mut history = HistoryStore::new("h".into(), None);
    history.record_connection("desk".into(), "1.1.1.1".into(), "Iroh P2P".into());
    let first = &history.list_servers()[0];
    assert_eq!(first.transport_type, "Iroh P2P");
    assert!(chrono::DateTime::parse_from_rfc3339(&first.last_connected).is_ok());
}

fn key_text() -> String {
    (0u8..32).map(|b| format!("{:02x}", b)).collect()
}

#[test]
fn keys_are_read_and_written_as_digits() {
    let text = key_text();
    let key = parse_secret_key_hex(&format!(" {}\n", text)).unwrap();
    assert_eq!(key[31], 31);
    assert_eq!(secret_key_text(&key), text);
    assert_eq!(parse_secret_key_hex(&text.to_uppercase()).unwrap(), key);
    assert!(matches!(parse_secret_key_hex("xyz"), Err(KeyError::NotHex(_))));
    assert!(matches!(parse_secret_key_hex("abc"), Err(KeyError::NotHex(_))));
    assert!(matches!(parse_secret_key_hex("abcd"), Err(KeyError::WrongLength(2))));
    assert!(matches!(parse_secret_key_hex(""), Err(KeyError::WrongLength(0))));
    assert_eq!(
        KeyError::WrongLength(120).message(),
        "Secret key must be 32 bytes (64 hex characters), got 120 bytes"
    );
    assert_eq!(
        parse_secret_key_hex("xyz").unwrap_err().message(),
        "Invalid hex string for secret key"
    );
}

#[test]
fn the_first_file_with_a_key_gives_it() {
    let text = key_text();
    let other = secret_key_text(&[7; 32]);
    let contents = vec![None, Some("not a key".into()), Some(text.clone()), Some(other)];
    let (i, key) = first_key(&contents).unwrap();
    assert_eq!(i, 2);
    assert_eq!(secret_key_text(&key), text);
    assert_eq!(load_or_generate(&contents), (key, Some(2)));
    assert_eq!(first_key(&vec![None]), None);
    let (made, place) = load_or_generate(&vec![None]);
    assert_eq!(place, None);
    assert_ne!(made, load_or_generate(&vec![]).0);
}

#[test]
fn keys_are_looked_for_in_the_usual_places() {
    assert_eq!(
        key_candidates(&around()),
        vec!["/etc/joycast/server.key", "/home/ann/.config/joycast/server.key"]
    );
    let sudo = Surroundings { sudo_user: Some("bob".into()), config_dir: None, ..around() };
    assert_eq!(
        key_candidates(&sudo),
        vec!["/etc/joycast/server.key", "/home/bob/.config/joycast/server.key"]
    );
    assert_eq!(new_key_path(&around(), false), "/home/ann/.config/joycast/server.key");
    assert_eq!(new_key_path(&around(), true), "/etc/joycast/server.key");
    assert_eq!(new_key_path(&sudo, false), "/etc/joycast/server.key");
    // a key that was made and kept is loaded at the next start
    let (key, place) = load_or_generate(&vec![None, None]);
    assert_eq!(place, None);
    let kept = new_key_path(&around(), false);
    let contents = key_candidates(&around())
        .iter()
        .map(|p| if *p == kept { Some(secret_key_text(&key)) } else { None })
        .collect();
    assert_eq!(load_or_generate(&contents), (key, Some(1)));
}

#[test]
fn a_client_keeps_its_id() {
    assert_eq!(stored_client_id(&Some(" id \n".into())), Some("id".into()));
    assert_eq!(stored_client_id(&Some(" \n".into())), None);
    assert_eq!(stored_client_id(&None), None);
    let (id, is_new) = load_or_create_client_id(&None);
    assert!(is_new);
    assert_eq!(id.len(), 64);
    assert!(id.chars().all(|c| c.is_ascii_digit() || ('a'..='f').contains(&c)));
    assert_eq!(load_or_create_client_id(&Some(id.clone())), (id.clone(), false));
    assert_ne!(new_client_id(), id);
    assert_eq!(client_id_path(&Some("/x".into()), &None), "/x");
    assert_eq!(client_id_path(&None, &Some("/c".into())), "/c/joycast/client_id");
    assert_eq!(client_id_path(&None, &None), "./joycast/client_id");
}

#[test]
fn a_server_is_set_up_as_configured() {
    let config = ServerConfig::default();
    assert_eq!(config.udp_addr(), Some(SocketAddress::V4 { ip: 0, port: 12398 }));
    assert_eq!(config.key_source(), KeySource::Search);
    let key = [7u8; 32];
    let server = JoycastServer::bind(config, manager(), Some(key));
    let node = iroh::SecretKey::from_bytes(&key).public();
    assert_eq!(server.iroh_node_id(), Some(*node.as_bytes()));
    let text = TargetAddress::node_text(node.as_bytes());
    assert_eq!(TargetAddress::from_str(&text), Ok(TargetAddress::Iroh(*node.as_bytes())));
    assert_eq!(server.udp_addr(), Some(SocketAddress::V4 { ip: 0, port: 12398 }));
    assert_eq!(server.trust_manager().store_path(), "/tmp/trusted_clients.json");

    let addr = SocketAddress::V6 { ip: 1, port: 2, flowinfo: 0, scope_id: 0 };
    let config = ServerConfig {
        bind_addr: Some(addr),
        secret_key: Some("text".into()),
        key_file: Some("file".into()),
        disable_udp: false,
        disable_iroh: true,
        trust_manager: Some(TrustManager::new("own".into(), None)),
    };
    assert_eq!(config.key_source(), KeySource::Text("text".into()));
    let server = JoycastServer::bind(config, manager(), Some(key));
    assert_eq!(server.iroh_node_id(), None);
    assert_eq!(server.udp_addr(), Some(addr));
    assert_eq!(server.into_trust_manager().store_path(), "own");

    let config = ServerConfig {
        bind_addr: None,
        key_file: Some("file".into()),
        ..ServerConfig::default()
    };
    assert_eq!(config.key_source(), KeySource::File("file".into()));
    assert_eq!(config.udp_addr(), Some(SocketAddress::V4 { ip: 0, port: 12398 }));
    let config = ServerConfig { disable_udp: true, ..config };
    assert_eq!(config.udp_addr(), None);
    assert_eq!(JoycastServer::bind(config, manager(), None).udp_addr(), None);
}

#[test]
fn a_table_holds_one_value_for_each_key() {
    let mut table: Table<String, u8> = Table::new();
    table.insert("a".into(), 1);
    table.insert("b".into(), 2);
    table.insert("a".into(), 3);
    assert_eq!(table.get(&"a".to_owned()), Some(&3));
    assert!(table.contains(&"b".to_owned()));
    if let Some(v) = table.get_mut(&"b".to_owned()) {
        *v = 9;
    }
    assert_eq!(table.remove(&"b".to_owned()), Some(9));
    assert_eq!(table.remove(&"b".to_owned()), None);
    assert_eq!(table.keys(), &vec!["a".to_owned()]);
}
