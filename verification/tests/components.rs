use rm_personal_cloud::config::{ConfigError, ServerConfig};
use rm_personal_cloud::device_codes::DeviceCodeStore;
use rm_personal_cloud::notifications::{
    Notification, NotificationServer, Session, WsAction, WsMessage, WsNotificationSession,
};
use rm_personal_cloud::store::{DbFileMetadata, FileStore};
use rm_personal_cloud::txn::{is_sqlite_busy_err, retry_backoff_ms, retry_decision, RetryDecision};
use rm_personal_cloud::{
    DEVICE_CODE_EXPIRATION, DEVICE_CODE_LEN, WEBSOCKET_CLIENT_TIMEOUT,
};

// ---------------------------------------------------------------------------
// Configuration
// ---------------------------------------------------------------------------

#[test]
fn load_config_generates_and_reloads_one_key() {
    let (config, persist) =
        ServerConfig::load_config(None, "host.example.com".to_owned()).expect("fresh key");
    assert_eq!(config.jwt_secret_key.len(), 32);
    assert_eq!(config.server_host, "host.example.com");
    assert_eq!(persist.len(), 64);
    assert!(persist.chars().all(|c| c.is_ascii_hexdigit()));

    // A later startup reads the persisted value back to the same key.
    let (config2, persist2) =
        ServerConfig::load_config(Some(persist.clone()), "host.example.com".to_owned())
            .expect("persisted key reloads");
    assert_eq!(config2.jwt_secret_key, config.jwt_secret_key);
    assert_eq!(persist2, persist);
}

#[test]
fn load_config_rejects_corrupt_keys() {
    let bad = ServerConfig::load_config(Some("zz".repeat(32)), "h".to_owned());
    assert_eq!(bad.unwrap_err(), ConfigError::CorruptKey);

    let short = ServerConfig::load_config(Some("abcd".to_owned()), "h".to_owned());
    assert_eq!(short.unwrap_err(), ConfigError::CorruptKey);

    assert_eq!(ConfigError::CorruptKey.reason(), "Corrupt jwt_secret_key in database.");
}

#[test]
fn hex_key_encoding_is_exact() {
    // The persisted value is the key hex-encoded, low-to-high nibble order as
    // hex::encode writes it; pin one concrete correspondence.
    let (config, persist) = ServerConfig::load_config(None, "h".to_owned()).unwrap();
    let byte0 = config.jwt_secret_key[0];
    let expected0 = char::from_digit(((byte0 >> 4) & 15) as u32, 16).unwrap();
    let expected1 = char::from_digit((byte0 & 15) as u32, 16).unwrap();
    assert_eq!(persist.chars().next().unwrap(), expected0);
    assert_eq!(persist.chars().nth(1).unwrap(), expected1);
}

// ---------------------------------------------------------------------------
// Device codes
// ---------------------------------------------------------------------------

fn config() -> ServerConfig {
    ServerConfig {
        jwt_secret_key: (0u8..32).collect(),
        server_host: "h".to_owned(),
    }
}

#[test]
fn device_code_exchange() {
    let cfg = config();
    let mut codes = DeviceCodeStore::new();
    let code = codes.new_device_code(1000);
    assert_eq!(code.len(), DEVICE_CODE_LEN);
    for b in &code {
        let c = *b as char;
        assert!(c.is_ascii_alphanumeric());
        assert!(!"ilo IO 01".contains(c), "ambiguous glyph {c} in code");
    }

    let presented = String::from_utf8(code.clone()).unwrap();
    let token = codes
        .register_new_device(&presented, "tablet".to_owned(), "dev-1".to_owned(), &cfg, 1001)
        .expect("the freshly minted code exchanges");
    assert!(!token.is_empty());

    // A wrong code is refused.
    assert!(codes
        .register_new_device("aaaaaaaa", "tablet".to_owned(), "dev-1".to_owned(), &cfg, 1001)
        .is_none());
}

#[test]
fn device_code_expires() {
    let cfg = config();
    let mut codes = DeviceCodeStore::new();
    let code = codes.new_device_code(1000);
    let presented = String::from_utf8(code).unwrap();
    let too_late = 1000 + DEVICE_CODE_EXPIRATION + 1;
    assert!(codes
        .register_new_device(&presented, "t".to_owned(), "d".to_owned(), &cfg, too_late)
        .is_none());
}

#[test]
fn device_code_reuse_window() {
    // Expiry is the only cleanup, so an unexpired code exchanges twice.
    let cfg = config();
    let mut codes = DeviceCodeStore::new();
    let code = codes.new_device_code(1000);
    let presented = String::from_utf8(code).unwrap();
    assert!(codes
        .register_new_device(&presented, "t".to_owned(), "d1".to_owned(), &cfg, 1001)
        .is_some());
    assert!(codes
        .register_new_device(&presented, "t".to_owned(), "d2".to_owned(), &cfg, 1002)
        .is_some());
}

// ---------------------------------------------------------------------------
// Notification fanout
// ---------------------------------------------------------------------------

#[test]
fn publish_reaches_every_live_session_once() {
    let mut hub = NotificationServer::new();
    hub.subscribe(Session { session_id: 1, connected: true });
    hub.subscribe(Session { session_id: 2, connected: true });
    hub.subscribe(Session { session_id: 3, connected: true });
    hub.subscribe(Session { session_id: 4, connected: false });

    let deliveries = hub.send_message("change!");
    let ids: Vec<u64> = deliveries.iter().map(|d| d.session_id).collect();
    assert_eq!(ids, vec![1, 2, 3]);
    for d in &deliveries {
        assert_eq!(d.message, "change!");
    }

    // The dead session was pruned; a second publish reaches the three again.
    let again = hub.send_message("more");
    assert_eq!(again.len(), 3);
}

#[test]
fn notification_from_metadata_copies_the_row() {
    let meta = DbFileMetadata {
        id: "doc-9".to_owned(),
        version: 4,
        client_date_modified: 77,
        file_type: "DocumentType".to_owned(),
        name: "Notes".to_owned(),
        current_page: 2,
        bookmarked: true,
        parent: "folder".to_owned(),
        committed: true,
        deleted: 0,
    };
    let n = Notification::from_metadata("DocAdded", &meta, "a tablet", "dev-1");
    assert_eq!(n.event, "DocAdded");
    assert_eq!(n.id, "doc-9");
    assert_eq!(n.version, 4);
    assert_eq!(n.file_type, "DocumentType");
    assert_eq!(n.name, "Notes");
    assert!(n.bookmarked);
    assert_eq!(n.parent, "folder");
    assert_eq!(n.source_device_desc, "a tablet");
    assert_eq!(n.source_device_id, "dev-1");
}

#[test]
fn live_session_protocol() {
    let mut s = WsNotificationSession { last_heartbeat: 100 };

    match s.handle(WsMessage::Ping(vec![1, 2]), 150) {
        WsAction::ReplyPong(p) => assert_eq!(p, vec![1, 2]),
        _ => panic!("a ping is answered with a pong"),
    }
    assert_eq!(s.last_heartbeat, 150);

    assert!(matches!(s.handle(WsMessage::Pong, 200), WsAction::Nothing));
    assert_eq!(s.last_heartbeat, 200);

    assert!(matches!(s.handle(WsMessage::Text, 300), WsAction::Nothing));
    assert_eq!(s.last_heartbeat, 200);

    assert!(matches!(s.handle(WsMessage::Close, 300), WsAction::CloseAndStop));
    assert!(matches!(s.handle(WsMessage::Continuation, 300), WsAction::Stop));
    assert!(matches!(s.handle(WsMessage::ProtocolError, 300), WsAction::Stop));

    // The liveness check fires only past the client timeout.
    assert!(!s.heartbeat(200 + WEBSOCKET_CLIENT_TIMEOUT));
    assert!(s.heartbeat(200 + WEBSOCKET_CLIENT_TIMEOUT + 1));
}

// ---------------------------------------------------------------------------
// Transaction discipline
// ---------------------------------------------------------------------------

#[test]
fn busy_detection_reads_the_primary_code() {
    assert!(is_sqlite_busy_err(Some(5)));
    assert!(is_sqlite_busy_err(Some(5 + 256))); // extended busy code
    assert!(!is_sqlite_busy_err(Some(6)));
    assert!(!is_sqlite_busy_err(None));
}

#[test]
fn only_busy_errors_are_retried_and_only_so_often() {
    assert_eq!(retry_decision(Some(5), 0), RetryDecision::Retry);
    assert_eq!(retry_decision(Some(261), 3), RetryDecision::Retry);
    assert_eq!(retry_decision(Some(1), 0), RetryDecision::Abort);
    assert_eq!(retry_decision(None, 0), RetryDecision::Abort);
    assert_eq!(retry_decision(Some(5), 64), RetryDecision::Abort);
}

#[test]
fn backoff_doubles_then_caps() {
    assert_eq!(retry_backoff_ms(0), 1);
    assert_eq!(retry_backoff_ms(1), 2);
    assert_eq!(retry_backoff_ms(5), 32);
    assert_eq!(retry_backoff_ms(6), 64);
    assert_eq!(retry_backoff_ms(1000), 64);
}

// ---------------------------------------------------------------------------
// A full sequence across components
// ---------------------------------------------------------------------------

#[test]
fn store_and_fanout_work_together() {
    let mut store = FileStore::new();
    let mut hub = NotificationServer::new();
    hub.subscribe(Session { session_id: 7, connected: true });

    assert!(store.put_data("doc".to_owned(), 1, b"bits", 5));
    let meta = store
        .put_metadata("doc".to_owned(), 1, 6, None, None, None, None, None)
        .unwrap();
    let note = Notification::from_metadata("DocAdded", &meta, "tablet", "dev");
    assert_eq!(note.version, 1);
    let deliveries = hub.send_message(&note.id);
    assert_eq!(deliveries.len(), 1);
    assert_eq!(deliveries[0].session_id, 7);
}
