use thrussh::auth::MethodSet;
use thrussh::server::{Config, ServerAction};
use thrussh::server_session::{inbound_kind, Inbound, Kex, NewKeys, Session};
use thrussh::session::{EncryptedState, Error, Exchange};

fn ssh_string(out: &mut Vec<u8>, s: &[u8]) {
    out.extend_from_slice(&(s.len() as u32).to_be_bytes());
    out.extend_from_slice(s);
}

fn exchange() -> Exchange {
    Exchange { client_id: b"c".to_vec(), server_id: b"s".to_vec(), client_kex_init: vec![], server_kex_init: vec![] }
}

fn new_session() -> Session {
    let mut s = Session {
        encrypted: None,
        kex: Some(Kex::NewKeys(NewKeys { exchange: exchange(), session_id: b"FIRST".to_vec() })),
        auth_user: Vec::new(),
        wants_reply: false,
        disconnected: false,
        config: Config::default(),
    };
    assert!(matches!(s.reply(&[21]).unwrap(), ServerAction::Done));
    s
}

#[test]
fn default_config() {
    let c = Config::default();
    assert_eq!(c.auth_rejection_time_ms, 1000);
    assert_eq!(c.window_size, 200000);
    assert_eq!(c.maximum_packet_size, 200000);
    assert_eq!(c.max_auth_attempts, 10);
    assert_eq!(c.connection_timeout_ms, Some(600000));
    assert_eq!(c.methods, MethodSet::all());
    assert!(c.auth_banner.is_none());
}

#[test]
fn newkeys_installs_the_encrypted_state() {
    let s = new_session();
    let e = s.encrypted.as_ref().unwrap();
    assert!(matches!(e.state, EncryptedState::WaitingServiceRequest { accepted: false }));
    assert_eq!(e.session_id, b"FIRST".to_vec());
    assert!(s.kex.is_none());
}

#[test]
fn missing_newkeys_is_a_kex_error() {
    let mut s = new_session();
    s.kex = Some(Kex::NewKeys(NewKeys { exchange: exchange(), session_id: b"X".to_vec() }));
    assert!(matches!(s.reply(&[94]), Err(Error::Kex)));
}

#[test]
fn service_request_starts_authentication() {
    let mut s = new_session();
    s.config.auth_banner = Some("hi".to_string());
    let mut p = vec![5u8];
    ssh_string(&mut p, b"ssh-userauth");
    assert!(matches!(s.reply(&p).unwrap(), ServerAction::Done));
    let e = s.encrypted.as_ref().unwrap();
    assert!(matches!(e.state, EncryptedState::WaitingAuthRequest(_)));
    let mut accept = vec![6u8];
    ssh_string(&mut accept, b"ssh-userauth");
    let mut banner = vec![53u8];
    ssh_string(&mut banner, b"hi");
    ssh_string(&mut banner, b"");
    let mut expected = (accept.len() as u32).to_be_bytes().to_vec();
    expected.extend_from_slice(&accept);
    expected.extend_from_slice(&(banner.len() as u32).to_be_bytes());
    expected.extend_from_slice(&banner);
    assert_eq!(e.write.to_vec(), expected);
}

#[test]
fn other_packets_before_the_service_request_are_errors() {
    let mut s = new_session();
    assert!(matches!(s.reply(&[50, 0, 0, 0, 0]), Err(Error::Inconsistent)));
}

#[test]
fn rekey_under_traffic() {
    let mut s = new_session();
    s.encrypted.as_mut().unwrap().state = EncryptedState::Authenticated;
    let mut open = vec![90u8];
    ssh_string(&mut open, b"session");
    for x in [3u32, 1000, 1000] {
        open.extend_from_slice(&x.to_be_bytes());
    }
    let id = match s.reply(&open).unwrap() {
        ServerAction::ChannelOpenSession { channel } => channel,
        _ => panic!("expected a channel"),
    };
    let mut data = vec![94u8];
    data.extend_from_slice(&id.0.to_be_bytes());
    ssh_string(&mut data, b"before");

    match s.reply(&[20, 1, 2, 3]).unwrap() {
        ServerAction::Rekey { exchange: x } => assert_eq!(x.client_id, b"c".to_vec()),
        _ => panic!("expected a re-exchange"),
    }
    assert!(s.kex.is_some());
    assert!(matches!(s.reply(&[20, 1, 2, 3]).unwrap(), ServerAction::Kex));
    assert!(matches!(s.reply(&data).unwrap(), ServerAction::Kex));
    s.kex = Some(Kex::NewKeys(NewKeys { exchange: exchange(), session_id: b"SECOND".to_vec() }));
    assert!(matches!(s.reply(&[21]).unwrap(), ServerAction::Done));
    let e = s.encrypted.as_ref().unwrap();
    assert_eq!(e.session_id, b"FIRST".to_vec());
    assert!(matches!(e.state, EncryptedState::Authenticated));
    assert!(e.exchange.is_some());
    match s.reply(&data).unwrap() {
        ServerAction::Data { channel, data } => {
            assert_eq!(channel, id);
            assert_eq!(data, b"before".to_vec());
        }
        _ => panic!("expected data after the re-exchange"),
    }
}

#[test]
fn inbound_packets_are_sorted() {
    assert_eq!(inbound_kind(&[]), Inbound::Disconnect);
    assert_eq!(inbound_kind(&[1, 0]), Inbound::Disconnect);
    assert_eq!(inbound_kind(&[2]), Inbound::Ignore);
    assert_eq!(inbound_kind(&[4]), Inbound::Ignore);
    assert_eq!(inbound_kind(&[5]), Inbound::Packet);
    assert_eq!(inbound_kind(&[94]), Inbound::Packet);
}

#[test]
fn reaching_the_attempt_limit_ends_the_session() {
    let mut s = new_session();
    s.config.max_auth_attempts = 2;
    let mut p = vec![5u8];
    ssh_string(&mut p, b"ssh-userauth");
    s.reply(&p).unwrap();
    let mut bad = vec![50u8];
    ssh_string(&mut bad, b"u");
    ssh_string(&mut bad, b"ssh-connection");
    ssh_string(&mut bad, b"hostbased");
    assert!(matches!(s.reply(&bad).unwrap(), ServerAction::Rejected));
    assert!(!s.disconnected);
    assert!(matches!(s.reply(&bad).unwrap(), ServerAction::RejectedLast));
    assert!(s.disconnected);
}
