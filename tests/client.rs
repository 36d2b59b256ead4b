use thrussh::auth::{AuthRequest, MethodSet};
use thrussh::client::{ClientAction, Method, PublicKeyBlob, Session};
use cryptovec::CryptoVec;
use thrussh::server_session::{Kex, NewKeys};
use thrussh::session::{Channel, ChannelId, Encrypted, EncryptedState, Error, Exchange};

fn ssh_string(out: &mut Vec<u8>, s: &[u8]) {
    out.extend_from_slice(&(s.len() as u32).to_be_bytes());
    out.extend_from_slice(s);
}

fn framed(p: &[u8]) -> Vec<u8> {
    let mut v = (p.len() as u32).to_be_bytes().to_vec();
    v.extend_from_slice(p);
    v
}

fn session(state: EncryptedState) -> Session {
    let ex = Exchange { client_id: vec![], server_id: vec![], client_kex_init: vec![], server_kex_init: vec![] };
    Session {
        encrypted: Some(Encrypted::new(state, b"SID".to_vec(), ex, CryptoVec::new())),
        kex: None,
        auth_user: Vec::new(),
        auth_method: None,
        window_size: 100,
    }
}

fn written(s: &Session) -> Vec<u8> {
    s.encrypted.as_ref().unwrap().write.to_vec()
}

fn waiting_auth() -> EncryptedState {
    EncryptedState::WaitingAuthRequest(AuthRequest { methods: MethodSet::all(), partial_success: false, current: None, rejection_count: 0 })
}

fn key() -> PublicKeyBlob {
    PublicKeyBlob { algo: b"ssh-ed25519".to_vec(), blob: b"K".to_vec() }
}

fn password_request() -> Vec<u8> {
    let mut p = vec![50u8];
    ssh_string(&mut p, b"u");
    ssh_string(&mut p, b"ssh-connection");
    ssh_string(&mut p, b"password");
    p.push(0);
    ssh_string(&mut p, b"p");
    p
}

#[test]
fn auth_request_waits_for_the_service() {
    let mut s = session(EncryptedState::WaitingServiceRequest { accepted: false });
    assert!(!s.write_auth_request_if_needed(b"u", Method::Password { password: "p".to_string() }));
    assert!(written(&s).is_empty());
    assert_eq!(s.auth_user, b"u".to_vec());
    let mut accept = vec![6u8];
    ssh_string(&mut accept, b"ssh-userauth");
    assert!(matches!(s.client_read_encrypted(&accept).unwrap(), ClientAction::Done));
    assert!(matches!(s.encrypted.as_ref().unwrap().state, EncryptedState::WaitingAuthRequest(_)));
    assert_eq!(written(&s), framed(&password_request()));
}

#[test]
fn auth_request_is_written_at_once_when_awaited() {
    let mut s = session(waiting_auth());
    assert!(s.write_auth_request_if_needed(b"u", Method::Password { password: "p".to_string() }));
    assert_eq!(written(&s), framed(&password_request()));
}

#[test]
fn publickey_probe_is_written() {
    let mut s = session(EncryptedState::WaitingServiceRequest { accepted: true });
    assert!(s.write_auth_request_if_needed(b"u", Method::PublicKey { key: key() }));
    let mut p = vec![50u8];
    ssh_string(&mut p, b"u");
    ssh_string(&mut p, b"ssh-connection");
    ssh_string(&mut p, b"publickey");
    p.push(0);
    ssh_string(&mut p, b"ssh-ed25519");
    ssh_string(&mut p, b"K");
    assert_eq!(written(&s), framed(&p));
}

#[test]
fn failure_with_no_method_left_is_fatal() {
    let mut s = session(waiting_auth());
    let mut p = vec![51u8];
    ssh_string(&mut p, b"");
    p.push(0);
    assert!(matches!(s.client_read_encrypted(&p).unwrap(), ClientAction::AuthFailure { fatal: true }));
    let mut q = vec![51u8];
    ssh_string(&mut q, b"publickey,password");
    q.push(0);
    assert!(matches!(s.client_read_encrypted(&q).unwrap(), ClientAction::AuthFailure { fatal: false }));
    match &s.encrypted.as_ref().unwrap().state {
        EncryptedState::WaitingAuthRequest(a) => {
            assert_eq!(a.methods, MethodSet { password: true, publickey: true, ..MethodSet::empty() })
        }
        _ => panic!("still authenticating"),
    }
}

#[test]
fn success_authenticates() {
    let mut s = session(waiting_auth());
    assert!(matches!(s.client_read_encrypted(&[52]).unwrap(), ClientAction::AuthSuccess));
    assert!(matches!(s.encrypted.as_ref().unwrap().state, EncryptedState::Authenticated));
}

#[test]
fn unexpected_packet_while_authenticating_is_an_error() {
    let mut s = session(waiting_auth());
    assert!(matches!(s.client_read_encrypted(&[94, 0]), Err(Error::Inconsistent)));
}

#[test]
fn pk_ok_asks_for_a_signature() {
    let mut s = session(waiting_auth());
    s.auth_user = b"u".to_vec();
    s.auth_method = Some(Method::FuturePublicKey { key: key() });
    let (data, start) = match s.client_read_encrypted(&[60]).unwrap() {
        ClientAction::SignRequest { data, start, key: k } => {
            assert_eq!(k.blob, b"K".to_vec());
            (data, start)
        }
        _ => panic!("expected a signing request"),
    };
    let mut expected = Vec::new();
    ssh_string(&mut expected, b"SID");
    assert_eq!(start, expected.len());
    expected.push(50);
    ssh_string(&mut expected, b"u");
    ssh_string(&mut expected, b"ssh-connection");
    ssh_string(&mut expected, b"publickey");
    expected.push(1);
    ssh_string(&mut expected, b"ssh-ed25519");
    ssh_string(&mut expected, b"K");
    assert_eq!(data, expected);
    assert!(s.auth_method.is_none());

    let enc = s.encrypted.as_mut().unwrap();
    enc.client_signed_reply(&data, start, &data);
    assert!(enc.write.is_empty());
    let mut signed = data.clone();
    ssh_string(&mut signed, b"SIG");
    enc.client_signed_reply(&data, start, &signed);
    assert_eq!(enc.write.to_vec(), framed(&signed[start..]));
}

#[test]
fn channel_confirmation_fills_the_channel() {
    let mut s = session(EncryptedState::Authenticated);
    let c = Channel {
        recipient_channel: 0,
        sender_channel: ChannelId(4),
        recipient_window_size: 0,
        sender_window_size: 100,
        recipient_maximum_packet_size: 0,
        sender_maximum_packet_size: 100,
        confirmed: false,
        wants_reply: false,
    };
    s.encrypted.as_mut().unwrap().insert_channel(c);
    let mut p = vec![91u8];
    for x in [4u32, 9, 300, 400] {
        p.extend_from_slice(&x.to_be_bytes());
    }
    assert!(matches!(s.client_read_encrypted(&p).unwrap(), ClientAction::ChannelOpenConfirmation { channel } if channel == ChannelId(4)));
    let ch = s.encrypted.as_ref().unwrap().channels[0];
    assert_eq!((ch.recipient_channel, ch.recipient_window_size, ch.recipient_maximum_packet_size, ch.confirmed), (9, 300, 400, true));
    let mut q = vec![91u8];
    for x in [5u32, 9, 300, 400] {
        q.extend_from_slice(&x.to_be_bytes());
    }
    assert!(matches!(s.client_read_encrypted(&q), Err(Error::Inconsistent)));
}

#[test]
fn exit_status_is_read() {
    let mut s = session(EncryptedState::Authenticated);
    let mut p = vec![98u8];
    p.extend_from_slice(&4u32.to_be_bytes());
    ssh_string(&mut p, b"exit-status");
    p.push(0);
    p.extend_from_slice(&2u32.to_be_bytes());
    assert!(matches!(s.client_read_encrypted(&p).unwrap(), ClientAction::ExitStatus { exit_status: 2, .. }));
}

#[test]
fn client_rekey_takes_the_exchange() {
    let mut s = session(EncryptedState::Authenticated);
    assert!(matches!(s.client_read_encrypted(&[20]).unwrap(), ClientAction::Rekey { .. }));
    assert!(s.encrypted.as_ref().unwrap().exchange.is_none());
    assert!(matches!(s.client_read_encrypted(&[20]).unwrap(), ClientAction::Done));
}

#[test]
fn same_length_but_different_signature_is_sent() {
    let mut s = session(waiting_auth());
    let enc = s.encrypted.as_mut().unwrap();
    let sent = vec![0u8, 0, 0, 1, 9, 50, 1, 2];
    let back = vec![0u8, 0, 0, 1, 9, 50, 7, 7];
    enc.client_signed_reply(&sent, 5, &back);
    assert_eq!(enc.write.to_vec(), framed(&[50, 7, 7]));
}

#[test]
fn banner_is_shown_only_when_utf8() {
    let mut s = session(waiting_auth());
    let mut p = vec![53u8];
    ssh_string(&mut p, "h\u{e9}llo".as_bytes());
    ssh_string(&mut p, b"");
    assert!(matches!(s.client_read_encrypted(&p).unwrap(), ClientAction::AuthBanner { text } if text == "h\u{e9}llo".as_bytes().to_vec()));
    let mut q = vec![53u8];
    ssh_string(&mut q, &[0xff, 0xfe]);
    ssh_string(&mut q, b"");
    assert!(matches!(s.client_read_encrypted(&q).unwrap(), ClientAction::Done));
}

#[test]
fn client_routes_through_the_key_exchange() {
    let ex = Exchange { client_id: vec![], server_id: vec![], client_kex_init: vec![], server_kex_init: vec![] };
    let mut s = Session { encrypted: None, kex: Some(Kex::KexDhDone), auth_user: Vec::new(), auth_method: None, window_size: 100 };
    assert!(matches!(s.reply(&[31]).unwrap(), ClientAction::Kex));
    s.kex = Some(Kex::NewKeys(NewKeys { exchange: ex, session_id: b"S1".to_vec() }));
    assert!(matches!(s.reply(&[94]), Err(Error::Kex)));
    let ex2 = Exchange { client_id: vec![], server_id: vec![], client_kex_init: vec![], server_kex_init: vec![] };
    s.kex = Some(Kex::NewKeys(NewKeys { exchange: ex2, session_id: b"S1".to_vec() }));
    assert!(matches!(s.reply(&[21]).unwrap(), ClientAction::Done));
    let e = s.encrypted.as_ref().unwrap();
    assert!(matches!(e.state, EncryptedState::WaitingServiceRequest { accepted: false }));
    assert_eq!(e.session_id, b"S1".to_vec());
    assert!(matches!(s.reply(&[52]), Err(Error::Inconsistent)));
}

#[test]
fn duplicate_channel_ids_break_the_table() {
    let mut s = session(EncryptedState::Authenticated);
    let c = Channel {
        recipient_channel: 0,
        sender_channel: ChannelId(4),
        recipient_window_size: 0,
        sender_window_size: 0,
        recipient_maximum_packet_size: 0,
        sender_maximum_packet_size: 0,
        confirmed: true,
        wants_reply: false,
    };
    let enc = s.encrypted.as_mut().unwrap();
    enc.insert_channel(c);
    assert!(enc.wf_holds());
    enc.channels.push(c);
    assert!(!enc.wf_holds());
}
