use thrussh::auth::{Auth, AuthRequest, CurrentRequest, MethodSet};
use cryptovec::CryptoVec;
use thrussh::server::ServerAction;
use thrussh::session::{Encrypted, EncryptedState, Error, Exchange};

fn ssh_string(out: &mut Vec<u8>, s: &[u8]) {
    out.extend_from_slice(&(s.len() as u32).to_be_bytes());
    out.extend_from_slice(s);
}

fn framed(p: &[u8]) -> Vec<u8> {
    let mut v = (p.len() as u32).to_be_bytes().to_vec();
    v.extend_from_slice(p);
    v
}

fn exchange() -> Exchange {
    Exchange {
        client_id: b"SSH-2.0-client".to_vec(),
        server_id: b"SSH-2.0-server".to_vec(),
        client_kex_init: vec![20],
        server_kex_init: vec![20],
    }
}

fn waiting_auth(methods: MethodSet) -> Encrypted {
    let a = AuthRequest { methods, partial_success: false, current: None, rejection_count: 0 };
    Encrypted::new(EncryptedState::WaitingAuthRequest(a), b"SID".to_vec(), exchange(), CryptoVec::new())
}

fn auth_head(user: &[u8], service: &[u8], method: &[u8]) -> Vec<u8> {
    let mut p = vec![50u8];
    ssh_string(&mut p, user);
    ssh_string(&mut p, service);
    ssh_string(&mut p, method);
    p
}

fn password_request(flag: u8) -> Vec<u8> {
    let mut p = auth_head(b"u", b"ssh-connection", b"password");
    p.push(flag);
    ssh_string(&mut p, b"p");
    p
}

fn failure(methods: &[u8], partial: u8) -> Vec<u8> {
    let mut p = vec![51u8];
    ssh_string(&mut p, methods);
    p.push(partial);
    framed(&p)
}

fn written(e: &Encrypted) -> Vec<u8> {
    e.write.to_vec()
}

fn rejection_count(e: &Encrypted) -> usize {
    match &e.state {
        EncryptedState::WaitingAuthRequest(a) => a.rejection_count,
        _ => panic!("not waiting for authentication"),
    }
}

#[test]
fn password_accept() {
    let mut e = waiting_auth(MethodSet::all());
    let mut user: Vec<u8> = Vec::new();
    let action = e.server_read_auth_request(&mut user, &password_request(0), 10).unwrap();
    match action {
        ServerAction::AuthPassword { user: u, password } => {
            assert_eq!(u, b"u".to_vec());
            assert_eq!(password, b"p".to_vec());
        }
        _ => panic!("expected a password question"),
    }
    assert_eq!(user, b"u".to_vec());
    let next = e.server_password_answered(&mut user, &Auth::Accept, 10);
    assert!(matches!(next, ServerAction::Done));
    assert!(matches!(e.state, EncryptedState::Authenticated));
    assert_eq!(written(&e), vec![0, 0, 0, 1, 52]);
}

#[test]
fn password_reject_lists_the_other_methods() {
    let mut e = waiting_auth(MethodSet::all());
    let mut user: Vec<u8> = Vec::new();
    e.server_read_auth_request(&mut user, &password_request(0), 10).unwrap();
    let next = e.server_password_answered(&mut user, &Auth::Reject, 10);
    assert!(matches!(next, ServerAction::Rejected));
    assert!(user.is_empty());
    assert_eq!(written(&e), failure(b"none,publickey,hostbased,keyboard-interactive", 0));
    assert_eq!(rejection_count(&e), 1);
}

#[test]
fn change_password_is_rejected_as_a_failure() {
    let mut e = waiting_auth(MethodSet::all());
    let mut user: Vec<u8> = Vec::new();
    let action = e.server_read_auth_request(&mut user, &password_request(1), 10).unwrap();
    assert!(matches!(action, ServerAction::Rejected));
    assert_eq!(written(&e), failure(b"none,publickey,hostbased,keyboard-interactive", 0));
}

#[test]
fn unknown_service_is_an_error() {
    let mut e = waiting_auth(MethodSet::all());
    let mut user: Vec<u8> = Vec::new();
    let r = e.server_read_auth_request(&mut user, &auth_head(b"u", b"ssh-other", b"password"), 10);
    assert!(matches!(r, Err(Error::Inconsistent)));
}

#[test]
fn truncated_request_is_malformed() {
    let mut e = waiting_auth(MethodSet::all());
    let mut user: Vec<u8> = Vec::new();
    let mut p = auth_head(b"u", b"ssh-connection", b"password");
    p.truncate(p.len() - 2);
    assert!(matches!(e.server_read_auth_request(&mut user, &p, 10), Err(Error::MalformedPacket)));
}

#[test]
fn unsupported_method_is_rejected() {
    let mut e = waiting_auth(MethodSet::all());
    let mut user: Vec<u8> = Vec::new();
    let action = e.server_read_auth_request(&mut user, &auth_head(b"u", b"ssh-connection", b"hostbased"), 10).unwrap();
    assert!(matches!(action, ServerAction::Rejected));
    assert_eq!(written(&e), failure(b"none,password,publickey,hostbased,keyboard-interactive", 0));
    assert_eq!(rejection_count(&e), 1);
}

fn pk_request(flag: u8, key: &[u8]) -> Vec<u8> {
    let mut p = auth_head(b"u", b"ssh-connection", b"publickey");
    p.push(flag);
    ssh_string(&mut p, b"ssh-ed25519");
    ssh_string(&mut p, key);
    p
}

#[test]
fn publickey_probe_then_signed() {
    let key = b"KEYBLOB".to_vec();
    let mut e = waiting_auth(MethodSet::all());
    let mut user: Vec<u8> = Vec::new();
    let probe = pk_request(0, &key);
    let (u, algo, k, is_real, pos) = match e.server_read_auth_request(&mut user, &probe, 10).unwrap() {
        ServerAction::ParsePublicKey { user, algo, key, is_real, pos } => (user, algo, key, is_real, pos),
        _ => panic!("expected a key to parse"),
    };
    assert!(!is_real);
    assert_eq!(pos, probe.len());
    let (algo, k) = match e.server_public_key_parsed(&mut user, u, algo, k, is_real, pos, true, &probe, 10).unwrap() {
        ServerAction::AuthPublicKeyProbe { algo, key, .. } => (algo, key),
        _ => panic!("expected a probe"),
    };
    assert_eq!(user, b"u".to_vec());
    assert!(matches!(e.server_probe_answered(&mut user, algo, k, &Auth::Accept, 10), ServerAction::Done));
    let mut pk_ok = vec![60u8];
    ssh_string(&mut pk_ok, b"ssh-ed25519");
    ssh_string(&mut pk_ok, &key);
    assert_eq!(written(&e), framed(&pk_ok));
    match &e.state {
        EncryptedState::WaitingAuthRequest(a) => {
            assert!(matches!(a.current, Some(CurrentRequest::PublicKey { sent_pk_ok: true, .. })));
        }
        _ => panic!("still authenticating"),
    }

    let mut signed = pk_request(1, &key);
    let prefix = signed.clone();
    let mut blob = Vec::new();
    ssh_string(&mut blob, b"ssh-ed25519");
    ssh_string(&mut blob, b"SIGNATURE");
    ssh_string(&mut signed, &blob);
    let (u, algo, k, is_real, pos) = match e.server_read_auth_request(&mut user, &signed, 10).unwrap() {
        ServerAction::ParsePublicKey { user, algo, key, is_real, pos } => (user, algo, key, is_real, pos),
        _ => panic!("expected a key to parse"),
    };
    assert!(is_real);
    let (data, sig) = match e.server_public_key_parsed(&mut user, u, algo, k, is_real, pos, true, &signed, 10).unwrap() {
        ServerAction::CheckSignature { signed, signature } => (signed, signature),
        _ => panic!("expected a signature check"),
    };
    let mut expected = Vec::new();
    ssh_string(&mut expected, b"SID");
    expected.extend_from_slice(&prefix);
    assert_eq!(data, expected);
    assert_eq!(sig, b"SIGNATURE".to_vec());
    assert!(matches!(e.server_signature_checked(true, 10), ServerAction::Done));
    assert!(matches!(e.state, EncryptedState::Authenticated));
    let mut all = framed(&pk_ok);
    all.extend_from_slice(&[0, 0, 0, 1, 52]);
    assert_eq!(written(&e), all);
}

#[test]
fn unreadable_key_is_rejected() {
    let mut e = waiting_auth(MethodSet::all());
    let mut user: Vec<u8> = Vec::new();
    let probe = pk_request(0, b"junk");
    let r = e
        .server_public_key_parsed(&mut user, b"u".to_vec(), b"ssh-ed25519".to_vec(), b"junk".to_vec(), false, probe.len(), false, &probe, 10)
        .unwrap();
    assert!(matches!(r, ServerAction::Rejected));
    assert_eq!(rejection_count(&e), 1);
}

#[test]
fn bad_signature_is_rejected() {
    let mut e = waiting_auth(MethodSet::all());
    assert!(matches!(e.server_signature_checked(false, 10), ServerAction::Rejected));
    assert_eq!(written(&e), failure(b"none,password,publickey,hostbased,keyboard-interactive", 0));
}

#[test]
fn first_signed_request_asks_the_handler() {
    let mut e = waiting_auth(MethodSet::all());
    let mut user: Vec<u8> = Vec::new();
    let mut signed = pk_request(1, b"K");
    let mut blob = Vec::new();
    ssh_string(&mut blob, b"ssh-ed25519");
    ssh_string(&mut blob, b"S");
    let pos = signed.len();
    ssh_string(&mut signed, &blob);
    let r = e
        .server_public_key_parsed(&mut user, b"u".to_vec(), b"ssh-ed25519".to_vec(), b"K".to_vec(), true, pos, true, &signed, 10)
        .unwrap();
    let (data, sig) = match r {
        ServerAction::AuthPublicKeySigned { signed, signature, .. } => (signed, signature),
        _ => panic!("expected the handler to be asked"),
    };
    assert_eq!(user, b"u".to_vec());
    match e.server_signed_key_answered(data, sig, &Auth::Reject, 10) {
        ServerAction::Rejected => {}
        _ => panic!("expected a rejection"),
    }
    assert_eq!(rejection_count(&e), 1);
}

#[test]
fn keyboard_interactive_partial_then_accept() {
    let mut e = waiting_auth(MethodSet::all());
    let mut user: Vec<u8> = Vec::new();
    let mut p = auth_head(b"u", b"ssh-connection", b"keyboard-interactive");
    ssh_string(&mut p, b"");
    ssh_string(&mut p, b"pam");
    match e.server_read_auth_request(&mut user, &p, 10).unwrap() {
        ServerAction::AuthKeyboardInteractive { user: u, submethods, response } => {
            assert_eq!(u, b"u".to_vec());
            assert_eq!(submethods, b"pam".to_vec());
            assert!(response.is_none());
        }
        _ => panic!("expected a keyboard-interactive question"),
    }
    let partial = Auth::Partial {
        name: "n".to_string(),
        instructions: "i".to_string(),
        prompts: vec![("Password: ".to_string(), false)],
    };
    assert!(matches!(e.server_keyboard_interactive_answered(&partial, 10), ServerAction::Done));
    let mut info = vec![60u8];
    ssh_string(&mut info, b"n");
    ssh_string(&mut info, b"i");
    ssh_string(&mut info, b"");
    info.extend_from_slice(&1u32.to_be_bytes());
    ssh_string(&mut info, b"Password: ");
    info.push(0);
    assert_eq!(written(&e), framed(&info));

    let mut resp = vec![61u8];
    resp.extend_from_slice(&2u32.to_be_bytes());
    ssh_string(&mut resp, b"secret");
    ssh_string(&mut resp, b"more");
    match e.read_userauth_info_response(&user, &resp, 10).unwrap() {
        ServerAction::AuthKeyboardInteractive { response: Some(mut r), submethods, .. } => {
            assert_eq!(submethods, b"pam".to_vec());
            assert_eq!(r.next(), Some(b"secret".to_vec()));
            assert_eq!(r.next(), Some(b"more".to_vec()));
            assert_eq!(r.next(), None);
        }
        _ => panic!("expected the responses"),
    }
    assert!(matches!(e.server_keyboard_interactive_answered(&Auth::Accept, 10), ServerAction::Done));
    assert!(matches!(e.state, EncryptedState::Authenticated));
}

#[test]
fn info_response_without_request_is_rejected() {
    let mut e = waiting_auth(MethodSet::all());
    let resp = vec![61u8, 0, 0, 0, 0];
    assert!(matches!(e.read_userauth_info_response(&Vec::new(), &resp, 10).unwrap(), ServerAction::Rejected));
}

#[test]
fn method_list_round_trips() {
    let m = MethodSet { none: false, password: true, publickey: false, hostbased: false, keyboard_interactive: true };
    assert_eq!(m.name_list(), b"password,keyboard-interactive".to_vec());
    assert_eq!(MethodSet::from_name_list(b"password,keyboard-interactive"), m);
    assert_eq!(MethodSet::from_name_list(b"passwordx,publickey"), MethodSet { publickey: true, ..MethodSet::empty() });
    assert!(MethodSet::from_name_list(b"").is_empty());
    assert_eq!(MethodSet::empty().name_list(), Vec::<u8>::new());
}

#[test]
fn the_last_allowed_rejection_ends_the_session() {
    let mut e = waiting_auth(MethodSet::all());
    let mut user: Vec<u8> = Vec::new();
    e.server_read_auth_request(&mut user, &password_request(0), 2).unwrap();
    assert!(matches!(e.server_password_answered(&mut user, &Auth::Reject, 2), ServerAction::Rejected));
    assert!(matches!(e.server_signature_checked(false, 2), ServerAction::RejectedLast));
    assert_eq!(rejection_count(&e), 2);
}
