use cryptovec::CryptoVec;
use thrussh::server::ServerAction;
use thrussh::server_channel::read_modes;
use thrussh::session::{Channel, ChannelId, Encrypted, EncryptedState, Error, Exchange};

fn ssh_string(out: &mut Vec<u8>, s: &[u8]) {
    out.extend_from_slice(&(s.len() as u32).to_be_bytes());
    out.extend_from_slice(s);
}

fn framed(p: &[u8]) -> Vec<u8> {
    let mut v = (p.len() as u32).to_be_bytes().to_vec();
    v.extend_from_slice(p);
    v
}

fn exchange() -> Exchange {
    Exchange { client_id: vec![], server_id: vec![], client_kex_init: vec![], server_kex_init: vec![] }
}

fn authenticated() -> Encrypted {
    Encrypted::new(EncryptedState::Authenticated, b"SID".to_vec(), exchange(), CryptoVec::new())
}

fn open_packet(typ: &[u8], sender: u32) -> Vec<u8> {
    let mut p = vec![90u8];
    ssh_string(&mut p, typ);
    p.extend_from_slice(&sender.to_be_bytes());
    p.extend_from_slice(&1000u32.to_be_bytes());
    p.extend_from_slice(&500u32.to_be_bytes());
    p
}

fn data_packet(id: u32, d: &[u8]) -> Vec<u8> {
    let mut p = vec![94u8];
    p.extend_from_slice(&id.to_be_bytes());
    ssh_string(&mut p, d);
    p
}

fn written(e: &Encrypted) -> Vec<u8> {
    e.write.to_vec()
}

fn open_session(e: &mut Encrypted, window: u32) -> ChannelId {
    let mut w = false;
    match e.server_read_authenticated(window, 32768, &mut w, &open_packet(b"session", 7)).unwrap() {
        ServerAction::ChannelOpenSession { channel } => channel,
        _ => panic!("expected a session channel"),
    }
}

#[test]
fn channel_echo() {
    let mut e = authenticated();
    let id = open_session(&mut e, 10);
    assert_eq!(e.channels.len(), 1);
    let mut conf = vec![91u8];
    conf.extend_from_slice(&7u32.to_be_bytes());
    conf.extend_from_slice(&id.0.to_be_bytes());
    conf.extend_from_slice(&10u32.to_be_bytes());
    conf.extend_from_slice(&32768u32.to_be_bytes());
    assert_eq!(written(&e), framed(&conf));

    let mut w = false;
    match e.server_read_authenticated(10, 32768, &mut w, &data_packet(id.0, b"hello")).unwrap() {
        ServerAction::Data { channel, data } => {
            assert_eq!(channel, id);
            assert_eq!(data, b"hello".to_vec());
        }
        _ => panic!("expected data"),
    }
    assert_eq!(e.channels[0].sender_window_size, 5);
    assert_eq!(written(&e), framed(&conf));

    e.server_read_authenticated(10, 32768, &mut w, &data_packet(id.0, b"hello")).unwrap();
    let mut adj = vec![93u8];
    adj.extend_from_slice(&7u32.to_be_bytes());
    adj.extend_from_slice(&10u32.to_be_bytes());
    let mut all = framed(&conf);
    all.extend_from_slice(&framed(&adj));
    assert_eq!(written(&e), all);
    assert_eq!(e.channels[0].sender_window_size, 10);
}

#[test]
fn unknown_channel_type() {
    let mut e = authenticated();
    let mut w = false;
    let r = e.server_read_authenticated(200000, 200000, &mut w, &open_packet(b"foo", 9)).unwrap();
    assert!(matches!(r, ServerAction::Done));
    assert!(e.channels.is_empty());
    let mut f = vec![92u8];
    f.extend_from_slice(&9u32.to_be_bytes());
    f.extend_from_slice(&3u32.to_be_bytes());
    ssh_string(&mut f, b"Unknown channel type");
    ssh_string(&mut f, b"en");
    assert_eq!(written(&e), framed(&f));
}

#[test]
fn channel_ids_are_fresh() {
    let mut e = authenticated();
    let a = open_session(&mut e, 100);
    let b = open_session(&mut e, 100);
    assert_ne!(a, b);
    assert_eq!(b.0, a.0 + 1);
}

#[test]
fn close_removes_the_channel() {
    let mut e = authenticated();
    let id = open_session(&mut e, 100);
    let mut p = vec![97u8];
    p.extend_from_slice(&id.0.to_be_bytes());
    let mut w = false;
    assert!(matches!(e.server_read_authenticated(100, 100, &mut w, &p).unwrap(), ServerAction::ChannelClose { channel } if channel == id));
    assert!(e.channels.is_empty());
}

#[test]
fn window_adjust_on_unknown_channel_is_an_error() {
    let mut e = authenticated();
    let mut p = vec![93u8];
    p.extend_from_slice(&5u32.to_be_bytes());
    p.extend_from_slice(&100u32.to_be_bytes());
    let mut w = false;
    assert!(matches!(e.server_read_authenticated(100, 100, &mut w, &p), Err(Error::WrongChannel)));
}

#[test]
fn window_adjust_adds_to_the_peer_window() {
    let mut e = authenticated();
    let id = open_session(&mut e, 100);
    let mut p = vec![93u8];
    p.extend_from_slice(&id.0.to_be_bytes());
    p.extend_from_slice(&24u32.to_be_bytes());
    let mut w = false;
    match e.server_read_authenticated(100, 100, &mut w, &p).unwrap() {
        ServerAction::WindowAdjusted { new_window_size, .. } => assert_eq!(new_window_size, 1024),
        _ => panic!("expected a window adjustment"),
    }
    let mut big = vec![93u8];
    big.extend_from_slice(&id.0.to_be_bytes());
    big.extend_from_slice(&u32::MAX.to_be_bytes());
    assert!(matches!(e.server_read_authenticated(100, 100, &mut w, &big), Err(Error::Inconsistent)));
}

fn request(id: u32, name: &[u8], want: u8) -> Vec<u8> {
    let mut p = vec![98u8];
    p.extend_from_slice(&id.to_be_bytes());
    ssh_string(&mut p, name);
    p.push(want);
    p
}

#[test]
fn pty_request_is_read() {
    let mut e = authenticated();
    let id = open_session(&mut e, 100);
    let mut p = request(id.0, b"pty-req", 1);
    ssh_string(&mut p, b"xterm");
    for x in [80u32, 24, 640, 480] {
        p.extend_from_slice(&x.to_be_bytes());
    }
    ssh_string(&mut p, &[1, 0, 0, 0, 3, 53, 0, 0, 0, 1, 0]);
    let mut w = false;
    match e.server_read_authenticated(100, 100, &mut w, &p).unwrap() {
        ServerAction::PtyRequest { term, col_width, row_height, modes, .. } => {
            assert_eq!(term, b"xterm".to_vec());
            assert_eq!((col_width, row_height), (80, 24));
            assert_eq!(modes, vec![(1u8, 3u32), (53u8, 1u32)]);
        }
        _ => panic!("expected a pty request"),
    }
    assert!(e.channels[0].wants_reply);
}

#[test]
fn modes_stop_at_end_and_cut_entries_fail() {
    assert_eq!(read_modes(&[]), Some(vec![]));
    assert_eq!(read_modes(&[0, 9, 9]), Some(vec![]));
    assert_eq!(read_modes(&[7, 0, 0, 1, 0]), Some(vec![(7, 256)]));
    assert_eq!(read_modes(&[7, 0, 0]), None);
}

#[test]
fn unknown_request_fails_only_when_a_reply_is_wanted() {
    let mut e = authenticated();
    let id = open_session(&mut e, 100);
    let before = written(&e);
    let mut w = false;
    e.server_read_authenticated(100, 100, &mut w, &request(id.0, b"frobnicate", 0)).unwrap();
    assert_eq!(written(&e), before);
    e.server_read_authenticated(100, 100, &mut w, &request(id.0, b"frobnicate", 1)).unwrap();
    let mut after = before.clone();
    after.extend_from_slice(&framed(&[100]));
    assert_eq!(written(&e), after);
}

#[test]
fn exec_and_env_requests_are_read() {
    let mut e = authenticated();
    let id = open_session(&mut e, 100);
    let mut p = request(id.0, b"exec", 0);
    ssh_string(&mut p, b"ls -l");
    let mut w = false;
    assert!(matches!(e.server_read_authenticated(100, 100, &mut w, &p).unwrap(),
        ServerAction::ExecRequest { data, .. } if data == b"ls -l".to_vec()));
    let mut q = request(id.0, b"env", 0);
    ssh_string(&mut q, b"LANG");
    ssh_string(&mut q, b"C");
    assert!(matches!(e.server_read_authenticated(100, 100, &mut w, &q).unwrap(),
        ServerAction::EnvRequest { variable_name, variable_value, .. } if variable_name == b"LANG".to_vec() && variable_value == b"C".to_vec()));
}

#[test]
fn global_requests() {
    let mut e = authenticated();
    let mut p = vec![80u8];
    ssh_string(&mut p, b"tcpip-forward");
    p.push(1);
    ssh_string(&mut p, b"0.0.0.0");
    p.extend_from_slice(&8080u32.to_be_bytes());
    let mut w = false;
    match e.server_read_authenticated(100, 100, &mut w, &p).unwrap() {
        ServerAction::TcpipForward { address, port } => {
            assert_eq!(address, b"0.0.0.0".to_vec());
            assert_eq!(port, 8080);
        }
        _ => panic!("expected a forwarding"),
    }
    assert!(w);
    e.server_global_reply(true);
    assert_eq!(written(&e), framed(&[81]));
    let mut q = vec![80u8];
    ssh_string(&mut q, b"keepalive@openssh.com");
    q.push(1);
    assert!(matches!(e.server_read_authenticated(100, 100, &mut w, &q).unwrap(), ServerAction::Done));
    let mut all = framed(&[81]);
    all.extend_from_slice(&framed(&[82]));
    assert_eq!(written(&e), all);
}

#[test]
fn data_on_unknown_channel_changes_nothing() {
    let mut e = authenticated();
    let mut w = false;
    let r = e.server_read_authenticated(100, 100, &mut w, &data_packet(42, b"x")).unwrap();
    assert!(matches!(r, ServerAction::Data { .. }));
    assert!(written(&e).is_empty());
}

#[test]
fn new_channel_id_skips_ids_in_use() {
    let mut e = authenticated();
    let c = Channel {
        recipient_channel: 0,
        sender_channel: ChannelId(1),
        recipient_window_size: 0,
        sender_window_size: 0,
        recipient_maximum_packet_size: 0,
        sender_maximum_packet_size: 0,
        confirmed: true,
        wants_reply: false,
    };
    e.insert_channel(c);
    assert_eq!(e.new_channel_id(), Some(ChannelId(2)));
    assert_eq!(e.last_channel_id, 2);
}

fn peer_channel(window: u32, max_packet: u32) -> Encrypted {
    let mut e = authenticated();
    e.insert_channel(Channel {
        recipient_channel: 77,
        sender_channel: ChannelId(1),
        recipient_window_size: window,
        sender_window_size: 100,
        recipient_maximum_packet_size: max_packet,
        sender_maximum_packet_size: 100,
        confirmed: true,
        wants_reply: false,
    });
    e
}

fn sent_packet(d: &[u8]) -> Vec<u8> {
    let mut p = vec![94u8];
    p.extend_from_slice(&77u32.to_be_bytes());
    ssh_string(&mut p, d);
    framed(&p)
}

#[test]
fn data_is_cut_to_the_packet_size() {
    let mut e = peer_channel(100, 4);
    assert_eq!(e.data(ChannelId(1), None, b"hello world"), 11);
    let mut expected = sent_packet(b"hell");
    expected.extend_from_slice(&sent_packet(b"o wo"));
    expected.extend_from_slice(&sent_packet(b"rld"));
    assert_eq!(written(&e), expected);
    assert_eq!(e.channels[0].recipient_window_size, 89);
}

#[test]
fn data_stops_at_the_window() {
    let mut e = peer_channel(5, 100);
    assert_eq!(e.data(ChannelId(1), None, b"hello world"), 5);
    assert_eq!(written(&e), sent_packet(b"hello"));
    assert_eq!(e.channels[0].recipient_window_size, 0);
    assert_eq!(e.data(ChannelId(1), None, b"more"), 0);
    assert_eq!(written(&e), sent_packet(b"hello"));
}

#[test]
fn extended_data_carries_its_code() {
    let mut e = peer_channel(100, 100);
    assert_eq!(e.data(ChannelId(1), Some(1), b"err"), 3);
    let mut p = vec![95u8];
    p.extend_from_slice(&77u32.to_be_bytes());
    p.extend_from_slice(&1u32.to_be_bytes());
    ssh_string(&mut p, b"err");
    assert_eq!(written(&e), framed(&p));
}

#[test]
fn data_on_a_closed_channel_sends_nothing() {
    let mut e = authenticated();
    assert_eq!(e.data(ChannelId(3), None, b"x"), 0);
    assert!(written(&e).is_empty());
}

#[test]
fn eof_and_exit_status_go_to_the_peer_channel() {
    let mut e = peer_channel(100, 100);
    assert!(e.eof(ChannelId(1)));
    assert!(e.exit_status_request(ChannelId(1), 3));
    let mut eof = vec![96u8];
    eof.extend_from_slice(&77u32.to_be_bytes());
    let mut st = vec![98u8];
    st.extend_from_slice(&77u32.to_be_bytes());
    ssh_string(&mut st, b"exit-status");
    st.push(0);
    st.extend_from_slice(&3u32.to_be_bytes());
    let mut expected = framed(&eof);
    expected.extend_from_slice(&framed(&st));
    assert_eq!(written(&e), expected);
    assert!(!e.eof(ChannelId(2)));
}

#[test]
fn data_beyond_the_window_waits_and_flushes_in_order() {
    let mut e = peer_channel(5, 100);
    assert_eq!(e.send_data(ChannelId(1), None, b"hello world"), 5);
    assert_eq!(e.send_data(ChannelId(1), None, b"!"), 0);
    assert_eq!(written(&e), sent_packet(b"hello"));
    assert_eq!(e.pending.len(), 2);
    e.channels[0].recipient_window_size = 4;
    e.flush_pending(ChannelId(1));
    let mut expected = sent_packet(b"hello");
    expected.extend_from_slice(&sent_packet(b" wor"));
    assert_eq!(written(&e), expected);
    assert_eq!(e.pending.len(), 2);
    assert_eq!(e.pending[0].data, b"ld".to_vec());
    e.channels[0].recipient_window_size = 100;
    e.flush_pending(ChannelId(1));
    expected.extend_from_slice(&sent_packet(b"ld"));
    expected.extend_from_slice(&sent_packet(b"!"));
    assert_eq!(written(&e), expected);
    assert!(e.pending.is_empty());
    assert_eq!(e.channels[0].recipient_window_size, 97);
}

#[test]
fn data_for_a_closed_channel_is_dropped() {
    let mut e = authenticated();
    assert_eq!(e.send_data(ChannelId(9), None, b"x"), 0);
    assert!(e.pending.is_empty());
}

#[test]
fn close_keeps_the_other_channels() {
    let mut e = authenticated();
    let a = open_session(&mut e, 100);
    let b = open_session(&mut e, 100);
    let kept = e.channels[1];
    let mut p = vec![97u8];
    p.extend_from_slice(&a.0.to_be_bytes());
    let mut w = false;
    e.server_read_authenticated(100, 100, &mut w, &p).unwrap();
    assert_eq!(e.channels.len(), 1);
    assert_eq!(e.channels[0], kept);
    assert_eq!(e.channels[0].sender_channel, b);
}
